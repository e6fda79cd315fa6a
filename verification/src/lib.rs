//! Canonical data model and wire-format encoding rules for relay-based
//! group messaging: group identifiers, event-kind classification, and the
//! codecs that turn group facts (metadata, roles, admins, members) into
//! ordered tag lists for the event-construction layer.

pub mod constants;
pub mod error;
pub mod key;
pub mod tag;
pub mod text;
pub mod types;
pub mod url;

pub use crate::constants::Kind;
pub use crate::types::AccessModel;
pub use crate::types::GroupAdmin;
pub use crate::types::GroupAdmins;
pub use crate::types::GroupId;
pub use crate::types::GroupMembers;
pub use crate::types::GroupMetadata;
pub use crate::types::GroupRoles;
pub use crate::types::Privacy;
pub use crate::types::Role;
pub use crate::error::Error;
pub use crate::key::PublicKey;
pub use crate::tag::Tag;
pub use crate::url::Url;
