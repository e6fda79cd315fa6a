//! The generic key-plus-values tag that the codecs emit.
//!
//! A tag is the protocol's generic ordered annotation: a kind (its first
//! element on the wire) followed by the values. The event-construction
//! layer consumes the tag lists this crate produces; nothing here signs or
//! transports anything.

use vstd::prelude::*;
use crate::key::{hex_lower, PublicKey};

verus! {

/// The mathematical value of a [`Tag`]: its kind and its values, as
/// character sequences.
#[verifier::ext_equal]
pub ghost struct TagView {
    /// The tag's kind (its first element on the wire).
    pub kind: Seq<char>,
    /// The tag's values, in order.
    pub values: Seq<Seq<char>>,
}

/// A generic protocol tag: a kind followed by ordered values.
#[derive(Debug, Clone, PartialEq, Eq)]
pub struct Tag {
    /// The tag's kind.
    pub kind: String,
    /// The tag's values, in order.
    pub values: Vec<String>,
}

impl View for Tag {
    type V = TagView;

    open spec fn view(&self) -> TagView {
        TagView { kind: self.kind@, values: self.values.deep_view() }
    }
}

impl DeepView for Tag {
    type V = TagView;

    open spec fn deep_view(&self) -> TagView {
        self.view()
    }
}

/// The view of a public-key-reference tag for the key bytes `k`.
pub open spec fn public_key_tag_view(k: Seq<u8>) -> TagView {
    TagView { kind: "p"@, values: seq![hex_lower(k)] }
}

impl Tag {
    /// Build a tag from its kind and values.
    pub fn new(kind: String, values: Vec<String>) -> (r: Tag)
        ensures
            r@ == (TagView { kind: kind@, values: values.deep_view() }),
    {
        Tag { kind, values }
    }

    /// The public-key-reference tag for a key: kind `p`, one value holding
    /// the key's bytes in lower-case hex.
    pub fn public_key(key: &PublicKey) -> (r: Tag)
        ensures
            r@ == public_key_tag_view(key@),
    {
        let mut values: Vec<String> = Vec::new();
        values.push(key.to_hex());
        proof {
            assert(values.deep_view() =~= seq![hex_lower(key@)]);
        }
        Tag { kind: String::from_str("p"), values }
    }
}

} // verus!
