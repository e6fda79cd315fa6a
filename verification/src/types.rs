//! The group data model: the group identifier, the enumerated settings, the
//! fact records (metadata, roles, admins, members), and the codecs that turn
//! each fact record into its ordered tag list.

use vstd::prelude::*;
use vstd::string::{StrSliceExecFns, StringExecFns};
use crate::error::Error;
use crate::key::PublicKey;
use crate::tag::{public_key_tag_view, Tag, TagView};
use crate::text::{eq_ignore_ascii_case, str_eq_ignore_ascii_case};
use crate::url::{url_parse, Url};

verus! {

/// A character allowed in a group id: `a-z`, `0-9`, `-`, `_`.
pub open spec fn is_group_id_char(c: char) -> bool {
    ||| 97 <= c as u32 && c as u32 <= 122  // 'a' ..= 'z'
    ||| 48 <= c as u32 && c as u32 <= 57  // '0' ..= '9'
    ||| c == '-'
    ||| c == '_'
}

/// A well-formed group id: non-empty, every character allowed.
pub open spec fn valid_group_id(s: Seq<char>) -> bool {
    s.len() > 0 && (forall|i: int| 0 <= i < s.len() ==> is_group_id_char(s[i]))
}

/// The distinguished id of the top-level, relay-local group.
pub open spec fn top_level_id() -> Seq<char> {
    seq!['_']
}

/// The URL part of the canonical identifier string: exactly one trailing
/// slash is stripped, if one is present. This is a formatting rule of the
/// identifier's wire form, not a URL-semantic normalization.
pub open spec fn trim_trailing_slash(s: Seq<char>) -> Seq<char> {
    if s.len() > 0 && s.last() == '/' {
        s.drop_last()
    } else {
        s
    }
}

/// The canonical wire form of a group identifier:
/// the relay URL with at most one trailing slash stripped, the apostrophe
/// delimiter, then the group id.
pub open spec fn canonical_tag_value(url: Seq<char>, id: Seq<char>) -> Seq<char> {
    trim_trailing_slash(url) + seq!['\''] + id
}

///`i` is the position of the only apostrophe in `s`.
pub open spec fn is_single_split_at(s: Seq<char>, i: int) -> bool {
    &&& 0 <= i < s.len()
    &&& s[i] == '\''
    &&& forall|j: int| 0 <= j < s.len() && j != i ==> s[j] != '\''
}

/// `s` holds exactly one apostrophe.
pub open spec fn has_single_split(s: Seq<char>) -> bool {
    exists|i: int| is_single_split_at(s, i)
}

/// The position of the only apostrophe in `s` (meaningful when
/// [`has_single_split`] holds).
pub open spec fn split_index(s: Seq<char>) -> int {
    choose|i: int| is_single_split_at(s, i)
}

/// What stands before the only apostrophe.
pub open spec fn split_head(s: Seq<char>) -> Seq<char> {
    s.take(split_index(s))
}

/// What stands after the only apostrophe.
pub open spec fn split_tail(s: Seq<char>) -> Seq<char> {
    s.skip(split_index(s) + 1)
}

/// A group identifier: the relay where the group lives, and the group's id
/// on that relay.
///
/// The id is non-empty and holds only `a-z`, `0-9`, `-`, `_`; the literal
/// id `_` denotes the distinguished top-level, relay-local group. The only
/// ways to obtain a value — [`GroupId::new`] and [`GroupId::from_str`] —
/// validate the id first, so no invalid instance ever exists.
#[derive(Debug, Clone, PartialEq, Eq, PartialOrd, Ord, Hash)]
pub struct GroupId {
    /// Relay URL where the group exists.
    pub relay_url: Url,
    /// Group identifier, unique per relay.
    pub id: String,
}

impl GroupId {
    /// Build a group identifier from a relay URL and an id. Fails with
    /// [`Error::InvalidGroupId`] exactly when the id is empty or holds a
    /// character outside `a-z`, `0-9`, `-`, `_`.
    pub fn new(relay_url: Url, id: String) -> (r: Result<Self, Error>)
        ensures
            r is Ok <==> valid_group_id(id@),
            r matches Ok(g) ==> g.relay_url == relay_url && g.id == id,
            id@.len() == 0 ==> (r matches Err(Error::InvalidGroupId(m)) && m@
                == "Group ID cannot be empty"@),
            id@.len() > 0 && !valid_group_id(id@) ==> (r matches Err(Error::InvalidGroupId(m))
                && m@ == "Group ID must contain only: a-z, 0-9, -, _"@),
    {
        match Self::validate_id(id.as_str()) {
            Ok(()) => Ok(GroupId { relay_url, id }),
            Err(e) => Err(e),
        }
    }

    /// Check a group id against the id grammar.
    fn validate_id(id: &str) -> (r: Result<(), Error>)
        ensures
            r is Ok <==> valid_group_id(id@),
            id@.len() == 0 ==> (r matches Err(Error::InvalidGroupId(m)) && m@
                == "Group ID cannot be empty"@),
            id@.len() > 0 && !valid_group_id(id@) ==> (r matches Err(Error::InvalidGroupId(m))
                && m@ == "Group ID must contain only: a-z, 0-9, -, _"@),
    {
        let n = id.unicode_len();
        if n == 0 {
            return Err(Error::InvalidGroupId(String::from_str("Group ID cannot be empty")));
        }
        let mut i: usize = 0;
        while i < n
            invariant
                i <= n,
                n == id@.len(),
                forall|j: int| 0 <= j < i ==> is_group_id_char(id@[j]),
            decreases n - i,
        {
            let c = id.get_char(i);
            let v = c as u32;
            let ok = (97 <= v && v <= 122) || (48 <= v && v <= 57) || c == '-' || c == '_';
            if !ok {
                return Err(
                    Error::InvalidGroupId(
                        String::from_str("Group ID must contain only: a-z, 0-9, -, _"),
                    ),
                );
            }
            i += 1;
        }
        Ok(())
    }

    /// Whether this is the top-level, relay-local group (id `_`).
    pub fn is_top_level(&self) -> (r: bool)
        ensures
            r == (self.id@ == top_level_id()),
    {
        let s = self.id.as_str();
        if s.unicode_len() != 1 {
            return false;
        }
        let r = s.get_char(0) == '_';
        proof {
            if r {
                assert(self.id@ =~= top_level_id());
            }
        }
        r
    }

    /// The canonical string form `relay-url'group-id`, with at most one
    /// trailing slash stripped from the relay URL's serialization.
    pub fn to_tag_value(&self) -> (r: String)
        ensures
            r@ == canonical_tag_value(self.relay_url@, self.id@),
    {
        let url_str = self.relay_url.as_str();
        let n = url_str.unicode_len();
        let trimmed = if n > 0 && url_str.get_char(n - 1) == '/' {
            url_str.substring_char(0, n - 1)
        } else {
            url_str
        };
        proof {
            assert(trimmed@ =~= trim_trailing_slash(self.relay_url@));
        }
        let mut out = String::from_str(trimmed);
        out.append("'");
        out.append(self.id.as_str());
        proof {
            reveal_strlit("'");
            assert(out@ =~= canonical_tag_value(self.relay_url@, self.id@));
        }
        out
    }

    /// Parse the wire form `relay-url'group-id`.
    ///
    /// Fails with [`Error::InvalidGroupIdentifier`] unless the apostrophe
    /// splits the input in exactly two parts and the first part parses as a
    /// URL, and with [`Error::InvalidGroupId`] when the second part breaks
    /// the id grammar. The relay URL held by the result is the parser's
    /// serialization, which need not be byte-identical to the input's URL
    /// part.
    pub fn from_str(s: &str) -> (r: Result<Self, Error>)
        ensures
            r is Ok <==> has_single_split(s@) && url_parse(split_head(s@)) is Some
                && valid_group_id(split_tail(s@)),
            r matches Ok(g) ==> url_parse(split_head(s@)) == Some(g.relay_url@) && g.id@
                == split_tail(s@),
            !has_single_split(s@) ==> (r matches Err(Error::InvalidGroupIdentifier(m)) && m@
                == "Expected format: relay-url'group-id"@),
            has_single_split(s@) && url_parse(split_head(s@)) is None ==> r matches Err(
                Error::InvalidGroupIdentifier(_),
            ),
            has_single_split(s@) && url_parse(split_head(s@)) is Some && !valid_group_id(
                split_tail(s@),
            ) ==> r matches Err(Error::InvalidGroupId(_)),
    {
        let n = s.unicode_len();
        let mut first: Option<usize> = None;
        let mut second: Option<usize> = None;
        let mut i: usize = 0;
        while i < n
            invariant
                i <= n,
                n == s@.len(),
                first is None ==> second is None,
                first is None ==> forall|j: int| 0 <= j < i ==> s@[j] != '\'',
                first matches Some(p) ==> p < i && s@[p as int] == '\'' && forall|j: int|
                    0 <= j < p ==> s@[j] != '\'',
                first matches Some(p) ==> (second is None ==> forall|j: int|
                    p < j < i ==> s@[j] != '\''),
                second matches Some(q) ==> q < i && s@[q as int] == '\'' && (first matches Some(p)
                    && p < q),
            decreases n - i,
        {
            let c = s.get_char(i);
            if c == '\'' {
                if first.is_none() {
                    first = Some(i);
                } else if second.is_none() {
                    second = Some(i);
                }
            }
            i += 1;
        }
        match (first, second) {
            (Some(p), None) => {
                proof {
                    assert(is_single_split_at(s@, p as int));
                    assert(has_single_split(s@));
                    let si = split_index(s@);
                    if si != p as int {
                        assert(s@[p as int] != '\'');
                    }
                    assert(split_index(s@) == p as int);
                }
                let head = s.substring_char(0, p);
                let tail = s.substring_char(p + 1, n);
                proof {
                    assert(head@ =~= split_head(s@));
                    assert(tail@ =~= split_tail(s@));
                }
                match Url::parse(head) {
                    Ok(relay_url) => Self::new(relay_url, String::from_str(tail)),
                    Err(e) => Err(e),
                }
            },
            _ => {
                proof {
                    if has_single_split(s@) {
                        let si = split_index(s@);
                        assert(is_single_split_at(s@, si));
                        match first {
                            None => {
                                assert(s@[si] != '\'');
                            },
                            Some(p) => {
                                let q = second->0;
                                if si == p as int {
                                    assert(s@[q as int] != '\'');
                                } else {
                                    assert(s@[p as int] != '\'');
                                }
                            },
                        }
                    }
                }
                Err(
                    Error::InvalidGroupIdentifier(
                        String::from_str("Expected format: relay-url'group-id"),
                    ),
                )
            },
        }
    }
}

/// Whether a group's content can be read by non-members.
#[derive(Debug, Clone, Copy, PartialEq, Eq, PartialOrd, Ord, Hash, Structural)]
pub enum Privacy {
    /// Readable by external users.
    Public,
    /// Visible to members only.
    Private,
}

/// The canonical lowercase token of a privacy setting.
pub open spec fn privacy_token(p: Privacy) -> Seq<char> {
    match p {
        Privacy::Public => "public"@,
        Privacy::Private => "private"@,
    }
}

impl Privacy {
    /// The canonical lowercase token: `public` or `private`.
    pub fn as_str(&self) -> (r: &str)
        ensures
            r@ == privacy_token(*self),
    {
        match self {
            Privacy::Public => "public",
            Privacy::Private => "private",
        }
    }

    /// Parse a privacy token, case-insensitively. Any token other than
    /// `public` or `private` fails with [`Error::InvalidPrivacy`] carrying
    /// the offending string.
    pub fn from_str(s: &str) -> (r: Result<Privacy, Error>)
        ensures
            r matches Ok(p) ==> (p == Privacy::Public && eq_ignore_ascii_case(s@, "public"@)) || (p
                == Privacy::Private && eq_ignore_ascii_case(s@, "private"@)),
            r is Err <==> !eq_ignore_ascii_case(s@, "public"@) && !eq_ignore_ascii_case(
                s@,
                "private"@,
            ),
            r is Err ==> (r matches Err(Error::InvalidPrivacy(m)) && m@
                == "Expected 'public' or 'private', got: "@ + s@),
    {
        if str_eq_ignore_ascii_case(s, "public") {
            Ok(Privacy::Public)
        } else if str_eq_ignore_ascii_case(s, "private") {
            Ok(Privacy::Private)
        } else {
            Err(
                Error::InvalidPrivacy(
                    String::from_str("Expected 'public' or 'private', got: ").concat(s),
                ),
            )
        }
    }
}

impl Default for Privacy {
    /// The canonical default: [`Privacy::Public`].
    fn default() -> (r: Self)
        ensures
            r == Privacy::Public,
    {
        Privacy::Public
    }
}

/// Whether join requests are honored automatically or need admin action.
#[derive(Debug, Clone, Copy, PartialEq, Eq, PartialOrd, Ord, Hash, Structural)]
pub enum AccessModel {
    /// Join requests are approved automatically.
    Open,
    /// Join requests require approval.
    Closed,
}

/// The canonical lowercase token of an access model.
pub open spec fn access_model_token(a: AccessModel) -> Seq<char> {
    match a {
        AccessModel::Open => "open"@,
        AccessModel::Closed => "closed"@,
    }
}

impl AccessModel {
    /// The canonical lowercase token: `open` or `closed`.
    pub fn as_str(&self) -> (r: &str)
        ensures
            r@ == access_model_token(*self),
    {
        match self {
            AccessModel::Open => "open",
            AccessModel::Closed => "closed",
        }
    }

    /// Parse an access-model token, case-insensitively. Any token other
    /// than `open` or `closed` fails with [`Error::InvalidAccessModel`]
    /// carrying the offending string.
    pub fn from_str(s: &str) -> (r: Result<AccessModel, Error>)
        ensures
            r matches Ok(a) ==> (a == AccessModel::Open && eq_ignore_ascii_case(s@, "open"@)) || (a
                == AccessModel::Closed && eq_ignore_ascii_case(s@, "closed"@)),
            r is Err <==> !eq_ignore_ascii_case(s@, "open"@) && !eq_ignore_ascii_case(
                s@,
                "closed"@,
            ),
            r is Err ==> (r matches Err(Error::InvalidAccessModel(m)) && m@
                == "Expected 'open' or 'closed', got: "@ + s@),
    {
        if str_eq_ignore_ascii_case(s, "open") {
            Ok(AccessModel::Open)
        } else if str_eq_ignore_ascii_case(s, "closed") {
            Ok(AccessModel::Closed)
        } else {
            Err(
                Error::InvalidAccessModel(
                    String::from_str("Expected 'open' or 'closed', got: ").concat(s),
                ),
            )
        }
    }
}

impl Default for AccessModel {
    /// The canonical default: [`AccessModel::Open`].
    fn default() -> (r: Self)
        ensures
            r == AccessModel::Open,
    {
        AccessModel::Open
    }
}

/// A group's descriptive facts. Every field but the two settings is
/// optional; absent fields emit no tag.
#[derive(Debug, Clone, PartialEq, Eq, PartialOrd, Ord, Hash)]
pub struct GroupMetadata {
    /// Display name.
    pub name: Option<String>,
    /// Description.
    pub about: Option<String>,
    /// Group image URL.
    pub picture: Option<Url>,
    /// Privacy setting.
    pub privacy: Privacy,
    /// Access model.
    pub closed: AccessModel,
}

/// The ordered tag list of a metadata record: a `name`, `description` and
/// `image` tag for each present optional field, in that order, then always
/// a `privacy` and a `closed` tag carrying the canonical tokens. At least
/// two and at most five tags.
pub open spec fn metadata_tag_views(m: GroupMetadata) -> Seq<TagView> {
    (if m.name is Some {
        seq![TagView { kind: "name"@, values: seq![m.name->0@] }]
    } else {
        Seq::empty()
    }) + (if m.about is Some {
        seq![TagView { kind: "description"@, values: seq![m.about->0@] }]
    } else {
        Seq::empty()
    }) + (if m.picture is Some {
        seq![TagView { kind: "image"@, values: seq![m.picture->0@] }]
    } else {
        Seq::empty()
    }) + seq![
        TagView { kind: "privacy"@, values: seq![privacy_token(m.privacy)] },
        TagView { kind: "closed"@, values: seq![access_model_token(m.closed)] },
    ]
}

/// A metadata record always emits between two and five tags, and the last
/// two are always the `privacy` and the `closed` tag, in that order,
/// carrying the canonical tokens of the record's settings.
pub proof fn lemma_metadata_tag_count(m: GroupMetadata)
    ensures
        2 <= metadata_tag_views(m).len() <= 5,
        metadata_tag_views(m)[metadata_tag_views(m).len() - 2] == (TagView {
            kind: "privacy"@,
            values: seq![privacy_token(m.privacy)],
        }),
        metadata_tag_views(m)[metadata_tag_views(m).len() - 1] == (TagView {
            kind: "closed"@,
            values: seq![access_model_token(m.closed)],
        }),
{
}

impl GroupMetadata {
    /// Encode the record as its ordered tag list.
    pub fn to_tags(self) -> (r: Vec<Tag>)
        ensures
            r.deep_view() == metadata_tag_views(self),
    {
        let mut tags: Vec<Tag> = Vec::new();
        if let Some(name) = self.name {
            let mut values: Vec<String> = Vec::new();
            values.push(name);
            tags.push(Tag::new(String::from_str("name"), values));
        }
        if let Some(about) = self.about {
            let mut values: Vec<String> = Vec::new();
            values.push(about);
            tags.push(Tag::new(String::from_str("description"), values));
        }
        if let Some(picture) = self.picture {
            let mut values: Vec<String> = Vec::new();
            values.push(String::from_str(picture.as_str()));
            tags.push(Tag::new(String::from_str("image"), values));
        }
        let mut privacy_values: Vec<String> = Vec::new();
        privacy_values.push(String::from_str(self.privacy.as_str()));
        tags.push(Tag::new(String::from_str("privacy"), privacy_values));
        let mut closed_values: Vec<String> = Vec::new();
        closed_values.push(String::from_str(self.closed.as_str()));
        tags.push(Tag::new(String::from_str("closed"), closed_values));
        proof {
            assert(tags.deep_view() =~~= metadata_tag_views(self));
        }
        tags
    }
}

impl Default for GroupMetadata {
    /// All optional fields absent, both settings at their canonical
    /// defaults.
    fn default() -> (r: Self)
        ensures
            r.name is None,
            r.about is None,
            r.picture is None,
            r.privacy == Privacy::Public,
            r.closed == AccessModel::Open,
    {
        GroupMetadata {
            name: None,
            about: None,
            picture: None,
            privacy: Privacy::Public,
            closed: AccessModel::Open,
        }
    }
}

/// A role that members of a group can hold.
#[derive(Debug, Clone, PartialEq, Eq, PartialOrd, Ord, Hash)]
pub struct Role {
    /// Role name.
    pub name: String,
    /// Optional description.
    pub description: Option<String>,
}

impl Role {
    /// A role with a name and no description.
    pub fn new(name: &str) -> (r: Self)
        ensures
            r.name@ == name@,
            r.description is None,
    {
        Role { name: String::from_str(name), description: None }
    }

    /// A role with a name and a description.
    pub fn with_description(name: &str, description: &str) -> (r: Self)
        ensures
            r.name@ == name@,
            r.description matches Some(d) && d@ == description@,
    {
        Role { name: String::from_str(name), description: Some(String::from_str(description)) }
    }
}

/// The single tag of one role definition: kind `role`, values
/// `[name, description]` when a description is present, else `[name]`.
pub open spec fn role_tag_view(r: Role) -> TagView {
    match r.description {
        Some(d) => TagView { kind: "role"@, values: seq![r.name@, d@] },
        None => TagView { kind: "role"@, values: seq![r.name@] },
    }
}

/// The ordered tag list of a roles record: one `role` tag per role, in
/// list order.
pub open spec fn roles_tag_views(roles: Seq<Role>) -> Seq<TagView> {
    roles.map_values(|r: Role| role_tag_view(r))
}

/// A group's role definitions, in insertion order.
#[derive(Debug, Clone, PartialEq, Eq, PartialOrd, Ord, Hash)]
pub struct GroupRoles {
    /// List of role definitions.
    pub roles: Vec<Role>,
}

impl GroupRoles {
    /// An empty roles record.
    pub fn new() -> (r: Self)
        ensures
            r.roles@.len() == 0,
    {
        GroupRoles { roles: Vec::new() }
    }

    /// The record with one role appended; the order of the others is kept.
    pub fn add_role(self, role: Role) -> (r: Self)
        ensures
            r.roles@ == self.roles@.push(role),
    {
        let mut s = self;
        s.roles.push(role);
        s
    }

    /// Encode the record as its ordered tag list: one tag per role, in
    /// list order; an empty record yields an empty list.
    pub fn to_tags(&self) -> (r: Vec<Tag>)
        ensures
            r.deep_view() == roles_tag_views(self.roles@),
    {
        let mut tags: Vec<Tag> = Vec::new();
        proof {
            assert(tags.deep_view() =~~= roles_tag_views(self.roles@.take(0)));
        }
        let mut i: usize = 0;
        while i < self.roles.len()
            invariant
                i <= self.roles@.len(),
                tags.deep_view() == roles_tag_views(self.roles@.take(i as int)),
            decreases self.roles@.len() - i,
        {
            let role = &self.roles[i];
            let mut values: Vec<String> = Vec::new();
            values.push(role.name.clone());
            if let Some(d) = &role.description {
                values.push(d.clone());
            }
            proof {
                assert(values.deep_view() =~~= role_tag_view(self.roles@[i as int]).values);
            }
            let ghost pre = tags.deep_view();
            tags.push(Tag::new(String::from_str("role"), values));
            proof {
                let dv = tags.deep_view();
                let rhs = roles_tag_views(self.roles@.take(i + 1));
                assert(pre.len() == i);
                assert(dv.len() == i + 1);
                assert(rhs.len() == i + 1);
                assert(forall|k: int| 0 <= k < i ==> dv[k] == pre[k]);
                assert(self.roles@.take(i + 1)[i as int] == self.roles@[i as int]);
                assert(dv[i as int] =~~= role_tag_view(self.roles@[i as int]));
                assert(forall|k: int| 0 <= k < i ==> rhs[k] == pre[k]);
                assert(dv =~~= rhs);
            }
            i += 1;
        }
        proof {
            assert(self.roles@.take(self.roles@.len() as int) =~= self.roles@);
        }
        tags
    }
}

impl Default for GroupRoles {
    /// An empty roles record.
    fn default() -> (r: Self)
        ensures
            r.roles@.len() == 0,
    {
        GroupRoles { roles: Vec::new() }
    }
}

/// An admin of a group: a public key and the roles assigned to it.
#[derive(Debug, Clone, PartialEq, Eq, PartialOrd, Ord, Hash)]
pub struct GroupAdmin {
    /// Public key of the admin.
    pub public_key: PublicKey,
    /// Assigned role names, in order.
    pub roles: Vec<String>,
}

impl GroupAdmin {
    /// An admin with the given key and role names.
    pub fn new(public_key: PublicKey, roles: Vec<String>) -> (r: Self)
        ensures
            r.public_key == public_key,
            r.roles == roles,
    {
        GroupAdmin { public_key, roles }
    }
}

/// One `role` tag with a single value per assigned role name, in order.
pub open spec fn role_assignment_tag_views(names: Seq<Seq<char>>) -> Seq<TagView> {
    names.map_values(|n: Seq<char>| TagView { kind: "role"@, values: seq![n] })
}

/// The tag run of one admin: its public-key-reference tag, immediately
/// followed by one `role` tag per assigned role, in that admin's order.
pub open spec fn admin_tag_views(a: GroupAdmin) -> Seq<TagView> {
    seq![public_key_tag_view(a.public_key@)] + role_assignment_tag_views(a.roles.deep_view())
}

/// The ordered tag list of an admins record: the admins' tag runs
/// concatenated in list order, so each run of `role` tags belongs to the
/// public-key tag immediately preceding it.
pub open spec fn admins_tag_views(admins: Seq<GroupAdmin>) -> Seq<TagView>
    decreases admins.len(),
{
    if admins.len() == 0 {
        Seq::empty()
    } else {
        admins_tag_views(admins.drop_last()) + admin_tag_views(admins.last())
    }
}

/// The tag run of one admin starts with its public-key-reference tag, and
/// every following tag of the run is the `role` tag of one assigned role,
/// in the admin's order: the key tag immediately precedes its role tags.
pub proof fn lemma_admin_run_shape(a: GroupAdmin)
    ensures
        admin_tag_views(a).len() == 1 + a.roles.deep_view().len(),
        admin_tag_views(a)[0] == public_key_tag_view(a.public_key@),
        forall|k: int| 1 <= k < admin_tag_views(a).len() ==> admin_tag_views(a)[k] == (TagView {
            kind: "role"@,
            values: seq![a.roles.deep_view()[k - 1]],
        }),
{
}

/// The tag list of an admins record grows run by run: appending an admin
/// appends exactly that admin's tag run after the runs of the admins
/// already in the list.
pub proof fn lemma_admins_tags_append(admins: Seq<GroupAdmin>, a: GroupAdmin)
    ensures
        admins_tag_views(admins.push(a)) == admins_tag_views(admins) + admin_tag_views(a),
{
    assert(admins.push(a).drop_last() =~= admins);
    assert(admins.push(a).last() == a);
}

/// A group's admin list, in insertion order.
#[derive(Debug, Clone, PartialEq, Eq, PartialOrd, Ord, Hash)]
pub struct GroupAdmins {
    /// List of admins.
    pub admins: Vec<GroupAdmin>,
}

impl GroupAdmins {
    /// An empty admins record.
    pub fn new() -> (r: Self)
        ensures
            r.admins@.len() == 0,
    {
        GroupAdmins { admins: Vec::new() }
    }

    /// The record with one admin appended; the order of the others is kept.
    pub fn add_admin(self, admin: GroupAdmin) -> (r: Self)
        ensures
            r.admins@ == self.admins@.push(admin),
    {
        let mut s = self;
        s.admins.push(admin);
        s
    }

    /// Encode the record as its ordered tag list: for each admin in list
    /// order, its public-key-reference tag immediately followed by that
    /// admin's `role` tags.
    pub fn to_tags(&self) -> (r: Vec<Tag>)
        ensures
            r.deep_view() == admins_tag_views(self.admins@),
    {
        let mut tags: Vec<Tag> = Vec::new();
        proof {
            assert(tags.deep_view() =~~= admins_tag_views(self.admins@.take(0)));
        }
        let mut i: usize = 0;
        while i < self.admins.len()
            invariant
                i <= self.admins@.len(),
                tags.deep_view() == admins_tag_views(self.admins@.take(i as int)),
            decreases self.admins@.len() - i,
        {
            let admin = &self.admins[i];
            tags.push(Tag::public_key(&admin.public_key));
            let ghost before = tags.deep_view();
            proof {
                assert(tags.deep_view() =~~= before + role_assignment_tag_views(
                    admin.roles.deep_view().take(0),
                ));
            }
            let mut j: usize = 0;
            while j < admin.roles.len()
                invariant
                    j <= admin.roles@.len(),
                    before == admins_tag_views(self.admins@.take(i as int)) + seq![
                        public_key_tag_view(admin.public_key@),
                    ],
                    tags.deep_view() == before + role_assignment_tag_views(
                        admin.roles.deep_view().take(j as int),
                    ),
                decreases admin.roles@.len() - j,
            {
                let mut values: Vec<String> = Vec::new();
                values.push(admin.roles[j].clone());
                proof {
                    assert(values.deep_view() =~~= seq![admin.roles@[j as int]@]);
                }
                let ghost pre = tags.deep_view();
                tags.push(Tag::new(String::from_str("role"), values));
                proof {
                    let names = admin.roles.deep_view();
                    let dv = tags.deep_view();
                    let rhs = before + role_assignment_tag_views(names.take(j + 1));
                    assert(pre.len() == before.len() + j);
                    assert(dv.len() == pre.len() + 1);
                    assert(rhs.len() == dv.len());
                    assert(forall|k: int| 0 <= k < pre.len() ==> dv[k] == pre[k]);
                    assert(names.take(j + 1)[j as int] == admin.roles@[j as int]@);
                    assert(dv[pre.len() as int] =~~= (TagView {
                        kind: "role"@,
                        values: seq![admin.roles@[j as int]@],
                    }));
                    assert(forall|k: int| 0 <= k < pre.len() ==> rhs[k] == pre[k]);
                    assert(dv =~~= rhs);
                }
                j += 1;
            }
            proof {
                assert(admin.roles.deep_view().take(admin.roles@.len() as int) =~= admin
                    .roles
                    .deep_view());
                assert(self.admins@.take(i + 1).drop_last() =~= self.admins@.take(i as int));
                assert(tags.deep_view() =~~= admins_tag_views(self.admins@.take(i + 1)));
            }
            i += 1;
        }
        proof {
            assert(self.admins@.take(self.admins@.len() as int) =~= self.admins@);
        }
        tags
    }
}

impl Default for GroupAdmins {
    /// An empty admins record.
    fn default() -> (r: Self)
        ensures
            r.admins@.len() == 0,
    {
        GroupAdmins { admins: Vec::new() }
    }
}

/// The ordered tag list of a members record: one public-key-reference tag
/// per member, in list order, duplicates kept.
pub open spec fn members_tag_views(members: Seq<PublicKey>) -> Seq<TagView> {
    members.map_values(|k: PublicKey| public_key_tag_view(k@))
}

/// A roles record emits exactly one tag per role, in list order; an empty
/// record emits an empty list.
pub proof fn lemma_roles_tag_count(roles: Seq<Role>)
    ensures
        roles_tag_views(roles).len() == roles.len(),
        forall|k: int| 0 <= k < roles.len() ==> roles_tag_views(roles)[k] == role_tag_view(
            roles[k],
        ),
{
}

/// A members record emits exactly one public-key-reference tag per member,
/// in list order; a repeated key keeps its repeated tag.
pub proof fn lemma_members_tag_count(members: Seq<PublicKey>)
    ensures
        members_tag_views(members).len() == members.len(),
        forall|k: int| 0 <= k < members.len() ==> members_tag_views(members)[k]
            == public_key_tag_view(members[k]@),
{
}

/// A group's member list, in insertion order; duplicates are permitted and
/// never collapsed.
#[derive(Debug, Clone, PartialEq, Eq, PartialOrd, Ord, Hash)]
pub struct GroupMembers {
    /// List of member public keys.
    pub members: Vec<PublicKey>,
}

impl GroupMembers {
    /// An empty members record.
    pub fn new() -> (r: Self)
        ensures
            r.members@.len() == 0,
    {
        GroupMembers { members: Vec::new() }
    }

    /// The record with one member appended; the order of the others is
    /// kept, and a key already present is kept as a duplicate.
    pub fn add_member(self, public_key: PublicKey) -> (r: Self)
        ensures
            r.members@ == self.members@.push(public_key),
    {
        let mut s = self;
        s.members.push(public_key);
        s
    }

    /// Encode the record as its ordered tag list: one public-key-reference
    /// tag per member, in list order; repeated keys give repeated tags.
    pub fn to_tags(&self) -> (r: Vec<Tag>)
        ensures
            r.deep_view() == members_tag_views(self.members@),
    {
        let mut tags: Vec<Tag> = Vec::new();
        proof {
            assert(tags.deep_view() =~~= members_tag_views(self.members@.take(0)));
        }
        let mut i: usize = 0;
        while i < self.members.len()
            invariant
                i <= self.members@.len(),
                tags.deep_view() == members_tag_views(self.members@.take(i as int)),
            decreases self.members@.len() - i,
        {
            let ghost pre = tags.deep_view();
            tags.push(Tag::public_key(&self.members[i]));
            proof {
                let dv = tags.deep_view();
                let rhs = members_tag_views(self.members@.take(i + 1));
                assert(pre.len() == i);
                assert(dv.len() == i + 1);
                assert(rhs.len() == i + 1);
                assert(forall|k: int| 0 <= k < i ==> dv[k] == pre[k]);
                assert(self.members@.take(i + 1)[i as int] == self.members@[i as int]);
                assert(dv[i as int] == public_key_tag_view(self.members@[i as int]@));
                assert(forall|k: int| 0 <= k < i ==> rhs[k] == pre[k]);
                assert(dv =~~= rhs);
            }
            i += 1;
        }
        proof {
            assert(self.members@.take(self.members@.len() as int) =~= self.members@);
        }
        tags
    }
}

impl Default for GroupMembers {
    /// An empty members record.
    fn default() -> (r: Self)
        ensures
            r.members@.len() == 0,
    {
        GroupMembers { members: Vec::new() }
    }
}

} // verus!
