//! Event-kind catalog: the sorted membership tables of group-related
//! event-kind codes and the classification predicates over them.

use vstd::prelude::*;

verus! {

/// A numeric event-kind code, as carried by a signed protocol event.
#[derive(Debug, Clone, Copy, PartialEq, Eq, Structural)]
pub struct Kind {
    /// The 16-bit kind code.
    pub code: u16,
}

impl Kind {
    /// Wrap a raw 16-bit kind code.
    pub fn from_u16(code: u16) -> (r: Self)
        ensures
            r.code == code,
    {
        Kind { code }
    }

    /// The raw 16-bit kind code.
    pub fn as_u16(&self) -> (r: u16)
        ensures
            r == self.code,
    {
        self.code
    }
}

impl From<u16> for Kind {
    fn from(code: u16) -> (r: Self)
        ensures
            r.code == code,
    {
        Kind { code }
    }
}

impl vstd::std_specs::convert::FromSpecImpl<u16> for Kind {
    open spec fn obeys_from_spec() -> bool {
        true
    }

    open spec fn from_spec(code: u16) -> Self {
        Kind { code }
    }
}

/// Moderation kind codes: relay-enforced administrative actions.
/// The codes 9003, 9004 and 9006 inside the 9000-9009 range are reserved
/// and deliberately absent, so the set is discrete, never a range test.
pub open spec fn is_moderation_kind(code: u16) -> bool {
    ||| code == 9000  // add/update user with roles
    ||| code == 9001  // remove user
    ||| code == 9002  // edit group metadata
    ||| code == 9005  // delete event
    ||| code == 9007  // create group
    ||| code == 9008  // delete group
    ||| code == 9009  // create invite
}

/// Metadata kind codes: addressable events replaceable by identifier.
pub open spec fn is_metadata_kind(code: u16) -> bool {
    ||| code == 39000  // group metadata
    ||| code == 39001  // admins list
    ||| code == 39002  // members list
    ||| code == 39003  // roles definition
}

/// User-initiated kind codes.
pub open spec fn is_user_kind(code: u16) -> bool {
    ||| code == 9021  // join request
    ||| code == 9022  // leave request
}

/// A table is sorted in ascending order. Sortedness is a correctness
/// invariant of the membership tables: [`sorted_contains`] relies on it.
pub open spec fn sorted_u16(s: Seq<u16>) -> bool {
    forall|i: int, j: int| 0 <= i < j < s.len() ==> s[i] <= s[j]
}

/// The moderation table, ascending.
fn moderation_kinds() -> (r: Vec<u16>)
    ensures
        sorted_u16(r@),
        forall|code: u16| r@.contains(code) <==> is_moderation_kind(code),
{
    let mut v: Vec<u16> = Vec::new();
    v.push(9000);
    v.push(9001);
    v.push(9002);
    v.push(9005);
    v.push(9007);
    v.push(9008);
    v.push(9009);
    proof {
        assert(v@[0] == 9000 && v@[1] == 9001 && v@[2] == 9002 && v@[3] == 9005 && v@[4] == 9007
            && v@[5] == 9008 && v@[6] == 9009);
        assert forall|code: u16| v@.contains(code) implies is_moderation_kind(code) by {
            let i = choose|i: int| 0 <= i < v@.len() && v@[i] == code;
            assert(0 <= i < 7);
        }
        assert forall|code: u16| is_moderation_kind(code) implies v@.contains(code) by {
            if code == 9000 {
                assert(v@[0] == code);
            } else if code == 9001 {
                assert(v@[1] == code);
            } else if code == 9002 {
                assert(v@[2] == code);
            } else if code == 9005 {
                assert(v@[3] == code);
            } else if code == 9007 {
                assert(v@[4] == code);
            } else if code == 9008 {
                assert(v@[5] == code);
            } else {
                assert(v@[6] == code);
            }
        }
    }
    v
}

/// The metadata table, ascending.
fn metadata_kinds() -> (r: Vec<u16>)
    ensures
        sorted_u16(r@),
        forall|code: u16| r@.contains(code) <==> is_metadata_kind(code),
{
    let mut v: Vec<u16> = Vec::new();
    v.push(39000);
    v.push(39001);
    v.push(39002);
    v.push(39003);
    proof {
        assert(v@[0] == 39000 && v@[1] == 39001 && v@[2] == 39002 && v@[3] == 39003);
        assert forall|code: u16| v@.contains(code) implies is_metadata_kind(code) by {
            let i = choose|i: int| 0 <= i < v@.len() && v@[i] == code;
            assert(0 <= i < 4);
        }
        assert forall|code: u16| is_metadata_kind(code) implies v@.contains(code) by {
            if code == 39000 {
                assert(v@[0] == code);
            } else if code == 39001 {
                assert(v@[1] == code);
            } else if code == 39002 {
                assert(v@[2] == code);
            } else {
                assert(v@[3] == code);
            }
        }
    }
    v
}

/// The user-initiated table, ascending.
fn user_kinds() -> (r: Vec<u16>)
    ensures
        sorted_u16(r@),
        forall|code: u16| r@.contains(code) <==> is_user_kind(code),
{
    let mut v: Vec<u16> = Vec::new();
    v.push(9021);
    v.push(9022);
    proof {
        assert(v@[0] == 9021 && v@[1] == 9022);
        assert forall|code: u16| v@.contains(code) implies is_user_kind(code) by {
            let i = choose|i: int| 0 <= i < v@.len() && v@[i] == code;
            assert(0 <= i < 2);
        }
        assert forall|code: u16| is_user_kind(code) implies v@.contains(code) by {
            if code == 9021 {
                assert(v@[0] == code);
            } else {
                assert(v@[1] == code);
            }
        }
    }
    v
}

/// Binary search over an ascending table.
fn sorted_contains(table: &Vec<u16>, code: u16) -> (r: bool)
    requires
        sorted_u16(table@),
    ensures
        r == table@.contains(code),
{
    let mut lo: usize = 0;
    let mut hi: usize = table.len();
    while lo < hi
        invariant
            lo <= hi <= table@.len(),
            sorted_u16(table@),
            forall|i: int| 0 <= i < table@.len() && table@[i] == code ==> lo <= i < hi,
        decreases hi - lo,
    {
        let mid = lo + (hi - lo) / 2;
        let v = table[mid];
        if v == code {
            assert(table@.contains(code));
            return true;
        } else if v < code {
            assert forall|i: int|
                0 <= i < table@.len() && table@[i] == code implies mid + 1 <= i < hi by {
                assert(table@[mid as int] <= table@[i] || i <= mid as int);
            }
            lo = mid + 1;
        } else {
            assert forall|i: int| 0 <= i < table@.len() && table@[i] == code implies lo <= i
                < mid by {
                assert(table@[i] <= table@[mid as int] || i >= mid as int);
            }
            hi = mid;
        }
    }
    assert(!table@.contains(code)) by {
        if table@.contains(code) {
            let i = choose|i: int| 0 <= i < table@.len() && table@[i] == code;
        }
    }
    false
}

impl Kind {
    /// Whether the kind is a group moderation event: true for exactly the
    /// codes 9000, 9001, 9002, 9005, 9007, 9008 and 9009.
    pub fn is_group_moderation(&self) -> (r: bool)
        ensures
            r == is_moderation_kind(self.code),
    {
        let table = moderation_kinds();
        sorted_contains(&table, self.code)
    }

    /// Whether the kind is an addressable group metadata event: true for
    /// exactly the codes 39000, 39001, 39002 and 39003.
    pub fn is_group_metadata(&self) -> (r: bool)
        ensures
            r == is_metadata_kind(self.code),
    {
        let table = metadata_kinds();
        sorted_contains(&table, self.code)
    }

    /// Whether the kind is any group-related event: the union of the
    /// moderation codes, the metadata codes, and the user-initiated codes
    /// 9021 and 9022.
    pub fn is_group_event(&self) -> (r: bool)
        ensures
            r == (is_moderation_kind(self.code) || is_metadata_kind(self.code) || is_user_kind(
                self.code,
            )),
    {
        if self.is_group_moderation() {
            return true;
        }
        if self.is_group_metadata() {
            return true;
        }
        let table = user_kinds();
        sorted_contains(&table, self.code)
    }
}

} // verus!
