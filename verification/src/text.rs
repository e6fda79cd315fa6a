//! ASCII-case-insensitive comparison, used by the enumerated-value parsers.

use vstd::prelude::*;
use vstd::string::StrSliceExecFns;

verus! {

/// The code point of `c` with an ASCII upper-case letter folded to lower
/// case; every other character is left as it is. The canonical tokens the
/// parsers match against are plain ASCII, so ASCII folding is all that
/// case-insensitivity needs.
pub open spec fn lower_code(c: char) -> int {
    if 65 <= c as u32 && c as u32 <= 90 {  // 'A' ..= 'Z'
        c as u32 + 32
    } else {
        c as u32 as int
    }
}

/// Two strings are equal once ASCII upper-case letters are folded to lower
/// case, character by character.
pub open spec fn eq_ignore_ascii_case(a: Seq<char>, b: Seq<char>) -> bool {
    a.len() == b.len() && (forall|i: int| 0 <= i < a.len() ==> lower_code(a[i]) == lower_code(b[i]))
}

/// Compare two strings for equality up to ASCII case.
pub fn str_eq_ignore_ascii_case(a: &str, b: &str) -> (r: bool)
    ensures
        r == eq_ignore_ascii_case(a@, b@),
{
    let na = a.unicode_len();
    let nb = b.unicode_len();
    if na != nb {
        return false;
    }
    let mut i: usize = 0;
    while i < na
        invariant
            i <= na,
            na == a@.len(),
            na == b@.len(),
            forall|j: int| 0 <= j < i ==> lower_code(a@[j]) == lower_code(b@[j]),
        decreases na - i,
    {
        let va = a.get_char(i) as u32;
        let vb = b.get_char(i) as u32;
        let la = if 65 <= va && va <= 90 {
            va + 32
        } else {
            va
        };
        let lb = if 65 <= vb && vb <= 90 {
            vb + 32
        } else {
            vb
        };
        if la != lb {
            return false;
        }
        i += 1;
    }
    true
}

} // verus!
