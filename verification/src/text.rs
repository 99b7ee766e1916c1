use vstd::prelude::*;
use vstd::string::StrSliceExecFns;

verus! {

/// ASCII lower-casing of one character: 'A'..='Z' become 'a'..='z', every
/// other character stays as it is.
pub open spec fn ascii_lower(c: char) -> char {
    if 'A' <= c && c <= 'Z' {
        ((c as u32) + 32) as char
    } else {
        c
    }
}

/// ASCII lower-casing of a string.
pub open spec fn ascii_lowercase(s: Seq<char>) -> Seq<char> {
    s.map_values(|c: char| ascii_lower(c))
}

/// Whether two strings hold the same characters.
pub fn str_eq(a: &str, b: &str) -> (eq: bool)
    ensures
        eq == (a@ == b@),
{
    let n = a.unicode_len();
    if n != b.unicode_len() {
        return false;
    }
    let mut i: usize = 0;
    while i < n
        invariant
            n == a@.len(),
            n == b@.len(),
            i <= n,
            forall|j: int| 0 <= j < i ==> a@[j] == b@[j],
        decreases n - i,
    {
        if a.get_char(i) != b.get_char(i) {
            return false;
        }
        i = i + 1;
    }
    assert(a@ =~= b@);
    true
}

/// Whether `value`, lower-cased in ASCII, equals `lower`.
pub fn lowercase_eq(value: &str, lower: &str) -> (eq: bool)
    ensures
        eq == (ascii_lowercase(value@) == lower@),
{
    let n = value.unicode_len();
    if n != lower.unicode_len() {
        assert(ascii_lowercase(value@).len() != lower@.len());
        return false;
    }
    let mut i: usize = 0;
    while i < n
        invariant
            n == value@.len(),
            n == lower@.len(),
            i <= n,
            forall|j: int| 0 <= j < i ==> ascii_lower(value@[j]) == lower@[j],
        decreases n - i,
    {
        let c = value.get_char(i);
        let l = if 'A' <= c && c <= 'Z' {
            ((c as u8) + 32) as char
        } else {
            c
        };
        assert(l == ascii_lower(c));
        if l != lower.get_char(i) {
            assert(ascii_lowercase(value@)[i as int] != lower@[i as int]);
            return false;
        }
        i = i + 1;
    }
    assert(ascii_lowercase(value@) =~= lower@);
    true
}

} // verus!
