//! Byte-level helpers shared by the parser, the router and the response
//! writer: ASCII literals as byte sequences, case folding for ASCII bytes,
//! and first-occurrence searches for a byte and for the CRLF pair.
use vstd::prelude::*;
use vstd::slice::{slice_subrange, slice_to_vec};

verus! {

/// The byte sequence of an ASCII character sequence, character by character.
pub open spec fn ascii(s: Seq<char>) -> Seq<u8> {
    Seq::new(s.len(), |i: int| s[i] as u8)
}

/// The bytes of an ASCII string slice, as a vector.
pub fn lit_bytes(s: &str) -> (r: Vec<u8>)
    requires
        s.is_ascii(),
    ensures
        r@ == ascii(s@),
{
    proof {
        broadcast use vstd::string::is_ascii_spec_bytes;

    }
    let r = s.as_bytes_vec();
    assert(r@ =~= ascii(s@));
    r
}

/// An ASCII upper-case letter folded to lower case; any other byte unchanged.
pub open spec fn lower(b: u8) -> u8 {
    if 'A' as u8 <= b && b <= 'Z' as u8 {
        (b + 32) as u8
    } else {
        b
    }
}

/// Executable ASCII case folding, matching `lower`.
pub fn lower_byte(b: u8) -> (r: u8)
    ensures
        r == lower(b),
{
    if b >= 'A' as u8 && b <= 'Z' as u8 {
        b + 32
    } else {
        b
    }
}

/// Byte-for-byte equality up to ASCII case.
pub open spec fn eq_nocase(a: Seq<u8>, b: Seq<u8>) -> bool {
    a.len() == b.len() && (forall|i: int| 0 <= i < a.len() ==> lower(a[i]) == lower(b[i]))
}

/// Index of the first occurrence of `b` in `s`, if any.
pub open spec fn find_byte_spec(s: Seq<u8>, b: u8) -> Option<int>
    decreases s.len(),
{
    if s.len() == 0 {
        None
    } else if s[0] == b {
        Some(0)
    } else {
        match find_byte_spec(s.skip(1), b) {
            None => None,
            Some(i) => Some(i + 1),
        }
    }
}

/// `find_byte_spec` returns the least index holding `b`, and `None` exactly
/// when `b` does not occur.
pub proof fn lemma_find_byte(s: Seq<u8>, b: u8)
    ensures
        match find_byte_spec(s, b) {
            Some(i) => 0 <= i < s.len() && s[i] == b && (forall|j: int|
                0 <= j < i ==> s[j] != b),
            None => forall|j: int| 0 <= j < s.len() ==> s[j] != b,
        },
    decreases s.len(),
{
    if s.len() > 0 && s[0] != b {
        lemma_find_byte(s.skip(1), b);
        assert forall|j: int| 1 <= j < s.len() implies #[trigger] s[j] == s.skip(1)[j - 1] by {
            assert(s.skip(1)[j - 1] == s[j]);
        }
    }
}

/// Index of the first occurrence of the pair CR LF in `s`, if any.
pub open spec fn find_crlf_spec(s: Seq<u8>) -> Option<int>
    decreases s.len(),
{
    if s.len() < 2 {
        None
    } else if s[0] == '\r' as u8 && s[1] == '\n' as u8 {
        Some(0)
    } else {
        match find_crlf_spec(s.skip(1)) {
            None => None,
            Some(i) => Some(i + 1),
        }
    }
}

/// `find_crlf_spec` returns the least index of a CR LF pair, and `None`
/// exactly when no such pair occurs.
pub proof fn lemma_find_crlf(s: Seq<u8>)
    ensures
        match find_crlf_spec(s) {
            Some(i) => 0 <= i && i + 1 < s.len() && s[i] == '\r' as u8 && s[i + 1] == '\n' as u8
                && (forall|j: int|
                0 <= j < i ==> !((#[trigger] s[j]) == '\r' as u8 && s[j + 1] == '\n' as u8)),
            None => forall|j: int|
                0 <= j && j + 1 < s.len() ==> !((#[trigger] s[j]) == '\r' as u8 && s[j + 1] == '\n' as u8),
        },
    decreases s.len(),
{
    if s.len() >= 2 && !(s[0] == '\r' as u8 && s[1] == '\n' as u8) {
        lemma_find_crlf(s.skip(1));
        assert forall|j: int| 1 <= j < s.len() implies #[trigger] s[j] == s.skip(1)[j - 1] by {
            assert(s.skip(1)[j - 1] == s[j]);
        }
    }
}

/// First occurrence of `b` in `s`, by a linear scan.
pub fn find_byte(s: &[u8], b: u8) -> (r: Option<usize>)
    ensures
        match r {
            Some(i) => find_byte_spec(s@, b) == Some(i as int) && i < s@.len() && s@[i as int]
                == b,
            None => find_byte_spec(s@, b) is None,
        },
{
    let n = s.len();
    for i in 0..n
        invariant
            n == s@.len(),
            forall|j: int| 0 <= j < i ==> s@[j] != b,
    {
        if s[i] == b {
            proof {
                lemma_find_byte(s@, b);
            }
            return Some(i);
        }
    }
    proof {
        lemma_find_byte(s@, b);
    }
    None
}

/// First occurrence of the pair CR LF in `s`, by a linear scan.
pub fn find_crlf(s: &[u8]) -> (r: Option<usize>)
    ensures
        match r {
            Some(i) => find_crlf_spec(s@) == Some(i as int) && i + 1 < s@.len() && s@[i as int]
                == '\r' as u8 && s@[i + 1] == '\n' as u8,
            None => find_crlf_spec(s@) is None,
        },
{
    let n = s.len();
    if n < 1 {
        proof {
            lemma_find_crlf(s@);
        }
        return None;
    }
    for i in 0..n - 1
        invariant
            n == s@.len(),
            n >= 1,
            forall|j: int| 0 <= j < i ==> !((#[trigger] s@[j]) == '\r' as u8 && s@[j + 1] == '\n' as u8),
    {
        if s[i] == '\r' as u8 && s[i + 1] == '\n' as u8 {
            proof {
                lemma_find_crlf(s@);
            }
            return Some(i);
        }
    }
    proof {
        lemma_find_crlf(s@);
    }
    None
}

/// The bytes of `s` from `i` up to (not including) `j`, as a vector.
pub fn sub_vec(s: &[u8], i: usize, j: usize) -> (r: Vec<u8>)
    requires
        i <= j <= s@.len(),
    ensures
        r@ == s@.subrange(i as int, j as int),
{
    slice_to_vec(slice_subrange(s, i, j))
}

/// `p` stands byte for byte at the front of `s`.
pub open spec fn starts_with(s: Seq<u8>, p: Seq<u8>) -> bool {
    s.len() >= p.len() && s.take(p.len() as int) == p
}

/// Whether `p` is an exact prefix of `s`.
pub fn starts_with_bytes(s: &[u8], p: &[u8]) -> (r: bool)
    ensures
        r <==> starts_with(s@, p@),
{
    if s.len() < p.len() {
        return false;
    }
    let n = p.len();
    for i in 0..n
        invariant
            n == p@.len() <= s@.len(),
            forall|j: int| 0 <= j < i ==> s@[j] == p@[j],
    {
        if s[i] != p[i] {
            proof {
                assert(s@.take(p@.len() as int)[i as int] == s@[i as int]);
            }
            return false;
        }
    }
    proof {
        assert(s@.take(p@.len() as int) =~= p@);
    }
    true
}

/// Exact byte equality of two slices.
pub fn bytes_eq(a: &[u8], b: &[u8]) -> (r: bool)
    ensures
        r <==> a@ == b@,
{
    if a.len() != b.len() {
        return false;
    }
    let n = a.len();
    for i in 0..n
        invariant
            n == a@.len() == b@.len(),
            forall|j: int| 0 <= j < i ==> a@[j] == b@[j],
    {
        if a[i] != b[i] {
            return false;
        }
    }
    proof {
        assert(a@ =~= b@);
    }
    true
}

} // verus!
