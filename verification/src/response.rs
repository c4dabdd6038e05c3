//! The response writer: the exact bytes of each reply. A reply is either a
//! bare status line pair (success probe, not found) or a `200 OK` with a
//! `Content-Type` header, a `Content-Length` header holding the body's byte
//! length in decimal, a blank line, and the body verbatim.
use crate::bytes::{ascii, lit_bytes};
use vstd::arithmetic::div_mod::lemma_fundamental_div_mod;
use vstd::prelude::*;
use vstd::slice::slice_to_vec;

verus! {

/// The decimal digits of `n`, most significant first, no sign, no leading
/// zero except for `n == 0` itself.
pub open spec fn spec_dec(n: nat) -> Seq<u8>
    decreases n,
{
    if n < 10 {
        seq![(48 + n) as u8]
    } else {
        spec_dec(n / 10).push((48 + n % 10) as u8)
    }
}

/// The number a digit string denotes in base ten, reading `48 + d` as the
/// digit `d`.
pub open spec fn digits_val(s: Seq<u8>) -> int
    decreases s.len(),
{
    if s.len() == 0 {
        0
    } else {
        digits_val(s.drop_last()) * 10 + (s.last() - 48)
    }
}

/// `spec_dec` really is the decimal notation of `n`: it denotes `n`, it is
/// never empty, every byte is an ASCII digit, and a positive number never
/// starts with a zero.
pub proof fn lemma_dec_digits(n: nat)
    ensures
        digits_val(spec_dec(n)) == n,
        spec_dec(n).len() >= 1,
        forall|i: int| 0 <= i < spec_dec(n).len() ==> 48 <= #[trigger] spec_dec(n)[i] <= 57,
        n >= 1 ==> spec_dec(n)[0] != 48,
    decreases n,
{
    if n < 10 {
        let s = spec_dec(n);
        assert(s =~= seq![(48 + n) as u8]);
        assert(s.drop_last() =~= Seq::<u8>::empty());
        assert(s.last() == (48 + n) as u8);
        assert(digits_val(s) == digits_val(s.drop_last()) * 10 + (s.last() - 48));
        assert(digits_val(s.drop_last()) == 0);
    } else {
        lemma_dec_digits(n / 10);
        lemma_fundamental_div_mod(n as int, 10);
        let s = spec_dec(n);
        assert(s == spec_dec(n / 10).push((48 + n % 10) as u8));
        assert(s.drop_last() =~= spec_dec(n / 10));
        assert(s.last() == (48 + n % 10) as u8);
        assert(digits_val(s) == digits_val(s.drop_last()) * 10 + (s.last() - 48));
        assert(digits_val(s) == (n / 10) * 10 + (n % 10));
        assert(s[0] == spec_dec(n / 10)[0]);
    }
}

/// Renders `n` in decimal, exactly as `spec_dec` describes.
pub fn dec_of(n: usize) -> (r: Vec<u8>)
    ensures
        r@ == spec_dec(n as nat),
    decreases n,
{
    if n < 10 {
        let mut r: Vec<u8> = Vec::new();
        r.push(48 + (n as u8));
        proof {
            assert(r@ =~= spec_dec(n as nat));
        }
        r
    } else {
        let mut r = dec_of(n / 10);
        r.push(48 + ((n % 10) as u8));
        proof {
            assert(r@ =~= spec_dec(n as nat));
        }
        r
    }
}

/// The status-line-only success reply: `200 OK`, no headers, no body.
pub open spec fn spec_ok_response() -> Seq<u8> {
    ascii("HTTP/1.1 200 OK\r\n\r\n"@)
}

/// The status-line-only not-found reply: `404 Not Found`, no headers, no
/// body.
pub open spec fn spec_not_found_response() -> Seq<u8> {
    ascii("HTTP/1.1 404 Not Found\r\n\r\n"@)
}

/// A full `200 OK` reply: status line, `Content-Type`, `Content-Length`
/// holding the body's byte length in decimal, a blank line, then the body
/// verbatim.
pub open spec fn spec_content_response(ctype: Seq<u8>, body: Seq<u8>) -> Seq<u8> {
    ascii("HTTP/1.1 200 OK\r\n"@) + ascii("Content-Type: "@) + ctype + ascii("\r\n"@) + ascii(
        "Content-Length: "@,
    ) + spec_dec(body.len()) + ascii("\r\n\r\n"@) + body
}

/// Appends all of `src` to `dst`.
fn push_all(dst: &mut Vec<u8>, src: &[u8])
    ensures
        final(dst)@ == old(dst)@ + src@,
{
    let mut v = slice_to_vec(src);
    dst.append(&mut v);
}

/// The bytes of the success probe's reply.
pub fn ok_response() -> (r: Vec<u8>)
    ensures
        r@ == spec_ok_response(),
{
    proof {
        reveal_strlit("HTTP/1.1 200 OK\r\n\r\n");
    }
    lit_bytes("HTTP/1.1 200 OK\r\n\r\n")
}

/// The bytes of the not-found reply.
pub fn not_found_response() -> (r: Vec<u8>)
    ensures
        r@ == spec_not_found_response(),
{
    proof {
        reveal_strlit("HTTP/1.1 404 Not Found\r\n\r\n");
    }
    lit_bytes("HTTP/1.1 404 Not Found\r\n\r\n")
}

/// Lays out a full reply around `body` with the given content type, exactly
/// as `spec_content_response` describes.
pub fn content_response(ctype: &[u8], body: &[u8]) -> (r: Vec<u8>)
    ensures
        r@ == spec_content_response(ctype@, body@),
{
    proof {
        reveal_strlit("HTTP/1.1 200 OK\r\n");
        reveal_strlit("Content-Type: ");
        reveal_strlit("\r\n");
        reveal_strlit("Content-Length: ");
        reveal_strlit("\r\n\r\n");
    }
    let mut r = lit_bytes("HTTP/1.1 200 OK\r\n");
    let mut part = lit_bytes("Content-Type: ");
    r.append(&mut part);
    push_all(&mut r, ctype);
    let mut crlf = lit_bytes("\r\n");
    r.append(&mut crlf);
    let mut cl = lit_bytes("Content-Length: ");
    r.append(&mut cl);
    let mut num = dec_of(body.len());
    r.append(&mut num);
    let mut blank = lit_bytes("\r\n\r\n");
    r.append(&mut blank);
    push_all(&mut r, body);
    proof {
        assert(r@ =~= spec_content_response(ctype@, body@));
    }
    r
}

/// A `text/plain` reply around `body`.
pub fn text_response(body: &[u8]) -> (r: Vec<u8>)
    ensures
        r@ == spec_content_response(ascii("text/plain"@), body@),
{
    proof {
        reveal_strlit("text/plain");
    }
    let ct = lit_bytes("text/plain");
    content_response(ct.as_slice(), body)
}

/// An `application/octet-stream` reply around a served file's contents.
pub fn file_response(contents: &[u8]) -> (r: Vec<u8>)
    ensures
        r@ == spec_content_response(ascii("application/octet-stream"@), contents@),
{
    proof {
        reveal_strlit("application/octet-stream");
    }
    let ct = lit_bytes("application/octet-stream");
    content_response(ct.as_slice(), contents)
}

} // verus!
