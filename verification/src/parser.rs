//! The wire parser: from the raw bytes read off a connection to a structured
//! request plus the unconsumed remainder, or a parse failure.
//!
//! Parsing is streaming-style: a failure because a required delimiter has not
//! appeared yet (`Incomplete`) is kept apart from one where the input can
//! never be valid at that position (`Invalid`). The grammar is
//! `METHOD SP PATH SP VERSION CRLF` with the method matched case-insensitively
//! against the two literals `GET` and `POST` and with non-empty path and
//! version segments, followed by header lines `NAME: VALUE CRLF`; header
//! parsing ends as soon as no colon occurs in the remaining input, and
//! whatever is left is returned as the remainder.
use crate::bytes::{
    ascii, eq_nocase, find_byte, find_byte_spec, find_crlf, find_crlf_spec, lemma_find_byte,
    lemma_find_crlf, lit_bytes, lower, lower_byte, sub_vec,
};
use crate::request::{pair_views, ReqModel, Request};
use vstd::prelude::*;
use vstd::slice::{slice_subrange, slice_to_vec};

verus! {

/// Why a parse did not produce a request: the input stopped before a required
/// delimiter appeared, or it can never be valid at the failing position.
#[derive(Clone, Copy, Debug, PartialEq, Eq, Structural)]
pub enum ParseError {
    Incomplete,
    Invalid,
}

/// Matching a literal tag at the front of the input, up to ASCII case: the
/// consumed bytes and the rest on a match, `Incomplete` when the input runs
/// out while still agreeing with the tag, `Invalid` otherwise.
pub open spec fn spec_tag_nocase(s: Seq<u8>, t: Seq<u8>) -> Result<(Seq<u8>, Seq<u8>), ParseError> {
    if s.len() >= t.len() && eq_nocase(s.take(t.len() as int), t) {
        Ok((s.take(t.len() as int), s.skip(t.len() as int)))
    } else if s.len() < t.len() && eq_nocase(s, t.take(s.len() as int)) {
        Err(ParseError::Incomplete)
    } else {
        Err(ParseError::Invalid)
    }
}

/// The method alternative: try `GET` first, and fall through to `POST` only
/// on a definite mismatch, never on incomplete input.
pub open spec fn spec_method(s: Seq<u8>) -> Result<(Seq<u8>, Seq<u8>), ParseError> {
    match spec_tag_nocase(s, ascii("GET"@)) {
        Ok(r) => Ok(r),
        Err(ParseError::Incomplete) => Err(ParseError::Incomplete),
        Err(ParseError::Invalid) => spec_tag_nocase(s, ascii("POST"@)),
    }
}

/// Bytes up to (not including) the first `b`, with the delimiter itself also
/// consumed; `Incomplete` when `b` never occurs.
pub open spec fn spec_until_byte(s: Seq<u8>, b: u8) -> Result<(Seq<u8>, Seq<u8>), ParseError> {
    match find_byte_spec(s, b) {
        None => Err(ParseError::Incomplete),
        Some(i) => Ok((s.take(i), s.skip(i + 1))),
    }
}

/// Bytes up to (not including) the first CR LF pair, with the pair itself
/// also consumed; `Incomplete` when no such pair occurs.
pub open spec fn spec_until_crlf(s: Seq<u8>) -> Result<(Seq<u8>, Seq<u8>), ParseError> {
    match find_crlf_spec(s) {
        None => Err(ParseError::Incomplete),
        Some(i) => Ok((s.take(i), s.skip(i + 2))),
    }
}

/// The header section: zero or more `NAME: VALUE CRLF` lines, in input
/// order. The section ends as soon as no colon occurs in the remaining
/// input; the remaining bytes are the parse's remainder. A colon not
/// followed by one space, or a value line with no CRLF yet, fails the whole
/// parse.
pub open spec fn spec_parse_headers(s: Seq<u8>) -> Result<
    (Seq<(Seq<u8>, Seq<u8>)>, Seq<u8>),
    ParseError,
>
    decreases s.len(),
    via spec_parse_headers_dec
{
    match find_byte_spec(s, ':' as u8) {
        None => Ok((Seq::empty(), s)),
        Some(i) => {
            let name = s.take(i);
            let r1 = s.skip(i);
            if r1.len() < 2 {
                Err(ParseError::Incomplete)
            } else if r1[1] != ' ' as u8 {
                Err(ParseError::Invalid)
            } else {
                match spec_until_crlf(r1.skip(2)) {
                    Err(e) => Err(e),
                    Ok((value, r2)) => match spec_parse_headers(r2) {
                        Err(e) => Err(e),
                        Ok((hs, rest)) => Ok((seq![(name, value)] + hs, rest)),
                    },
                }
            }
        },
    }
}

#[via_fn]
proof fn spec_parse_headers_dec(s: Seq<u8>) {
    lemma_find_byte(s, ':' as u8);
    if let Some(i) = find_byte_spec(s, ':' as u8) {
        let r1 = s.skip(i);
        if r1.len() >= 2 {
            lemma_find_crlf(r1.skip(2));
        }
    }
}

/// The whole request: method, one space, path up to the next space, version
/// up to CRLF, then the header section. An empty path or an empty version
/// segment can never be valid, so each fails the parse outright: every
/// request produced has a non-empty method, path and version. The result
/// pairs the request's model with the unconsumed remainder.
pub open spec fn spec_parse_request(s: Seq<u8>) -> Result<(ReqModel, Seq<u8>), ParseError> {
    match spec_method(s) {
        Err(e) => Err(e),
        Ok((method, r1)) => {
            if r1.len() == 0 {
                Err(ParseError::Incomplete)
            } else if r1[0] != ' ' as u8 {
                Err(ParseError::Invalid)
            } else {
                match spec_until_byte(r1.skip(1), ' ' as u8) {
                    Err(e) => Err(e),
                    Ok((path, r2)) => {
                        if path.len() == 0 {
                            Err(ParseError::Invalid)
                        } else {
                            match spec_until_crlf(r2) {
                                Err(e) => Err(e),
                                Ok((version, r3)) => {
                                    if version.len() == 0 {
                                        Err(ParseError::Invalid)
                                    } else {
                                        match spec_parse_headers(r3) {
                                            Err(e) => Err(e),
                                            Ok((headers, rest)) => Ok(
                                                (
                                                    ReqModel { method, path, version, headers },
                                                    rest,
                                                ),
                                            ),
                                        }
                                    }
                                },
                            }
                        }
                    },
                }
            }
        },
    }
}

/// Matches `t` at the front of `s` up to ASCII case and returns how many
/// bytes it consumed, exactly as `spec_tag_nocase` describes.
fn tag_nocase(s: &[u8], t: &[u8]) -> (r: Result<usize, ParseError>)
    ensures
        match r {
            Ok(n) => n == t@.len() && spec_tag_nocase(s@, t@) == Ok::<
                (Seq<u8>, Seq<u8>),
                ParseError,
            >((s@.take(n as int), s@.skip(n as int))),
            Err(e) => spec_tag_nocase(s@, t@) == Err::<(Seq<u8>, Seq<u8>), ParseError>(e),
        },
{
    let n = if s.len() < t.len() {
        s.len()
    } else {
        t.len()
    };
    for i in 0..n
        invariant
            n <= s@.len() && n <= t@.len() && (n == s@.len() || n == t@.len()),
            forall|j: int| 0 <= j < i ==> lower(s@[j]) == lower(t@[j]),
    {
        if lower_byte(s[i]) != lower_byte(t[i]) {
            proof {
                if s@.len() >= t@.len() {
                    assert(s@.take(t@.len() as int)[i as int] == s@[i as int]);
                    assert(!eq_nocase(s@.take(t@.len() as int), t@));
                } else {
                    assert(t@.take(s@.len() as int)[i as int] == t@[i as int]);
                    assert(!eq_nocase(s@, t@.take(s@.len() as int)));
                }
            }
            return Err(ParseError::Invalid);
        }
    }
    if s.len() >= t.len() {
        proof {
            assert forall|j: int| 0 <= j < t@.len() implies lower(
                s@.take(t@.len() as int)[j],
            ) == lower(t@[j]) by {
                assert(s@.take(t@.len() as int)[j] == s@[j]);
            }
            assert(eq_nocase(s@.take(t@.len() as int), t@));
        }
        Ok(t.len())
    } else {
        proof {
            assert forall|j: int| 0 <= j < s@.len() implies lower(s@[j]) == lower(
                t@.take(s@.len() as int)[j],
            ) by {
                assert(t@.take(s@.len() as int)[j] == t@[j]);
            }
            assert(eq_nocase(s@, t@.take(s@.len() as int)));
        }
        Err(ParseError::Incomplete)
    }
}

/// Parses the header section of `input` exactly as `spec_parse_headers`
/// describes, returning the pairs in input order and the remainder.
pub fn parse_headers(input: &[u8]) -> (r: Result<
    (Vec<(Vec<u8>, Vec<u8>)>, Vec<u8>),
    ParseError,
>)
    ensures
        match (r, spec_parse_headers(input@)) {
            (Ok(p), Ok(q)) => pair_views(p.0@) == q.0 && p.1@ == q.1,
            (Err(e1), Err(e2)) => e1 == e2,
            _ => false,
        },
{
    let mut rest: &[u8] = input;
    let mut hs: Vec<(Vec<u8>, Vec<u8>)> = Vec::new();
    loop
        invariant
            (match spec_parse_headers(rest@) {
                Ok(q) => spec_parse_headers(input@) == Ok::<
                    (Seq<(Seq<u8>, Seq<u8>)>, Seq<u8>),
                    ParseError,
                >((pair_views(hs@) + q.0, q.1)),
                Err(e) => spec_parse_headers(input@) == Err::<
                    (Seq<(Seq<u8>, Seq<u8>)>, Seq<u8>),
                    ParseError,
                >(e),
            }),
        decreases rest@.len(),
    {
        match find_byte(rest, ':' as u8) {
            None => {
                proof {
                    assert(pair_views(hs@) + Seq::<(Seq<u8>, Seq<u8>)>::empty() =~= pair_views(
                        hs@,
                    ));
                }
                return Ok((hs, slice_to_vec(rest)));
            },
            Some(i) => {
                proof {
                    assert(rest@.skip(i as int).len() == rest@.len() - i);
                }
                if rest.len() - i < 2 {
                    return Err(ParseError::Incomplete);
                }
                proof {
                    assert(rest@.skip(i as int)[1] == rest@[i + 1]);
                }
                if rest[i + 1] != ' ' as u8 {
                    return Err(ParseError::Invalid);
                }
                let tail = slice_subrange(rest, i + 2, rest.len());
                proof {
                    assert(tail@ =~= rest@.skip(i as int).skip(2));
                }
                match find_crlf(tail) {
                    None => {
                        return Err(ParseError::Incomplete);
                    },
                    Some(j) => {
                        let name = sub_vec(rest, 0, i);
                        let value = sub_vec(rest, i + 2, i + 2 + j);
                        let new_rest = slice_subrange(rest, i + 2 + j + 2, rest.len());
                        let ghost prev = rest@;
                        let ghost prev_hs = hs@;
                        proof {
                            assert(name@ =~= prev.take(i as int));
                            assert(value@ =~= tail@.take(j as int));
                            assert(new_rest@ =~= tail@.skip(j + 2));
                            assert(spec_until_crlf(tail@) == Ok::<(Seq<u8>, Seq<u8>), ParseError>(
                                (value@, new_rest@),
                            ));
                        }
                        hs.push((name, value));
                        rest = new_rest;
                        proof {
                            assert(pair_views(prev_hs.push((name, value))) =~= pair_views(prev_hs)
                                + seq![(name@, value@)]);
                            if let Ok((tl, rem)) = spec_parse_headers(rest@) {
                                assert(spec_parse_headers(prev) == Ok::<
                                    (Seq<(Seq<u8>, Seq<u8>)>, Seq<u8>),
                                    ParseError,
                                >((seq![(name@, value@)] + tl, rem)));
                                assert(pair_views(prev_hs) + (seq![(name@, value@)] + tl)
                                    =~= pair_views(hs@) + tl);
                            }
                        }
                    },
                }
            },
        }
    }
}

/// Parses one request from `input` exactly as `spec_parse_request`
/// describes: the structured request and the unconsumed remainder on
/// success, and the streaming-style failure kind otherwise. A request that
/// comes back carries a recognized method.
pub fn parse_request(input: &[u8]) -> (r: Result<(Request, Vec<u8>), ParseError>)
    ensures
        match (r, spec_parse_request(input@)) {
            (Ok(p), Ok(q)) => p.0@ == q.0 && p.1@ == q.1,
            (Err(e1), Err(e2)) => e1 == e2,
            _ => false,
        },
        r matches Ok(p) ==> p.0@.wf(),
{
    proof {
        reveal_strlit("GET");
        reveal_strlit("POST");
    }
    let get_t = lit_bytes("GET");
    let post_t = lit_bytes("POST");
    let mlen: usize = match tag_nocase(input, get_t.as_slice()) {
        Ok(n) => n,
        Err(ParseError::Incomplete) => {
            return Err(ParseError::Incomplete);
        },
        Err(ParseError::Invalid) => {
            match tag_nocase(input, post_t.as_slice()) {
                Ok(n) => n,
                Err(e) => {
                    return Err(e);
                },
            }
        },
    };
    let ghost r1 = input@.skip(mlen as int);
    if mlen == input.len() {
        return Err(ParseError::Incomplete);
    }
    proof {
        assert(r1[0] == input@[mlen as int]);
    }
    if input[mlen] != ' ' as u8 {
        return Err(ParseError::Invalid);
    }
    let pos: usize = mlen + 1;
    let ghost r2 = input@.skip(pos as int);
    proof {
        assert(r2 =~= r1.skip(1));
    }
    let sp = slice_subrange(input, pos, input.len());
    proof {
        assert(sp@ =~= r2);
    }
    let path_end: usize = match find_byte(sp, ' ' as u8) {
        None => {
            return Err(ParseError::Incomplete);
        },
        Some(i) => i,
    };
    if path_end == 0 {
        return Err(ParseError::Invalid);
    }
    let path = sub_vec(input, pos, pos + path_end);
    proof {
        assert(path@ =~= r2.take(path_end as int));
    }
    let pos2: usize = pos + path_end + 1;
    let ghost r3 = input@.skip(pos2 as int);
    proof {
        assert(r3 =~= r2.skip(path_end + 1));
    }
    let sp2 = slice_subrange(input, pos2, input.len());
    proof {
        assert(sp2@ =~= r3);
    }
    let ver_end: usize = match find_crlf(sp2) {
        None => {
            return Err(ParseError::Incomplete);
        },
        Some(j) => j,
    };
    if ver_end == 0 {
        return Err(ParseError::Invalid);
    }
    let version = sub_vec(input, pos2, pos2 + ver_end);
    proof {
        assert(version@ =~= r3.take(ver_end as int));
    }
    let pos3: usize = pos2 + ver_end + 2;
    let ghost r4 = input@.skip(pos3 as int);
    proof {
        assert(r4 =~= r3.skip(ver_end + 2));
    }
    let sp3 = slice_subrange(input, pos3, input.len());
    proof {
        assert(sp3@ =~= r4);
    }
    match parse_headers(sp3) {
        Err(e) => Err(e),
        Ok((headers, remainder)) => {
            let method = sub_vec(input, 0, mlen);
            proof {
                assert(method@ =~= input@.take(mlen as int));
            }
            let req = Request { method, path, version, headers };
            proof {
                if let Ok(q) = spec_parse_request(input@) {
                    assert(req@.headers =~= q.0.headers);
                }
            }
            Ok((req, remainder))
        },
    }
}

} // verus!
