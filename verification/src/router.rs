//! The router: from a parsed request to one of a fixed set of
//! response-producing behaviours, decided by the path alone, first match
//! wins. The method plays no part: both recognized methods are dispatched
//! identically, and a query string is part of the path literal.
use crate::bytes::{ascii, bytes_eq, lit_bytes, starts_with, starts_with_bytes, sub_vec};
use crate::request::{ReqModel, Request};
use vstd::prelude::*;
use vstd::slice::slice_to_vec;

verus! {

/// What one request calls for: the bare success probe, echoing part of the
/// path, reflecting a header, serving a file by relative name, or a
/// not-found reply.
#[derive(Debug, PartialEq, Eq)]
pub enum RouteOutcome {
    Root,
    Echo(Vec<u8>),
    UserAgent(Vec<u8>),
    FileServe(Vec<u8>),
    NotFound,
}

/// The mathematical shape of a dispatch outcome.
pub enum RouteModel {
    Root,
    Echo(Seq<u8>),
    UserAgent(Seq<u8>),
    FileServe(Seq<u8>),
    NotFound,
}

impl View for RouteOutcome {
    type V = RouteModel;

    open spec fn view(&self) -> RouteModel {
        match self {
            RouteOutcome::Root => RouteModel::Root,
            RouteOutcome::Echo(t) => RouteModel::Echo(t@),
            RouteOutcome::UserAgent(t) => RouteModel::UserAgent(t@),
            RouteOutcome::FileServe(t) => RouteModel::FileServe(t@),
            RouteOutcome::NotFound => RouteModel::NotFound,
        }
    }
}

/// The value of the first header pair whose name equals `name` byte for
/// byte, if any.
pub open spec fn spec_first_header(hs: Seq<(Seq<u8>, Seq<u8>)>, name: Seq<u8>) -> Option<Seq<u8>>
    decreases hs.len(),
{
    if hs.len() == 0 {
        None
    } else if hs[0].0 == name {
        Some(hs[0].1)
    } else {
        spec_first_header(hs.skip(1), name)
    }
}

/// The routing rules, in priority order, first match wins: the bare path
/// `/`; an `/echo/` prefix, echoing the rest of the path verbatim; a
/// `/files/` prefix, naming a file by the rest of the path verbatim; the
/// exact path `/user-agent`, reflecting the first `User-Agent` header or
/// the fixed placeholder `Unknown`; anything else is not found.
pub open spec fn spec_dispatch(req: ReqModel) -> RouteModel {
    if req.path == ascii("/"@) {
        RouteModel::Root
    } else if starts_with(req.path, ascii("/echo/"@)) {
        RouteModel::Echo(req.path.skip(ascii("/echo/"@).len() as int))
    } else if starts_with(req.path, ascii("/files/"@)) {
        RouteModel::FileServe(req.path.skip(ascii("/files/"@).len() as int))
    } else if req.path == ascii("/user-agent"@) {
        match spec_first_header(req.headers, ascii("User-Agent"@)) {
            Some(v) => RouteModel::UserAgent(v),
            None => RouteModel::UserAgent(ascii("Unknown"@)),
        }
    } else {
        RouteModel::NotFound
    }
}

/// Maps a request to its route, exactly as `spec_dispatch` describes.
pub fn dispatch(req: &Request) -> (r: RouteOutcome)
    ensures
        r@ == spec_dispatch(req@),
{
    proof {
        reveal_strlit("/");
        reveal_strlit("/echo/");
        reveal_strlit("/files/");
        reveal_strlit("/user-agent");
        reveal_strlit("User-Agent");
        reveal_strlit("Unknown");
    }
    let root_p = lit_bytes("/");
    if bytes_eq(req.path.as_slice(), root_p.as_slice()) {
        return RouteOutcome::Root;
    }
    let echo_p = lit_bytes("/echo/");
    if starts_with_bytes(req.path.as_slice(), echo_p.as_slice()) {
        let t = sub_vec(req.path.as_slice(), echo_p.len(), req.path.len());
        proof {
            assert(t@ =~= req@.path.skip(ascii("/echo/"@).len() as int));
        }
        return RouteOutcome::Echo(t);
    }
    let files_p = lit_bytes("/files/");
    if starts_with_bytes(req.path.as_slice(), files_p.as_slice()) {
        let t = sub_vec(req.path.as_slice(), files_p.len(), req.path.len());
        proof {
            assert(t@ =~= req@.path.skip(ascii("/files/"@).len() as int));
        }
        return RouteOutcome::FileServe(t);
    }
    let ua_p = lit_bytes("/user-agent");
    if bytes_eq(req.path.as_slice(), ua_p.as_slice()) {
        let name_p = lit_bytes("User-Agent");
        let n = req.headers.len();
        let mut found: Option<Vec<u8>> = None;
        proof {
            assert(req@.headers.skip(0) =~= req@.headers);
        }
        for i in 0..n
            invariant
                n == req.headers@.len(),
                name_p@ == ascii("User-Agent"@),
                (match found {
                    Some(v) => spec_first_header(req@.headers, name_p@) == Some(v@),
                    None => spec_first_header(req@.headers.skip(i as int), name_p@)
                        == spec_first_header(req@.headers, name_p@),
                }),
        {
            if found.is_none() {
                proof {
                    assert(req@.headers.skip(i as int)[0] == req@.headers[i as int]);
                    assert(req@.headers.skip(i as int).skip(1) =~= req@.headers.skip(i + 1));
                    assert(req@.headers[i as int] == (
                        req.headers@[i as int].0@,
                        req.headers@[i as int].1@,
                    ));
                }
                if bytes_eq(req.headers[i].0.as_slice(), name_p.as_slice()) {
                    found = Some(slice_to_vec(req.headers[i].1.as_slice()));
                }
            }
        }
        match found {
            Some(v) => {
                return RouteOutcome::UserAgent(v);
            },
            None => {
                proof {
                    assert(req@.headers.skip(n as int) =~= Seq::<(Seq<u8>, Seq<u8>)>::empty());
                }
                return RouteOutcome::UserAgent(lit_bytes("Unknown"));
            },
        }
    }
    RouteOutcome::NotFound
}

} // verus!
