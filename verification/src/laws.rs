//! The crate-level guarantees that tie the parser, the router and the
//! response writer together, stated over the same spec functions that the
//! executable functions' contracts use.
use crate::bytes::{ascii, eq_nocase, starts_with};
use crate::parser::{spec_parse_request, ParseError};
use crate::request::ReqModel;
use crate::response::{digits_val, lemma_dec_digits, spec_content_response, spec_dec};
use crate::router::{spec_dispatch, RouteModel};
use vstd::prelude::*;

verus! {

/// Every full reply carries its body verbatim as its final bytes, whatever
/// the content type — a served file's contents come back exactly — and the
/// rendered `Content-Length` denotes exactly the body's byte length.
pub proof fn lemma_response_body_exact(ctype: Seq<u8>, body: Seq<u8>)
    ensures
        ({
            let r = spec_content_response(ctype, body);
            r.len() >= body.len() && r.skip(r.len() - body.len()) == body
        }),
        digits_val(spec_dec(body.len())) == body.len(),
{
    lemma_dec_digits(body.len());
    let r = spec_content_response(ctype, body);
    assert(r.skip(r.len() - body.len()) =~= body);
}

/// Echoing is verbatim: a request whose path is `/echo/` followed by `s`
/// dispatches to echoing exactly `s`; the reply's body — its final bytes —
/// is `s` itself, byte for byte, and the rendered `Content-Length` denotes
/// exactly the byte length of `s`.
pub proof fn lemma_echo_body_exact(req: ReqModel, s: Seq<u8>)
    requires
        req.path == ascii("/echo/"@) + s,
    ensures
        spec_dispatch(req) == RouteModel::Echo(s),
        ({
            let r = spec_content_response(ascii("text/plain"@), s);
            r.len() >= s.len() && r.skip(r.len() - s.len()) == s
        }),
        digits_val(spec_dec(s.len())) == s.len(),
{
    reveal_strlit("/");
    reveal_strlit("/echo/");
    assert(req.path.take(ascii("/echo/"@).len() as int) =~= ascii("/echo/"@));
    assert(req.path.skip(ascii("/echo/"@).len() as int) =~= s);
    lemma_response_body_exact(ascii("text/plain"@), s);
}

/// Dispatch reads the path and the headers alone: two requests that agree
/// on both — whatever their methods or versions — dispatch identically, so
/// the two recognized methods are routed the same way everywhere.
pub proof fn lemma_dispatch_ignores_method(a: ReqModel, b: ReqModel)
    requires
        a.path == b.path,
        a.headers == b.headers,
    ensures
        spec_dispatch(a) == spec_dispatch(b),
{
}

/// A path matched by none of the routing rules is dispatched to the
/// not-found reply.
pub proof fn lemma_unmatched_path_not_found(req: ReqModel)
    requires
        req.path != ascii("/"@),
        !starts_with(req.path, ascii("/echo/"@)),
        !starts_with(req.path, ascii("/files/"@)),
        req.path != ascii("/user-agent"@),
    ensures
        spec_dispatch(req) == RouteModel::NotFound,
{
}

/// Input whose first bytes spell out neither recognized method, even up to
/// ASCII case, fails the parse outright rather than as incomplete.
pub proof fn lemma_unknown_method_rejected(s: Seq<u8>)
    requires
        s.len() >= 4,
        !eq_nocase(s.take(3), ascii("GET"@)),
        !eq_nocase(s.take(4), ascii("POST"@)),
    ensures
        spec_parse_request(s) == Err::<(ReqModel, Seq<u8>), ParseError>(ParseError::Invalid),
{
    reveal_strlit("GET");
    reveal_strlit("POST");
}

/// Parsing is a function of the bytes alone: two successful parses of the
/// same input are structurally identical, request and remainder both.
pub proof fn lemma_parse_idempotent(
    s: Seq<u8>,
    a: ReqModel,
    ra: Seq<u8>,
    b: ReqModel,
    rb: Seq<u8>,
)
    requires
        spec_parse_request(s) == Ok::<(ReqModel, Seq<u8>), ParseError>((a, ra)),
        spec_parse_request(s) == Ok::<(ReqModel, Seq<u8>), ParseError>((b, rb)),
    ensures
        a == b,
        ra == rb,
{
}

/// Every request a successful parse produces is well formed: its method,
/// path and version are non-empty, and the method bytes read, up to ASCII
/// case, as one of the two recognized literals.
pub proof fn lemma_parsed_request_well_formed(s: Seq<u8>, q: ReqModel, rest: Seq<u8>)
    requires
        spec_parse_request(s) == Ok::<(ReqModel, Seq<u8>), ParseError>((q, rest)),
    ensures
        q.wf(),
{
    reveal_strlit("GET");
    reveal_strlit("POST");
}

} // verus!
