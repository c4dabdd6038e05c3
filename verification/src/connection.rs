//! The decisions of one connection's lifecycle: the bytes of a single read
//! go in, are interpreted as text by lossy decoding (invalid sequences
//! replaced, never an error), and either the exact reply to write comes out,
//! or the name of the file to serve, or the failure that ends the connection
//! without a reply. The surrounding I/O (the read itself, the write, the
//! file access) stays outside the crate and is driven by these results.
use crate::bytes::ascii;
use crate::parser::{parse_request, spec_parse_request, ParseError};
use crate::response::{
    not_found_response, ok_response, spec_content_response, spec_not_found_response,
    spec_ok_response, text_response,
};
use crate::router::{dispatch, spec_dispatch, RouteModel, RouteOutcome};
use vstd::prelude::*;
use vstd::string::StringExecFns;
use vstd::utf8::{encode_utf8, valid_utf8};

verus! {

/// The characters that lossy UTF-8 decoding makes of a byte sequence.
pub uninterp spec fn lossy_chars(b: Seq<u8>) -> Seq<char>;

/// Relies on String::from_utf8_lossy: the decoded text is a function of the
/// bytes alone, and bytes that already are valid UTF-8 come through
/// unchanged.
#[verifier::external_body]
fn utf8_lossy(b: &[u8]) -> (r: String)
    ensures
        r@ == lossy_chars(b@),
        valid_utf8(b@) ==> encode_utf8(r@) == b@,
{
    String::from_utf8_lossy(b).into_owned()
}

/// The bytes the parser sees for one read's bytes: the UTF-8 encoding of
/// their lossy decoding.
pub open spec fn decoded(b: Seq<u8>) -> Seq<u8> {
    encode_utf8(lossy_chars(b))
}

/// Why a connection ended without a well-formed reply: a failure of the
/// transport or of file access, or a failure to parse the request. Each
/// carries a descriptive string; there is no finer taxonomy.
#[derive(Debug, PartialEq, Eq)]
pub enum ConnectionError {
    IoError(String),
    ParsingError(String),
}

/// What the connection must do next after its request was handled: write
/// these reply bytes and close, or read the file with this relative name
/// and reply with its contents.
#[derive(Debug, PartialEq, Eq)]
pub enum Action {
    Respond(Vec<u8>),
    ServeFile(Vec<u8>),
}

/// The mathematical shape of an action.
pub enum ActionModel {
    Respond(Seq<u8>),
    ServeFile(Seq<u8>),
}

impl View for Action {
    type V = ActionModel;

    open spec fn view(&self) -> ActionModel {
        match self {
            Action::Respond(b) => ActionModel::Respond(b@),
            Action::ServeFile(n) => ActionModel::ServeFile(n@),
        }
    }
}

/// The descriptive string reported for each kind of parse failure.
pub open spec fn spec_parse_note(e: ParseError) -> Seq<char> {
    match e {
        ParseError::Incomplete => "incomplete request"@,
        ParseError::Invalid => "malformed request"@,
    }
}

/// What handling the bytes of one read comes to: the bytes are interpreted
/// as text by lossy decoding and parsed, then either the reply for the
/// routes that answer at once, the file name for the file-serving route, or
/// the parse failure's description.
pub open spec fn spec_handle(input: Seq<u8>) -> Result<ActionModel, Seq<char>> {
    match spec_parse_request(decoded(input)) {
        Err(e) => Err(spec_parse_note(e)),
        Ok((req, _rest)) => Ok(
            match spec_dispatch(req) {
                RouteModel::Root => ActionModel::Respond(spec_ok_response()),
                RouteModel::Echo(t) => ActionModel::Respond(
                    spec_content_response(ascii("text/plain"@), t),
                ),
                RouteModel::UserAgent(t) => ActionModel::Respond(
                    spec_content_response(ascii("text/plain"@), t),
                ),
                RouteModel::FileServe(name) => ActionModel::ServeFile(name),
                RouteModel::NotFound => ActionModel::Respond(spec_not_found_response()),
            },
        ),
    }
}

/// Decodes, parses and routes the bytes of one read, exactly as
/// `spec_handle` describes. Dispatch itself cannot fail: a parse failure is
/// the only error, and it comes back as `ParsingError` with the matching
/// description.
pub fn handle_request(input: &[u8]) -> (r: Result<Action, ConnectionError>)
    ensures
        match (r, spec_handle(input@)) {
            (Ok(a), Ok(m)) => a@ == m,
            (Err(ConnectionError::ParsingError(s)), Err(note)) => s@ == note,
            _ => false,
        },
{
    let text = utf8_lossy(input);
    let data: &[u8] = text.as_str().as_bytes();
    proof {
        assert(data@ == decoded(input@));
    }
    let parsed = match parse_request(data) {
        Err(ParseError::Incomplete) => {
            return Err(ConnectionError::ParsingError(String::from_str("incomplete request")));
        },
        Err(ParseError::Invalid) => {
            return Err(ConnectionError::ParsingError(String::from_str("malformed request")));
        },
        Ok(p) => p,
    };
    let req = parsed.0;
    match dispatch(&req) {
        RouteOutcome::Root => Ok(Action::Respond(ok_response())),
        RouteOutcome::Echo(t) => Ok(Action::Respond(text_response(t.as_slice()))),
        RouteOutcome::UserAgent(t) => Ok(Action::Respond(text_response(t.as_slice()))),
        RouteOutcome::FileServe(name) => Ok(Action::ServeFile(name)),
        RouteOutcome::NotFound => Ok(Action::Respond(not_found_response())),
    }
}

} // verus!
