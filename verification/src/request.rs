//! The structured form of one HTTP request: a method, a raw path, a raw
//! protocol version, and the ordered list of header pairs, all as the exact
//! bytes that stood in the input.
use crate::bytes::{ascii, eq_nocase};
use vstd::prelude::*;

verus! {

/// A parsed request. The fields hold the input's own bytes: the path is not
/// percent-decoded, the version is not validated, and headers keep their
/// order and duplicates, with names compared byte for byte elsewhere.
#[derive(Debug, PartialEq, Eq)]
pub struct Request {
    pub method: Vec<u8>,
    pub path: Vec<u8>,
    pub version: Vec<u8>,
    pub headers: Vec<(Vec<u8>, Vec<u8>)>,
}

/// The mathematical shape of a request: each field as a byte sequence.
pub struct ReqModel {
    pub method: Seq<u8>,
    pub path: Seq<u8>,
    pub version: Seq<u8>,
    pub headers: Seq<(Seq<u8>, Seq<u8>)>,
}

/// The views of a list of header pairs, pair by pair.
pub open spec fn pair_views(s: Seq<(Vec<u8>, Vec<u8>)>) -> Seq<(Seq<u8>, Seq<u8>)> {
    s.map_values(|p: (Vec<u8>, Vec<u8>)| (p.0@, p.1@))
}

impl View for Request {
    type V = ReqModel;

    open spec fn view(&self) -> ReqModel {
        ReqModel {
            method: self.method@,
            path: self.path@,
            version: self.version@,
            headers: pair_views(self.headers@),
        }
    }
}

impl ReqModel {
    /// The invariant of every successfully parsed request: method, path and
    /// version are non-empty, and the method reads, up to ASCII case, as one
    /// of the two recognized literals.
    pub open spec fn wf(self) -> bool {
        &&& self.method.len() > 0
        &&& self.path.len() > 0
        &&& self.version.len() > 0
        &&& (eq_nocase(self.method, ascii("GET"@)) || eq_nocase(self.method, ascii("POST"@)))
    }
}

} // verus!
