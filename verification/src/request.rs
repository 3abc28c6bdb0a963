//! The transport-facing shape of an inbound request: method, path,
//! headers, body bytes, and the per-request extension store. The
//! surrounding server builds one of these per connection and hands it to
//! a pipeline.

use vstd::prelude::*;

use crate::assoc::StrAssoc;
use crate::ext::{ExtModel, Extensions};

verus! {

/// The HTTP request methods routing can key on.
#[derive(PartialEq, Eq, Structural, Clone, Copy, Debug, Hash)]
pub enum Method {
    Get,
    Post,
    Put,
    Delete,
    Head,
    Options,
    Trace,
    Connect,
    Patch,
}

/// A header table: each header name carries the list of values it was
/// sent with.
pub type Headers = StrAssoc<Vec<String>>;

/// One inbound request as the pipeline sees it.
pub struct Request {
    pub method: Method,
    pub path: String,
    pub headers: Headers,
    pub body: Vec<u8>,
    pub extensions: Extensions,
}

/// Ghost image of a `Request`.
#[verifier::ext_equal]
pub struct RequestModel {
    pub method: Method,
    pub path: Seq<char>,
    pub headers: Map<Seq<char>, Seq<Seq<char>>>,
    pub body: Seq<u8>,
    pub exts: Map<u64, ExtModel>,
}

impl View for Request {
    type V = RequestModel;

    open spec fn view(&self) -> RequestModel {
        RequestModel {
            method: self.method,
            path: self.path@,
            headers: self.headers@,
            body: self.body@,
            exts: self.extensions@,
        }
    }
}

impl Request {
    /// A request with the given line data and no headers, body or
    /// extensions yet.
    pub fn new(method: Method, path: String) -> (r: Request)
        ensures
            r@.method == method,
            r@.path == path@,
            r@.headers == Map::<Seq<char>, Seq<Seq<char>>>::empty(),
            r@.body == Seq::<u8>::empty(),
            r@.exts == Map::<u64, ExtModel>::empty(),
    {
        Request {
            method,
            path,
            headers: StrAssoc::new(),
            body: Vec::new(),
            extensions: Extensions::new(),
        }
    }
}

} // verus!
