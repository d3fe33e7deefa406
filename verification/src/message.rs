//! Requests and responses as the pipeline sees them.

use crate::headers::header_entries;
use http::HeaderMap;
use http::HeaderValue;
use vstd::prelude::*;

verus! {

/// The status of a successful response.
pub const STATUS_OK: u16 = 200;

/// The status of a response that reports a new record.
pub const STATUS_CREATED: u16 = 201;

/// The status of a response to a body that could not be read.
pub const STATUS_BAD_REQUEST: u16 = 400;

/// The status of a response to a path that nothing answers.
pub const STATUS_NOT_FOUND: u16 = 404;

/// The status of a response to a known path asked with the wrong method.
pub const STATUS_METHOD_NOT_ALLOWED: u16 = 405;

/// The status of a response to a failure inside a handler.
pub const STATUS_INTERNAL_SERVER_ERROR: u16 = 500;

/// The method of a request.
#[derive(Clone, Copy, Debug, PartialEq, Eq, Structural)]
pub enum Method {
    Get,
    Head,
    Post,
    Put,
    Delete,
    Connect,
    Options,
    Trace,
    Patch,
    /// Any method that has no name here.
    Other,
}

/// One request: received once, then only its headers are added to.
pub struct Request {
    pub method: Method,
    pub path: String,
    pub headers: HeaderMap<HeaderValue>,
    pub body: Vec<u8>,
}

/// One response, open to change until it is sent.
pub struct Response {
    pub status: u16,
    pub headers: HeaderMap<HeaderValue>,
    pub body: Vec<u8>,
}

/// A request as plain values.
pub struct RequestView {
    pub method: Method,
    pub path: Seq<char>,
    pub headers: Map<Seq<char>, Seq<Seq<u8>>>,
    pub body: Seq<u8>,
}

/// A response as plain values.
pub struct ResponseView {
    pub status: u16,
    pub headers: Map<Seq<char>, Seq<Seq<u8>>>,
    pub body: Seq<u8>,
}

impl View for Request {
    type V = RequestView;

    open spec fn view(&self) -> RequestView {
        RequestView {
            method: self.method,
            path: self.path@,
            headers: header_entries(self.headers),
            body: self.body@,
        }
    }
}

impl View for Response {
    type V = ResponseView;

    open spec fn view(&self) -> ResponseView {
        ResponseView {
            status: self.status,
            headers: header_entries(self.headers),
            body: self.body@,
        }
    }
}

} // verus!
