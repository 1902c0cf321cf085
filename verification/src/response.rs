//! The canonical response and the conversion into it.

use vstd::prelude::*;
use vstd::slice::slice_to_vec;
use vstd::utf8::encode_utf8;

verus! {

/// Status of a response converted from plain content.
pub const STATUS_OK: u16 = 200;

/// The one response type that every handler's result ends up as.
#[derive(Debug, PartialEq, Eq)]
pub struct Response {
    status: u16,
    body: Vec<u8>,
}

/// A response as a mathematical value.
pub ghost struct ResponseView {
    pub status: u16,
    pub body: Seq<u8>,
}

impl View for Response {
    type V = ResponseView;

    closed spec fn view(&self) -> ResponseView {
        ResponseView { status: self.status, body: self.body@ }
    }
}

impl Response {
    /// A response with the given status and body.
    pub fn new(status: u16, body: Vec<u8>) -> (response: Response)
        ensures
            response@ == (ResponseView { status, body: body@ }),
    {
        Response { status, body }
    }

    /// The status code.
    pub fn status(&self) -> (status: u16)
        ensures
            status == self@.status,
    {
        self.status
    }

    /// The bytes of the body.
    pub fn body(&self) -> (body: &Vec<u8>)
        ensures
            body@ == self@.body,
    {
        &self.body
    }
}

/// A value that a handler may resolve to: one that turns into a response.
///
/// The conversion is total and deterministic. A value that stands for a
/// failure turns into a response that reports it; nothing is raised.
pub trait IntoResponse: Send + Sized {
    /// The response that this value converts to.
    ///
    /// An implementation defines it. Written outside verified code, an
    /// implementation leaves it open, and nothing is then known of its
    /// responses.
    open spec fn converted(self) -> ResponseView {
        arbitrary()
    }

    /// Converts the value into its response.
    fn into_response(self) -> (response: Response)
        ensures
            response@ == self.converted(),
    ;
}

impl IntoResponse for Response {
    open spec fn converted(self) -> ResponseView {
        self@
    }

    fn into_response(self) -> (response: Response) {
        self
    }
}

impl IntoResponse for Vec<u8> {
    open spec fn converted(self) -> ResponseView {
        ResponseView { status: STATUS_OK, body: self@ }
    }

    fn into_response(self) -> (response: Response) {
        Response::new(STATUS_OK, self)
    }
}

impl IntoResponse for String {
    open spec fn converted(self) -> ResponseView {
        ResponseView { status: STATUS_OK, body: encode_utf8(self@) }
    }

    fn into_response(self) -> (response: Response) {
        let body = slice_to_vec(self.as_str().as_bytes());
        Response::new(STATUS_OK, body)
    }
}

impl<T: IntoResponse, E: IntoResponse> IntoResponse for Result<T, E> {
    open spec fn converted(self) -> ResponseView {
        match self {
            Ok(value) => value.converted(),
            Err(failure) => failure.converted(),
        }
    }

    fn into_response(self) -> (response: Response) {
        match self {
            Ok(value) => value.into_response(),
            Err(failure) => failure.into_response(),
        }
    }
}

} // verus!
