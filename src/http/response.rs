use vstd::prelude::*;
use crate::http::headers::Headers;

verus! {

/// A response: status code, headers and body.
#[derive(Debug)]
pub struct Response {
    pub status: u16,
    pub headers: Headers,
    pub body: String,
}

impl Response {
    /// A response with `status`, no headers and an empty body.
    pub fn new(status: u16) -> (r: Response)
        ensures
            r.status == status,
            r.headers@.len() == 0,
            r.body@.len() == 0,
    {
        Response { status, headers: Headers::empty(), body: String::new() }
    }

    /// The status code.
    pub fn status(&self) -> (r: u16)
        ensures
            r == self.status,
    {
        self.status
    }

    /// The headers.
    pub fn headers(&self) -> (r: &Headers)
        ensures
            r@ == self.headers@,
    {
        &self.headers
    }

    /// The body.
    pub fn body(&self) -> (r: &str)
        ensures
            r@ == self.body@,
    {
        self.body.as_str()
    }
}

} // verus!
