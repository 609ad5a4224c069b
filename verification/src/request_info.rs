//! What the rule logic knows of an intercepted request.
use vstd::prelude::*;
use crate::headers::Headers;

verus! {

/// An intercepted request: its URL, method, host, headers and body.
#[derive(Debug)]
pub struct RequestInfo {
    pub url: String,
    pub method: String,
    pub host: String,
    pub headers: Headers,
    pub body: Vec<u8>,
}

} // verus!
