//! A response as the rule logic sees it: status, headers and body.
use vstd::prelude::*;
use vstd::utf8::{decode_utf8, encode_utf8, valid_utf8};
use crate::common::{HttpMessage, InvalidUtf8, body_text, content_type_is, has_content_type};
use crate::headers::Headers;
use crate::text::string_of;
use vstd::string::StringExecFns;

verus! {

/// A response for processing and logging.
#[derive(Debug)]
pub struct ResponseInfo {
    pub status_code: u16,
    pub headers: Headers,
    pub body: Vec<u8>,
    pub content_length: Option<u64>,
    pub content_type: Option<String>,
}

/// The value stored under `name`, if any.
pub open spec fn header_value(headers: Map<Seq<char>, Seq<char>>, name: Seq<char>) -> Option<Seq<char>> {
    if headers.dom().contains(name) {
        Some(headers[name])
    } else {
        None
    }
}

/// An optional string by its text.
pub open spec fn opt_text(o: Option<String>) -> Option<Seq<char>> {
    match o {
        Some(s) => Some(s@),
        None => None,
    }
}

impl ResponseInfo {
    /// A response with the given parts; its length is the body's, its content type the
    /// `content-type` header's.
    pub fn new(status_code: u16, headers: Headers, body: Vec<u8>) -> (r: Self)
        ensures
            r.status_code == status_code,
            r.headers@ == headers@,
            r.body@ == body@,
            r.content_length == Some(body@.len() as u64),
            opt_text(r.content_type) == header_value(headers@, "content-type"@),
    {
        let content_length = Some(body.len() as u64);
        let content_type = match headers.get("content-type") {
            Some(ct) => Some(ct.clone()),
            None => None,
        };
        ResponseInfo { status_code, headers, body, content_length, content_type }
    }

    /// A plain-text response whose body is `message`.
    pub fn error_response(status_code: u16, message: &str) -> (r: Self)
        ensures
            r.status_code == status_code,
            r.headers@ == Map::<Seq<char>, Seq<char>>::empty().insert("content-type"@, "text/plain"@),
            r.body@ == encode_utf8(message@),
            r.content_length == Some(encode_utf8(message@).len() as u64),
            opt_text(r.content_type) == Some("text/plain"@),
    {
        let mut headers = Headers::new();
        headers.insert(string_of("content-type"), string_of("text/plain"));
        let body = message.as_bytes_vec();
        let content_length = Some(body.len() as u64);
        ResponseInfo {
            status_code,
            headers,
            body,
            content_length,
            content_type: Some(string_of("text/plain")),
        }
    }

    /// A JSON response whose body is the given serialized document.
    pub fn json_response(status_code: u16, body: Vec<u8>) -> (r: Self)
        ensures
            r.status_code == status_code,
            r.headers@ == Map::<Seq<char>, Seq<char>>::empty().insert("content-type"@, "application/json"@),
            r.body@ == body@,
            r.content_length == Some(body@.len() as u64),
            opt_text(r.content_type) == Some("application/json"@),
    {
        let mut headers = Headers::new();
        headers.insert(string_of("content-type"), string_of("application/json"));
        let content_length = Some(body.len() as u64);
        ResponseInfo {
            status_code,
            headers,
            body,
            content_length,
            content_type: Some(string_of("application/json")),
        }
    }

    /// A redirect to `location`, with status 302 unless another is given, and an empty body.
    pub fn redirect_response(location: &str, status_code: Option<u16>) -> (r: Self)
        ensures
            r.status_code == match status_code {
                Some(s) => s,
                None => 302u16,
            },
            r.headers@ == Map::<Seq<char>, Seq<char>>::empty().insert("location"@, location@),
            r.body@.len() == 0,
            r.content_length == Some(0u64),
            r.content_type is None,
    {
        let mut headers = Headers::new();
        headers.insert(string_of("location"), string_of(location));
        let status = match status_code {
            Some(s) => s,
            None => 302,
        };
        ResponseInfo {
            status_code: status,
            headers,
            body: Vec::new(),
            content_length: Some(0),
            content_type: None,
        }
    }

    /// The body as text, when it is valid UTF-8.
    pub fn body_as_string(&self) -> (r: Result<String, InvalidUtf8>)
        ensures
            r is Ok <==> valid_utf8(self.body@),
            r matches Ok(s) ==> s@ == decode_utf8(self.body@),
    {
        body_text(self.body.as_slice())
    }

    /// A 2xx status.
    pub fn is_success(&self) -> (r: bool)
        ensures
            r == (200 <= self.status_code < 300),
    {
        self.status_code >= 200 && self.status_code < 300
    }

    /// A 3xx status.
    pub fn is_redirect(&self) -> (r: bool)
        ensures
            r == (300 <= self.status_code < 400),
    {
        self.status_code >= 300 && self.status_code < 400
    }

    /// A 4xx status.
    pub fn is_client_error(&self) -> (r: bool)
        ensures
            r == (400 <= self.status_code < 500),
    {
        self.status_code >= 400 && self.status_code < 500
    }

    /// A 5xx status.
    pub fn is_server_error(&self) -> (r: bool)
        ensures
            r == (500 <= self.status_code < 600),
    {
        self.status_code >= 500 && self.status_code < 600
    }

    /// The size of the body in bytes.
    pub fn body_size(&self) -> (r: usize)
        ensures
            r == self.body@.len(),
    {
        self.body.len()
    }

    /// Whether the body is empty.
    pub fn is_body_empty(&self) -> (r: bool)
        ensures
            r == (self.body@.len() == 0),
    {
        self.body.len() == 0
    }

    /// The value of the header `name`.
    pub fn get_header(&self, name: &str) -> (r: Option<&String>)
        ensures
            opt_text(match r {
                Some(v) => Some(*v),
                None => None,
            }) == header_value(self.headers@, name@),
    {
        self.headers.get(name)
    }

    /// Whether the content type is JSON.
    pub fn is_json(&self) -> (r: bool)
        ensures
            r == content_type_is(self.headers@, "application/json"@),
    {
        has_content_type(&self.headers, "application/json")
    }

    /// Whether the content type is HTML.
    pub fn is_html(&self) -> (r: bool)
        ensures
            r == content_type_is(self.headers@, "text/html"@),
    {
        has_content_type(&self.headers, "text/html")
    }

    /// Whether the content type is plain text.
    pub fn is_text(&self) -> (r: bool)
        ensures
            r == content_type_is(self.headers@, "text/plain"@),
    {
        has_content_type(&self.headers, "text/plain")
    }
}

impl Default for ResponseInfo {
    fn default() -> (r: Self)
        ensures
            r.status_code == 200,
            r.headers@ == Map::<Seq<char>, Seq<char>>::empty(),
            r.body@.len() == 0,
            r.content_length == Some(0u64),
            r.content_type is None,
    {
        ResponseInfo {
            status_code: 200,
            headers: Headers::new(),
            body: Vec::new(),
            content_length: Some(0),
            content_type: None,
        }
    }
}

impl HttpMessage for ResponseInfo {
    open spec fn message_headers(&self) -> Map<Seq<char>, Seq<char>> {
        self.headers@
    }

    open spec fn message_body(&self) -> Seq<u8> {
        self.body@
    }

    fn headers(&self) -> (r: &Headers) {
        &self.headers
    }

    fn body_data(&self) -> (r: &[u8]) {
        self.body.as_slice()
    }
}

} // verus!
