//! Saved API debug requests: the stored entry, its create and update requests, the list
//! settings, and the outcome of executing a request.
use vstd::prelude::*;
use vstd::utf8::{decode_utf8, encode_utf8, valid_utf8};
use vstd::string::StringExecFns;
use crate::common::body_text;
use crate::common::{header_map_entries, header_table_with_fallback, table_with_fallback};
use crate::headers::{distinct_names, entries_map};
use crate::json::{JsonModel, JsonValue, text_members, text_object};
use crate::text::{clone_opt_string, int_decimal, push_signed_decimal, push_str, string_of};

verus! {

/// The current time in whole seconds since the Unix epoch, read from the system clock
/// (`SystemTime::now().duration_since(UNIX_EPOCH)`); `None` when the clock reads a time
/// before the epoch (or too far after it for an `i64`). Nothing is claimed of which time
/// comes.
#[verifier::external_body]
fn current_timestamp() -> (r: Option<i64>)
    ensures
        r matches Some(t) ==> t >= 0,
{
    match std::time::SystemTime::now().duration_since(std::time::UNIX_EPOCH) {
        Ok(elapsed) => i64::try_from(elapsed.as_secs()).ok(),
        Err(_) => None,
    }
}

/// The stamp for a clock reading: the reading, or 0 (the epoch) when the clock could not be
/// read.
pub open spec fn stamp_of(reading: Option<i64>) -> i64 {
    match reading {
        Some(t) => t,
        None => 0,
    }
}

/// The stamp for a clock reading: the reading, or 0 (the epoch) when there is none.
pub fn stamp(reading: Option<i64>) -> (r: i64)
    ensures
        r == stamp_of(reading),
{
    match reading {
        Some(t) => t,
        None => 0,
    }
}

/// The time to stamp an entry with: the current time in seconds since the Unix epoch, or 0
/// when the system clock reads a time before the epoch.
fn now_stamp() -> (r: i64)
    ensures
        r >= 0,
{
    let reading = current_timestamp();
    stamp(reading)
}

/// The HTTP method of a saved request.
#[derive(Debug, Clone, Copy, PartialEq, Eq, Structural)]
pub enum HttpMethod {
    Get,
    Post,
    Put,
    Delete,
    Patch,
    Head,
    Options,
}

impl Default for HttpMethod {
    fn default() -> (r: Self)
        ensures
            r == HttpMethod::Get,
    {
        HttpMethod::Get
    }
}

/// Where a saved request stands.
#[derive(Debug, Clone, Copy, PartialEq, Eq, Structural)]
pub enum RequestStatus {
    Pending,
    Success,
    Failed,
    Timeout,
}

impl Default for RequestStatus {
    fn default() -> (r: Self)
        ensures
            r == RequestStatus::Pending,
    {
        RequestStatus::Pending
    }
}

/// A saved API debug request with its last result.
#[derive(Debug)]
pub struct Model {
    pub id: i32,
    pub name: String,
    pub method: HttpMethod,
    pub url: String,
    pub headers: Option<JsonValue>,
    pub body: Option<Vec<u8>>,
    pub content_type: Option<String>,
    /// Timeout in seconds.
    pub timeout: Option<i32>,
    pub status: RequestStatus,
    pub response_status: Option<i32>,
    pub response_headers: Option<JsonValue>,
    pub response_body: Option<Vec<u8>>,
    /// Response time in milliseconds.
    pub response_time: Option<i32>,
    pub error_message: Option<String>,
    pub created_at: i64,
    pub updated_at: i64,
}

/// The text of a body that is valid UTF-8.
pub open spec fn utf8_text(body: Option<Vec<u8>>) -> Option<Seq<char>> {
    match body {
        Some(b) => if valid_utf8(b@) {
            Some(decode_utf8(b@))
        } else {
            None
        },
        None => None,
    }
}

/// An optional string by its text.
pub open spec fn opt_chars(o: Option<String>) -> Option<Seq<char>> {
    match o {
        Some(s) => Some(s@),
        None => None,
    }
}

/// An optional byte vector by its bytes.
pub open spec fn opt_bytes(o: Option<Vec<u8>>) -> Option<Seq<u8>> {
    match o {
        Some(b) => Some(b@),
        None => None,
    }
}

/// An optional JSON value by its model.
pub open spec fn opt_json(o: Option<JsonValue>) -> Option<crate::json::JsonModel> {
    match o {
        Some(v) => Some(v@),
        None => None,
    }
}

/// The text of a body that is valid UTF-8.
fn text_of(body: &Option<Vec<u8>>) -> (r: Option<String>)
    ensures
        opt_chars(r) == utf8_text(*body),
{
    match body {
        Some(bytes) => match body_text(bytes.as_slice()) {
            Ok(s) => Some(s),
            Err(_) => None,
        },
        None => None,
    }
}

impl Model {
    /// A new pending request with a 30 second timeout, stamped with the current time (0 when
    /// the system clock reads a time before the epoch).
    pub fn new_request(name: String, method: HttpMethod, url: String) -> (r: Self)
        ensures
            r.id == 0,
            r.name@ == name@,
            r.method == method,
            r.url@ == url@,
            r.headers is None,
            r.body is None,
            r.content_type is None,
            r.timeout == Some(30i32),
            r.status == RequestStatus::Pending,
            r.response_status is None,
            r.response_headers is None,
            r.response_body is None,
            r.response_time is None,
            r.error_message is None,
            r.created_at == r.updated_at,
            r.created_at >= 0,
    {
        let now = now_stamp();
        Model {
            id: 0,
            name,
            method,
            url,
            headers: None,
            body: None,
            content_type: None,
            timeout: Some(30),
            status: RequestStatus::Pending,
            response_status: None,
            response_headers: None,
            response_body: None,
            response_time: None,
            error_message: None,
            created_at: now,
            updated_at: now,
        }
    }

    /// The request succeeded.
    pub fn is_success(&self) -> (r: bool)
        ensures
            r == (self.status == RequestStatus::Success),
    {
        match self.status {
            RequestStatus::Success => true,
            _ => false,
        }
    }

    /// The request failed or timed out.
    pub fn is_failed(&self) -> (r: bool)
        ensures
            r == (self.status == RequestStatus::Failed || self.status == RequestStatus::Timeout),
    {
        match self.status {
            RequestStatus::Failed | RequestStatus::Timeout => true,
            _ => false,
        }
    }

    /// The response status as text, `N/A` when there is none.
    pub fn response_status_text(&self) -> (r: String)
        ensures
            r@ == match self.response_status {
                Some(code) => int_decimal(code as int),
                None => "N/A"@,
            },
    {
        match self.response_status {
            Some(code) => {
                let mut s = String::new();
                push_signed_decimal(&mut s, code as i64);
                assert(s@ =~= int_decimal(code as int));
                s
            },
            None => string_of("N/A"),
        }
    }

    /// The response time as `<n>ms`, `N/A` when there is none.
    pub fn formatted_response_time(&self) -> (r: String)
        ensures
            r@ == match self.response_time {
                Some(t) => int_decimal(t as int) + "ms"@,
                None => "N/A"@,
            },
    {
        match self.response_time {
            Some(t) => {
                let mut s = String::new();
                push_signed_decimal(&mut s, t as i64);
                push_str(&mut s, "ms");
                s
            },
            None => string_of("N/A"),
        }
    }

    /// Stores the request body as the UTF-8 bytes of `body`.
    pub fn set_body_from_string(&mut self, body: String)
        ensures
            opt_bytes(final(self).body) == Some(encode_utf8(body@)),
            *final(self) == (Model { body: final(self).body, ..*old(self) }),
    {
        self.body = Some(body.as_str().as_bytes_vec());
    }

    /// The request body as text, when there is one and it is valid UTF-8.
    pub fn get_body_as_string(&self) -> (r: Option<String>)
        ensures
            opt_chars(r) == utf8_text(self.body),
    {
        text_of(&self.body)
    }

    /// Stores the request body.
    pub fn set_body_from_bytes(&mut self, body: Vec<u8>)
        ensures
            opt_bytes(final(self).body) == Some(body@),
            *final(self) == (Model { body: final(self).body, ..*old(self) }),
    {
        self.body = Some(body);
    }

    /// The request body's bytes.
    pub fn get_body_as_bytes(&self) -> (r: Option<&[u8]>)
        ensures
            match r {
                Some(b) => opt_bytes(self.body) == Some(b@),
                None => self.body is None,
            },
    {
        match &self.body {
            Some(b) => Some(b.as_slice()),
            None => None,
        }
    }

    /// Stores the response body as the UTF-8 bytes of `body`.
    pub fn set_response_body_from_string(&mut self, body: String)
        ensures
            opt_bytes(final(self).response_body) == Some(encode_utf8(body@)),
            *final(self) == (Model { response_body: final(self).response_body, ..*old(self) }),
    {
        self.response_body = Some(body.as_str().as_bytes_vec());
    }

    /// The response body as text, when there is one and it is valid UTF-8.
    pub fn get_response_body_as_string(&self) -> (r: Option<String>)
        ensures
            opt_chars(r) == utf8_text(self.response_body),
    {
        text_of(&self.response_body)
    }

    /// Stores the response body.
    pub fn set_response_body_from_bytes(&mut self, body: Vec<u8>)
        ensures
            opt_bytes(final(self).response_body) == Some(body@),
            *final(self) == (Model { response_body: final(self).response_body, ..*old(self) }),
    {
        self.response_body = Some(body);
    }

    /// The response body's bytes.
    pub fn get_response_body_as_bytes(&self) -> (r: Option<&[u8]>)
        ensures
            match r {
                Some(b) => opt_bytes(self.response_body) == Some(b@),
                None => self.response_body is None,
            },
    {
        match &self.response_body {
            Some(b) => Some(b.as_slice()),
            None => None,
        }
    }

    /// The request body is present and valid UTF-8.
    pub fn is_body_text(&self) -> (r: bool)
        ensures
            r == (utf8_text(self.body) is Some),
    {
        self.get_body_as_string().is_some()
    }

    /// The response body is present and valid UTF-8.
    pub fn is_response_body_text(&self) -> (r: bool)
        ensures
            r == (utf8_text(self.response_body) is Some),
    {
        self.get_response_body_as_string().is_some()
    }
}

/// A request to save a new debug entry.
#[derive(Debug)]
pub struct CreateApiDebugRequest {
    pub name: String,
    pub method: HttpMethod,
    pub url: String,
    pub headers: Option<JsonValue>,
    pub body: Option<String>,
    pub content_type: Option<String>,
    pub timeout: Option<i32>,
}

/// A request to change a saved entry: each field that is present replaces the stored one.
#[derive(Debug)]
pub struct UpdateApiDebugRequest {
    pub name: Option<String>,
    pub method: Option<HttpMethod>,
    pub url: Option<String>,
    pub headers: Option<JsonValue>,
    pub body: Option<String>,
    pub content_type: Option<String>,
    pub timeout: Option<i32>,
    pub status: Option<RequestStatus>,
    pub response_status: Option<i32>,
    pub response_headers: Option<JsonValue>,
    pub response_body: Option<String>,
    pub response_time: Option<i32>,
    pub error_message: Option<String>,
}

/// A saved entry as the API shows it, with its bodies as text.
#[derive(Debug)]
pub struct ApiDebugResponse {
    pub id: i32,
    pub name: String,
    pub method: HttpMethod,
    pub url: String,
    pub headers: Option<JsonValue>,
    pub body: Option<String>,
    pub content_type: Option<String>,
    pub timeout: Option<i32>,
    pub status: RequestStatus,
    pub response_status: Option<i32>,
    pub response_headers: Option<JsonValue>,
    pub response_body: Option<String>,
    pub response_time: Option<i32>,
    pub error_message: Option<String>,
    pub created_at: i64,
    pub updated_at: i64,
}

/// The UTF-8 bytes of an optional text.
pub open spec fn opt_utf8(o: Option<String>) -> Option<Seq<u8>> {
    match o {
        Some(s) => Some(encode_utf8(s@)),
        None => None,
    }
}

fn utf8_bytes(o: Option<String>) -> (r: Option<Vec<u8>>)
    ensures
        opt_bytes(r) == opt_utf8(o),
{
    match o {
        Some(s) => Some(s.as_str().as_bytes_vec()),
        None => None,
    }
}

impl ApiDebugResponse {
    /// The API form of a saved entry: the same fields, with each body as text when it is
    /// valid UTF-8.
    pub fn from(model: Model) -> (r: Self)
        ensures
            r.id == model.id,
            r.name == model.name,
            r.method == model.method,
            r.url == model.url,
            r.headers == model.headers,
            opt_chars(r.body) == utf8_text(model.body),
            r.content_type == model.content_type,
            r.timeout == model.timeout,
            r.status == model.status,
            r.response_status == model.response_status,
            r.response_headers == model.response_headers,
            opt_chars(r.response_body) == utf8_text(model.response_body),
            r.response_time == model.response_time,
            r.error_message == model.error_message,
            r.created_at == model.created_at,
            r.updated_at == model.updated_at,
    {
        let body = text_of(&model.body);
        let response_body = text_of(&model.response_body);
        ApiDebugResponse {
            id: model.id,
            name: model.name,
            method: model.method,
            url: model.url,
            headers: model.headers,
            body,
            content_type: model.content_type,
            timeout: model.timeout,
            status: model.status,
            response_status: model.response_status,
            response_headers: model.response_headers,
            response_body,
            response_time: model.response_time,
            error_message: model.error_message,
            created_at: model.created_at,
            updated_at: model.updated_at,
        }
    }
}

/// The new value when there is one, else the old one.
fn replace<T>(new: Option<T>, old: T) -> (r: T)
    ensures
        r == match new {
            Some(v) => v,
            None => old,
        },
{
    match new {
        Some(v) => v,
        None => old,
    }
}

/// The new value when there is one, else the old optional one.
fn replace_opt<T>(new: Option<T>, old: Option<T>) -> (r: Option<T>)
    ensures
        r == match new {
            Some(v) => Some(v),
            None => old,
        },
{
    match new {
        Some(v) => Some(v),
        None => old,
    }
}

/// The UTF-8 bytes of the new text when there is one, else the old body.
fn replace_body(new: Option<String>, old: Option<Vec<u8>>) -> (r: Option<Vec<u8>>)
    ensures
        opt_bytes(r) == match new {
            Some(v) => Some(encode_utf8(v@)),
            None => opt_bytes(old),
        },
{
    match new {
        Some(v) => Some(v.as_str().as_bytes_vec()),
        None => old,
    }
}

/// The stored entry is `old` with each field that the update carries replaced (bodies as
/// UTF-8 bytes) and `updated_at` renewed: a clock reading, or 0 when the clock reads a time
/// before the epoch.
pub open spec fn updated_by(old: Model, req: UpdateApiDebugRequest, new: Model) -> bool {
    &&& new.id == old.id
    &&& new.name == match req.name { Some(v) => v, None => old.name }
    &&& new.method == match req.method { Some(v) => v, None => old.method }
    &&& new.url == match req.url { Some(v) => v, None => old.url }
    &&& opt_json(new.headers) == match req.headers { Some(v) => Some(v@), None => opt_json(old.headers) }
    &&& opt_bytes(new.body) == match req.body { Some(v) => Some(encode_utf8(v@)), None => opt_bytes(old.body) }
    &&& new.content_type == match req.content_type { Some(v) => Some(v), None => old.content_type }
    &&& new.timeout == match req.timeout { Some(v) => Some(v), None => old.timeout }
    &&& new.status == match req.status { Some(v) => v, None => old.status }
    &&& new.response_status == match req.response_status { Some(v) => Some(v), None => old.response_status }
    &&& opt_json(new.response_headers) == match req.response_headers {
        Some(v) => Some(v@),
        None => opt_json(old.response_headers),
    }
    &&& opt_bytes(new.response_body) == match req.response_body {
        Some(v) => Some(encode_utf8(v@)),
        None => opt_bytes(old.response_body),
    }
    &&& new.response_time == match req.response_time { Some(v) => Some(v), None => old.response_time }
    &&& new.error_message == match req.error_message { Some(v) => Some(v), None => old.error_message }
    &&& new.created_at == old.created_at
    &&& new.updated_at >= 0
}

impl Model {
    /// A new pending entry from a create request (bodies as UTF-8 bytes), stamped with the
    /// current time (0 when the system clock reads a time before the epoch); the store gives
    /// it its id.
    pub fn from_create(req: CreateApiDebugRequest) -> (r: Self)
        ensures
            r.id == 0,
            r.name == req.name,
            r.method == req.method,
            r.url == req.url,
            r.headers == req.headers,
            opt_bytes(r.body) == opt_utf8(req.body),
            r.content_type == req.content_type,
            r.timeout == req.timeout,
            r.status == RequestStatus::Pending,
            r.response_status is None,
            r.response_headers is None,
            r.response_body is None,
            r.response_time is None,
            r.error_message is None,
            r.created_at == r.updated_at,
            r.created_at >= 0,
    {
        let now = now_stamp();
        Model {
            id: 0,
            name: req.name,
            method: req.method,
            url: req.url,
            headers: req.headers,
            body: utf8_bytes(req.body),
            content_type: req.content_type,
            timeout: req.timeout,
            status: RequestStatus::Pending,
            response_status: None,
            response_headers: None,
            response_body: None,
            response_time: None,
            error_message: None,
            created_at: now,
            updated_at: now,
        }
    }

    /// Applies an update: each field that the update carries replaces the stored one, and the
    /// entry is stamped with the current time (0 when the system clock reads a time before the
    /// epoch).
    pub fn apply_update(self, req: UpdateApiDebugRequest) -> (r: Self)
        ensures
            updated_by(self, req, r),
    {
        let now = now_stamp();
        Model {
            id: self.id,
            name: replace(req.name, self.name),
            method: replace(req.method, self.method),
            url: replace(req.url, self.url),
            headers: replace_opt(req.headers, self.headers),
            body: replace_body(req.body, self.body),
            content_type: replace_opt(req.content_type, self.content_type),
            timeout: replace_opt(req.timeout, self.timeout),
            status: replace(req.status, self.status),
            response_status: replace_opt(req.response_status, self.response_status),
            response_headers: replace_opt(req.response_headers, self.response_headers),
            response_body: replace_body(req.response_body, self.response_body),
            response_time: replace_opt(req.response_time, self.response_time),
            error_message: replace_opt(req.error_message, self.error_message),
            created_at: self.created_at,
            updated_at: now,
        }
    }
}

/// How a list of saved entries is asked for.
#[derive(Debug)]
pub struct ApiDebugQueryParams {
    pub page: Option<u64>,
    pub per_page: Option<u64>,
    pub method: Option<HttpMethod>,
    pub status: Option<RequestStatus>,
    pub search: Option<String>,
}

impl ApiDebugQueryParams {
    /// The page (1 by default) and the page size (20 by default, at most 100).
    pub fn pagination(&self) -> (r: (u64, u64))
        ensures
            r.0 == match self.page { Some(p) => p, None => 1 },
            r.1 == match self.per_page {
                Some(n) => if n < 100 { n } else { 100 },
                None => 20,
            },
    {
        let page = match self.page {
            Some(p) => p,
            None => 1,
        };
        let per_page = match self.per_page {
            Some(n) => if n < 100 { n } else { 100 },
            None => 20,
        };
        (page, per_page)
    }
}

/// The number of pages needed for `total` entries at `per_page` a page.
pub fn total_pages(total: u64, per_page: u64) -> (r: u64)
    requires
        per_page > 0,
        total + per_page - 1 <= u64::MAX,
    ensures
        r == (total + per_page - 1) / (per_page as int),
        r * per_page >= total,
        total == 0 || (r - 1) * per_page < total,
{
    let r = (total + (per_page - 1)) / per_page;
    assert(r * per_page >= total && (total == 0 || (r - 1) * per_page < total)) by (nonlinear_arith)
        requires
            r == (total + per_page - 1) / (per_page as int),
            per_page > 0,
    ;
    r
}

/// One page of saved entries.
#[derive(Debug)]
pub struct ApiDebugListResponse {
    pub data: Vec<ApiDebugResponse>,
    pub total: u64,
    pub page: u64,
    pub per_page: u64,
    pub total_pages: u64,
}

/// Counts of saved entries by status.
#[derive(Debug, Clone, Copy)]
pub struct ApiDebugStats {
    pub total: u64,
    pub success_count: u64,
    pub failed_count: u64,
    pub pending_count: u64,
}

/// A request to execute right away.
#[derive(Debug)]
pub struct ExecuteApiDebugRequest {
    pub name: String,
    pub method: HttpMethod,
    pub url: String,
    pub headers: Option<Vec<(String, String)>>,
    pub body: Option<String>,
    pub content_type: Option<String>,
    /// Timeout in seconds.
    pub timeout: Option<u64>,
}

/// What executing a request came to.
#[derive(Debug)]
pub struct ExecutionOutcome {
    pub status: RequestStatus,
    pub response_status: Option<i32>,
    pub response_body: Option<String>,
    pub error_message: Option<String>,
}

/// The JSON object of an optional list of named texts.
pub open spec fn opt_text_object(o: Option<Vec<(String, String)>>) -> Option<JsonModel> {
    match o {
        Some(pairs) => Some(JsonModel::Object(text_members(pairs@))),
        None => None,
    }
}

impl ExecuteApiDebugRequest {
    /// The entry to save before the request is sent: its name, method, URL, headers (as a JSON
    /// object of strings), body, content type and timeout (as an `i32`, wrapping).
    pub fn create_request(&self) -> (r: CreateApiDebugRequest)
        ensures
            r.name@ == self.name@,
            r.method == self.method,
            r.url@ == self.url@,
            opt_json(r.headers) == opt_text_object(self.headers),
            r.body == self.body,
            r.content_type == self.content_type,
            r.timeout == match self.timeout {
                Some(t) => Some(t as i32),
                None => None,
            },
    {
        let headers = match &self.headers {
            Some(pairs) => Some(text_object(pairs.as_slice())),
            None => None,
        };
        CreateApiDebugRequest {
            name: self.name.clone(),
            method: self.method,
            url: self.url.clone(),
            headers,
            body: clone_opt_string(&self.body),
            content_type: clone_opt_string(&self.content_type),
            timeout: match self.timeout {
                Some(t) => Some(t as i32),
                None => None,
            },
        }
    }

    /// The timeout in seconds: the one given, 30 by default.
    pub fn timeout_secs(&self) -> (r: u64)
        ensures
            r == match self.timeout { Some(t) => t, None => 30 },
    {
        match self.timeout {
            Some(t) => t,
            None => 30,
        }
    }
}

/// The outcome of a request that got a response: success for a 2xx status, else failure; a
/// body that could not be read is a failure with that error.
pub fn response_outcome(status_code: u16, body: Result<String, String>) -> (r: ExecutionOutcome)
    ensures
        r.response_status == Some(status_code as i32),
        match body {
            Ok(b) => {
                &&& r.status == if 200 <= status_code < 300 { RequestStatus::Success } else { RequestStatus::Failed }
                &&& r.response_body == Some(b)
                &&& r.error_message is None
            },
            Err(e) => {
                &&& r.status == RequestStatus::Failed
                &&& r.response_body is None
                &&& r.error_message == Some(e)
            },
        },
{
    match body {
        Ok(b) => ExecutionOutcome {
            status: if 200 <= status_code && status_code < 300 {
                RequestStatus::Success
            } else {
                RequestStatus::Failed
            },
            response_status: Some(status_code as i32),
            response_body: Some(b),
            error_message: None,
        },
        Err(e) => ExecutionOutcome {
            status: RequestStatus::Failed,
            response_status: Some(status_code as i32),
            response_body: None,
            error_message: Some(e),
        },
    }
}

/// The outcome of a request that got no response: a failure with the error.
pub fn send_failure_outcome(error: String) -> (r: ExecutionOutcome)
    ensures
        r.status == RequestStatus::Failed,
        r.response_status is None,
        r.response_body is None,
        r.error_message == Some(error),
{
    ExecutionOutcome { status: RequestStatus::Failed, response_status: None, response_body: None, error_message: Some(error) }
}

/// The response headers to record: a JSON object with one string member per header name,
/// the last of its values in the order the map walks them, as text, or the empty string where
/// that value is not text.
pub fn response_headers_json(header_map: &http::HeaderMap) -> (r: JsonValue)
    ensures
        exists|pairs: Seq<(String, String)>|
            distinct_names(pairs) && entries_map(pairs) == table_with_fallback(header_map_entries(*header_map), ""@)
                && r@ == JsonModel::Object(text_members(pairs)),
{
    let table = header_table_with_fallback(header_map, "");
    let pairs = table.entries();
    text_object(pairs.as_slice())
}

/// The update that records an outcome and its response time (response headers as given).
pub fn outcome_update(outcome: ExecutionOutcome, response_headers: Option<JsonValue>, response_time: i32) -> (r: UpdateApiDebugRequest)
    ensures
        r.name is None && r.method is None && r.url is None && r.headers is None && r.body is None,
        r.content_type is None && r.timeout is None,
        r.status == Some(outcome.status),
        r.response_status == outcome.response_status,
        r.response_headers == response_headers,
        r.response_body == outcome.response_body,
        r.response_time == Some(response_time),
        r.error_message == outcome.error_message,
{
    UpdateApiDebugRequest {
        name: None,
        method: None,
        url: None,
        headers: None,
        body: None,
        content_type: None,
        timeout: None,
        status: Some(outcome.status),
        response_status: outcome.response_status,
        response_headers,
        response_body: outcome.response_body,
        response_time: Some(response_time),
        error_message: outcome.error_message,
    }
}

/// Whether traffic is being recorded.
#[derive(Debug, Clone, Copy, PartialEq, Eq, Structural)]
pub enum RecordingStatus {
    StartRecording,
    PauseRecording,
}

impl Default for RecordingStatus {
    fn default() -> (r: Self)
        ensures
            r == RecordingStatus::StartRecording,
    {
        RecordingStatus::StartRecording
    }
}

/// The capture switch setting.
#[derive(Debug, Clone, Copy, PartialEq, Eq, Structural)]
pub struct CaptureSwitch {
    pub recording_status: RecordingStatus,
}

impl Default for CaptureSwitch {
    fn default() -> (r: Self)
        ensures
            r.recording_status == RecordingStatus::StartRecording,
    {
        CaptureSwitch { recording_status: RecordingStatus::StartRecording }
    }
}

/// The stored name of a recording status.
pub open spec fn recording_status_name(s: RecordingStatus) -> Seq<char> {
    match s {
        RecordingStatus::StartRecording => "startRecording"@,
        RecordingStatus::PauseRecording => "pauseRecording"@,
    }
}

/// The stored form of the switch: `{"recordingStatus": <name>}`.
pub open spec fn switch_json(c: CaptureSwitch) -> crate::json::JsonModel {
    crate::json::JsonModel::Object(
        seq![("recordingStatus"@, crate::json::JsonModel::Str(recording_status_name(c.recording_status)))],
    )
}

/// The switch a stored value describes: its `recordingStatus` member names a status.
pub open spec fn switch_of_json(v: crate::json::JsonModel) -> Option<CaptureSwitch> {
    match crate::json::json_get(v, "recordingStatus"@) {
        Some(crate::json::JsonModel::Str(name)) => if name == "startRecording"@ {
            Some(CaptureSwitch { recording_status: RecordingStatus::StartRecording })
        } else if name == "pauseRecording"@ {
            Some(CaptureSwitch { recording_status: RecordingStatus::PauseRecording })
        } else {
            None
        },
        _ => None,
    }
}

impl CaptureSwitch {
    /// The stored form of the switch.
    pub fn config_value(&self) -> (r: JsonValue)
        ensures
            r@ == switch_json(*self),
    {
        let name = match self.recording_status {
            RecordingStatus::StartRecording => "startRecording",
            RecordingStatus::PauseRecording => "pauseRecording",
        };
        let mut members: Vec<(String, JsonValue)> = Vec::new();
        members.push((string_of("recordingStatus"), JsonValue::String(string_of(name))));
        proof {
            crate::json::lemma_json_members_model(members@);
            assert(crate::json::json_members_model(members@) =~= seq![
                ("recordingStatus"@, crate::json::JsonModel::Str(recording_status_name(self.recording_status))),
            ]);
        }
        JsonValue::object(members)
    }

    /// The switch a stored value describes; `None` when its `recordingStatus` is missing or
    /// names no status.
    pub fn from_config_value(value: &JsonValue) -> (r: Option<CaptureSwitch>)
        ensures
            r == switch_of_json(value@),
    {
        match value.get("recordingStatus") {
            Some(JsonValue::String(name)) => if crate::text::str_eq(name.as_str(), "startRecording") {
                Some(CaptureSwitch { recording_status: RecordingStatus::StartRecording })
            } else if crate::text::str_eq(name.as_str(), "pauseRecording") {
                Some(CaptureSwitch { recording_status: RecordingStatus::PauseRecording })
            } else {
                None
            },
            _ => None,
        }
    }
}

/// Reading back the stored form of a switch gives the switch.
pub proof fn law_capture_switch_round_trip(c: CaptureSwitch)
    ensures
        switch_of_json(switch_json(c)) == Some(c),
{
    let members = seq![("recordingStatus"@, crate::json::JsonModel::Str(recording_status_name(c.recording_status)))];
    assert(crate::json::members_get(members, "recordingStatus"@) == Some(members[0].1));
    reveal_strlit("startRecording");
    reveal_strlit("pauseRecording");
    assert("startRecording"@[0] != "pauseRecording"@[0]);
}

/// The switch is stored as `{"recordingStatus": "startRecording"}` while recording and
/// `{"recordingStatus": "pauseRecording"}` while paused, and a stored value with one of those
/// two names reads back as that status; any other name reads as no switch.
pub proof fn law_capture_switch_names(c: CaptureSwitch, name: Seq<char>)
    ensures
        switch_json(c) == crate::json::JsonModel::Object(
            seq![(
                "recordingStatus"@,
                crate::json::JsonModel::Str(
                    if c.recording_status == RecordingStatus::StartRecording {
                        "startRecording"@
                    } else {
                        "pauseRecording"@
                    },
                ),
            )],
        ),
        switch_of_json(crate::json::JsonModel::Object(seq![("recordingStatus"@, crate::json::JsonModel::Str(name))]))
            == if name == "startRecording"@ {
            Some(CaptureSwitch { recording_status: RecordingStatus::StartRecording })
        } else if name == "pauseRecording"@ {
            Some(CaptureSwitch { recording_status: RecordingStatus::PauseRecording })
        } else {
            None::<CaptureSwitch>
        },
{
    let members = seq![("recordingStatus"@, crate::json::JsonModel::Str(name))];
    assert(crate::json::members_get(members, "recordingStatus"@) == Some(members[0].1));
}

} // verus!
