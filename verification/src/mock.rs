//! The routes of the mock server used to exercise the proxy, and the parsing of its requests.
use vstd::prelude::*;
use crate::common::{header_get, header_map_entries, header_map_get, header_table_with_fallback, table_with_fallback};
use crate::headers::{distinct_names, entries_map};
use crate::json::{JsonModel, JsonValue, text_members, text_object};
use crate::text::{
    chars_find_from, decimal, index_from, parse_u64, parse_unsigned, push_decimal, str_eq, string_of,
    string_of_chars, to_chars,
};

verus! {

/// A route of the mock server.
#[derive(Debug, Clone, Copy, PartialEq, Eq, Structural)]
pub enum MockPath {
    Hello,
    Gzip,
    Echo,
    PushMsg,
    Websocket,
    Headers,
    Slow,
    Status,
    Json,
    PostEcho,
    Timeout,
    NotFound,
}

/// The URL path of a route (`/` for the fallback).
pub open spec fn mock_path_text(p: MockPath) -> Seq<char> {
    match p {
        MockPath::Hello => "/hello"@,
        MockPath::Gzip => "/gzip"@,
        MockPath::Echo => "/echo"@,
        MockPath::PushMsg => "/push_msg"@,
        MockPath::Websocket => "/ws"@,
        MockPath::Headers => "/headers"@,
        MockPath::Slow => "/slow"@,
        MockPath::Status => "/status"@,
        MockPath::Json => "/json"@,
        MockPath::PostEcho => "/post_echo"@,
        MockPath::Timeout => "/timeout"@,
        MockPath::NotFound => "/"@,
    }
}

/// The route for a URL path: the route whose path it is, else the fallback.
pub open spec fn mock_path_of(path: Seq<char>) -> MockPath {
    if path == "/hello"@ {
        MockPath::Hello
    } else if path == "/gzip"@ {
        MockPath::Gzip
    } else if path == "/echo"@ {
        MockPath::Echo
    } else if path == "/push_msg"@ {
        MockPath::PushMsg
    } else if path == "/ws"@ {
        MockPath::Websocket
    } else if path == "/headers"@ {
        MockPath::Headers
    } else if path == "/slow"@ {
        MockPath::Slow
    } else if path == "/status"@ {
        MockPath::Status
    } else if path == "/json"@ {
        MockPath::Json
    } else if path == "/post_echo"@ {
        MockPath::PostEcho
    } else if path == "/timeout"@ {
        MockPath::Timeout
    } else {
        MockPath::NotFound
    }
}

/// The route that serves a request: `/echo` for every method, `/post_echo` for POST, the
/// other routes for GET, and the fallback otherwise.
pub open spec fn mock_route(method: Seq<char>, p: MockPath) -> MockPath {
    if p == MockPath::Echo {
        MockPath::Echo
    } else if p == MockPath::PostEcho {
        if method == "POST"@ {
            MockPath::PostEcho
        } else {
            MockPath::NotFound
        }
    } else if method == "GET"@ {
        p
    } else {
        MockPath::NotFound
    }
}

impl<'a> From<&'a str> for MockPath {
    /// The route for a URL path.
    fn from(value: &'a str) -> (r: MockPath) {
        if str_eq(value, "/hello") {
            MockPath::Hello
        } else if str_eq(value, "/gzip") {
            MockPath::Gzip
        } else if str_eq(value, "/echo") {
            MockPath::Echo
        } else if str_eq(value, "/push_msg") {
            MockPath::PushMsg
        } else if str_eq(value, "/ws") {
            MockPath::Websocket
        } else if str_eq(value, "/headers") {
            MockPath::Headers
        } else if str_eq(value, "/slow") {
            MockPath::Slow
        } else if str_eq(value, "/status") {
            MockPath::Status
        } else if str_eq(value, "/json") {
            MockPath::Json
        } else if str_eq(value, "/post_echo") {
            MockPath::PostEcho
        } else if str_eq(value, "/timeout") {
            MockPath::Timeout
        } else {
            MockPath::NotFound
        }
    }
}

impl<'a> vstd::std_specs::convert::FromSpecImpl<&'a str> for MockPath {
    open spec fn obeys_from_spec() -> bool {
        true
    }

    open spec fn from_spec(value: &'a str) -> MockPath {
        mock_path_of(value@)
    }
}

impl MockPath {
    /// The URL path of the route.
    pub fn to_string(&self) -> (r: String)
        ensures
            r@ == mock_path_text(*self),
    {
        let s = match self {
            MockPath::Hello => "/hello",
            MockPath::Gzip => "/gzip",
            MockPath::Echo => "/echo",
            MockPath::PushMsg => "/push_msg",
            MockPath::Websocket => "/ws",
            MockPath::Headers => "/headers",
            MockPath::Slow => "/slow",
            MockPath::Status => "/status",
            MockPath::Json => "/json",
            MockPath::PostEcho => "/post_echo",
            MockPath::Timeout => "/timeout",
            MockPath::NotFound => "/",
        };
        string_of(s)
    }

    /// The route that serves a request with this method for this path.
    pub fn route(method: &str, path: MockPath) -> (r: MockPath)
        ensures
            r == mock_route(method@, path),
    {
        match path {
            MockPath::Echo => MockPath::Echo,
            MockPath::PostEcho => if str_eq(method, "POST") {
                MockPath::PostEcho
            } else {
                MockPath::NotFound
            },
            _ => if str_eq(method, "GET") {
                path
            } else {
                MockPath::NotFound
            },
        }
    }
}

/// The text of the `code` parameter of a query: after the first `code=`, up to the next `&`
/// or `code=`; `None` when the query has no `code=`.
pub open spec fn query_code_text(q: Seq<char>) -> Option<Seq<char>> {
    match index_from(q, "code="@, 0) {
        None => None,
        Some(i) => {
            let rest = q.skip(i + "code="@.len());
            let c = match index_from(rest, "code="@, 0) {
                Some(k) => k,
                None => rest.len() as int,
            };
            let a = match index_from(rest, "&"@, 0) {
                Some(k) => k,
                None => rest.len() as int,
            };
            Some(rest.take(if a < c { a } else { c }))
        },
    }
}

/// The code the `/status` route reports in its body (`Status: {code}`): the `code` parameter
/// when it parses as a `u16`, else 200. The status it answers with is `mock_status` of it.
pub open spec fn status_code_of_query(q: Seq<char>) -> u16 {
    match query_code_text(q) {
        Some(t) => match parse_unsigned(t, 65535) {
            Some(v) => v as u16,
            None => 200,
        },
        None => 200,
    }
}

/// The code the `/status` route reports in its body for a query string.
pub fn status_code_from_query(query: &str) -> (r: u16)
    ensures
        r == status_code_of_query(query@),
{
    let q = to_chars(query);
    let qlen = q.len();
    let key = to_chars("code=");
    let amp = to_chars("&");
    match chars_find_from(&q, &key, 0) {
        None => 200,
        Some(i) => {
            proof {
                crate::text::lemma_index_from(q@, key@, 0);
                assert(index_from(q@, key@, 0) == Some(i as int));
                assert(crate::text::occurs_at(q@, key@, i as int));
                assert(i + key@.len() <= q@.len());
            }
            let from = i + key.len();
            let rest_len = q.len() - from;
            let ghost rest = q@.skip(from as int);
            let rest_chars = string_of_chars(&q, from, q.len());
            let rc = to_chars(rest_chars.as_str());
            assert(rc@ =~= rest);
            let c = match chars_find_from(&rc, &key, 0) {
                Some(k) => k,
                None => rest_len,
            };
            let a = match chars_find_from(&rc, &amp, 0) {
                Some(k) => k,
                None => rest_len,
            };
            proof {
                crate::text::lemma_index_from(rest, "code="@, 0);
                crate::text::lemma_index_from(rest, "&"@, 0);
            }
            let end = if a < c {
                a
            } else {
                c
            };
            let text = string_of_chars(&rc, 0, end);
            assert(text@ =~= rest.take(end as int));
            match parse_u64(text.as_str()) {
                Some(v) => if v <= 65535 {
                    v as u16
                } else {
                    200
                },
                None => {
                    proof {
                        if parse_unsigned(text@, 65535) is Some {
                            assert(parse_unsigned(text@, u64::MAX as nat) is Some);
                        }
                    }
                    200
                },
            }
        },
    }
}

/// The status the `/status` route answers with for a reported code: the code itself when it
/// is a valid HTTP status (from 100 to 999), else 200 OK.
pub open spec fn mock_status_spec(code: u16) -> u16 {
    if 100 <= code <= 999 {
        code
    } else {
        200
    }
}

/// The status the `/status` route answers with for a reported code: the code itself when it
/// is a valid HTTP status (from 100 to 999), else 200 OK.
pub fn mock_status(code: u16) -> (r: u16)
    ensures
        r == mock_status_spec(code),
{
    if 100 <= code && code <= 999 {
        code
    } else {
        200
    }
}

/// The body of a mock server answer.
#[derive(Debug)]
pub enum MockBody {
    /// This text.
    Text(String),
    /// This JSON document.
    Json(JsonValue),
    /// The request's own body, sent back.
    RequestBody,
    /// "Hello, World!" gzip-compressed, as a stream.
    GzipHello,
    /// "push msg\n" ten times, one every 200 milliseconds.
    PushMessages,
    /// A JSON greeting with the current time in seconds since the epoch.
    JsonGreeting,
    /// No body.
    Empty,
}

/// How the mock server answers a request.
#[derive(Debug)]
pub enum MockReply {
    /// The websocket upgrade answers, and the connection then echoes each message.
    WebsocketUpgrade,
    /// An answer with this status, body and headers, after waiting `delay_secs` seconds.
    Answer {
        status: u16,
        body: MockBody,
        /// The `content-type` header, by its bytes.
        content_type: Option<Vec<u8>>,
        /// The `content-encoding` header.
        content_encoding: Option<String>,
        delay_secs: u64,
    },
}

/// The bytes of a text of ASCII characters.
pub open spec fn ascii_bytes(s: Seq<char>) -> Seq<u8> {
    s.map_values(|c: char| c as u8)
}

/// The reply is an answer with this status, no `content-encoding` header and no wait.
pub open spec fn plain_answer(r: MockReply, status: u16) -> bool {
    r matches MockReply::Answer { status: s, content_encoding: None, delay_secs: 0, .. } && s == status
}

/// The answer body is this text, with no content type, after `delay` seconds.
pub open spec fn text_answer(r: MockReply, text: Seq<char>, delay: u64) -> bool {
    &&& r matches MockReply::Answer { status: 200, content_type: None, content_encoding: None, body: MockBody::Text(t), delay_secs: d }
    &&& t@ == text
    &&& d == delay
}

/// The JSON document of the `/headers` route: `{"headers": {...}}` with one string member per
/// request header name.
pub open spec fn headers_document(pairs: Seq<(String, String)>) -> JsonModel {
    JsonModel::Object(seq![("headers"@, JsonModel::Object(text_members(pairs)))])
}

/// How the mock server answers on `route` (as `MockPath::route` gives it for the request's
/// method and path), for the request's query string and headers.
pub fn mock_reply(route: MockPath, query: &str, request_headers: &http::HeaderMap) -> (r: MockReply)
    ensures
        match route {
            MockPath::Hello => text_answer(r, "Hello, World!"@, 0),
            MockPath::Gzip => {
                &&& r matches MockReply::Answer {
                    status: 200,
                    body: MockBody::GzipHello,
                    content_type: None,
                    content_encoding: Some(e),
                    delay_secs: 0,
                }
                &&& e@ == "gzip"@
            },
            MockPath::Echo | MockPath::PostEcho => {
                &&& plain_answer(r, 200)
                &&& r matches MockReply::Answer { body: MockBody::RequestBody, content_type: ct, .. }
                &&& match ct {
                    Some(v) => header_map_get(*request_headers, "content-type"@) == Some(v@),
                    None => header_map_get(*request_headers, "content-type"@) is None,
                }
            },
            MockPath::PushMsg => {
                &&& plain_answer(r, 200)
                &&& r matches MockReply::Answer { body: MockBody::PushMessages, content_type: None, .. }
            },
            MockPath::Websocket => r is WebsocketUpgrade,
            MockPath::Headers => {
                &&& plain_answer(r, 200)
                &&& r matches MockReply::Answer { body: MockBody::Json(doc), content_type: Some(ct), .. }
                &&& ct@ == ascii_bytes("application/json"@)
                &&& exists|pairs: Seq<(String, String)>|
                    distinct_names(pairs) && entries_map(pairs) == table_with_fallback(
                        header_map_entries(*request_headers),
                        "invalid"@,
                    ) && doc@ == headers_document(pairs)
            },
            MockPath::Slow => text_answer(r, "Slow response"@, 3),
            MockPath::Status => {
                &&& plain_answer(r, mock_status_spec(status_code_of_query(query@)))
                &&& r matches MockReply::Answer { body: MockBody::Text(t), content_type: None, .. }
                &&& t@ == "Status: "@ + decimal(status_code_of_query(query@) as nat)
            },
            MockPath::Json => {
                &&& plain_answer(r, 200)
                &&& r matches MockReply::Answer { body: MockBody::JsonGreeting, content_type: Some(ct), .. }
                &&& ct@ == ascii_bytes("application/json"@)
            },
            MockPath::Timeout => text_answer(r, "This took a long time"@, 10),
            MockPath::NotFound => {
                &&& plain_answer(r, 404)
                &&& r matches MockReply::Answer { body: MockBody::Empty, content_type: None, .. }
            },
        },
{
    match route {
        MockPath::Hello => text_reply(string_of("Hello, World!"), 0),
        MockPath::Gzip => MockReply::Answer {
            status: 200,
            body: MockBody::GzipHello,
            content_type: None,
            content_encoding: Some(string_of("gzip")),
            delay_secs: 0,
        },
        MockPath::Echo | MockPath::PostEcho => MockReply::Answer {
            status: 200,
            body: MockBody::RequestBody,
            content_type: header_get(request_headers, "content-type"),
            content_encoding: None,
            delay_secs: 0,
        },
        MockPath::PushMsg => MockReply::Answer {
            status: 200,
            body: MockBody::PushMessages,
            content_type: None,
            content_encoding: None,
            delay_secs: 0,
        },
        MockPath::Websocket => MockReply::WebsocketUpgrade,
        MockPath::Headers => {
            let table = header_table_with_fallback(request_headers, "invalid");
            let pairs = table.entries();
            let inner = text_object(pairs.as_slice());
            let ghost inner_model = inner@;
            let mut members: Vec<(String, JsonValue)> = Vec::new();
            members.push((string_of("headers"), inner));
            proof {
                crate::json::lemma_json_members_model(members@);
                assert(crate::json::json_members_model(members@) =~= seq![("headers"@, inner_model)]);
            }
            let doc = JsonValue::Object(members);
            MockReply::Answer {
                status: 200,
                body: MockBody::Json(doc),
                content_type: Some(json_content_type()),
                content_encoding: None,
                delay_secs: 0,
            }
        },
        MockPath::Slow => text_reply(string_of("Slow response"), 3),
        MockPath::Status => {
            let code = status_code_from_query(query);
            let mut text = string_of("Status: ");
            push_decimal(&mut text, code as u64);
            MockReply::Answer {
                status: mock_status(code),
                body: MockBody::Text(text),
                content_type: None,
                content_encoding: None,
                delay_secs: 0,
            }
        },
        MockPath::Json => MockReply::Answer {
            status: 200,
            body: MockBody::JsonGreeting,
            content_type: Some(json_content_type()),
            content_encoding: None,
            delay_secs: 0,
        },
        MockPath::Timeout => text_reply(string_of("This took a long time"), 10),
        MockPath::NotFound => MockReply::Answer {
            status: 404,
            body: MockBody::Empty,
            content_type: None,
            content_encoding: None,
            delay_secs: 0,
        },
    }
}

/// A 200 answer with this text and no content type, after `delay` seconds.
fn text_reply(text: String, delay: u64) -> (r: MockReply)
    ensures
        text_answer(r, text@, delay),
{
    MockReply::Answer { status: 200, body: MockBody::Text(text), content_type: None, content_encoding: None, delay_secs: delay }
}

/// The bytes of `application/json`.
fn json_content_type() -> (r: Vec<u8>)
    ensures
        r@ == ascii_bytes("application/json"@),
{
    let r: Vec<u8> = vec![97, 112, 112, 108, 105, 99, 97, 116, 105, 111, 110, 47, 106, 115, 111, 110];
    proof {
        reveal_strlit("application/json");
        assert(r@ =~= ascii_bytes("application/json"@));
    }
    r
}

/// Every route's path leads back to the route.
pub proof fn law_mock_path_round_trip(p: MockPath)
    ensures
        mock_path_of(mock_path_text(p)) == p,
{
    reveal_strlit("/hello");
    reveal_strlit("/gzip");
    reveal_strlit("/echo");
    reveal_strlit("/push_msg");
    reveal_strlit("/ws");
    reveal_strlit("/headers");
    reveal_strlit("/slow");
    reveal_strlit("/status");
    reveal_strlit("/json");
    reveal_strlit("/post_echo");
    reveal_strlit("/timeout");
    reveal_strlit("/");
    assert("/hello"@.len() == 6 && "/hello"@[1] == 'h');
    assert("/gzip"@.len() == 5 && "/gzip"@[1] == 'g');
    assert("/echo"@.len() == 5 && "/echo"@[1] == 'e');
    assert("/push_msg"@.len() == 9 && "/push_msg"@[1] == 'p');
    assert("/ws"@.len() == 3 && "/ws"@[1] == 'w');
    assert("/headers"@.len() == 8 && "/headers"@[1] == 'h');
    assert("/slow"@.len() == 5 && "/slow"@[1] == 's');
    assert("/status"@.len() == 7 && "/status"@[1] == 's');
    assert("/json"@.len() == 5 && "/json"@[1] == 'j');
    assert("/post_echo"@.len() == 10 && "/post_echo"@[1] == 'p');
    assert("/timeout"@.len() == 8 && "/timeout"@[1] == 't');
    assert("/"@.len() == 1);
}

} // verus!
