//! Helpers shared by messages: body inspection and display, JSON headers, header lookups.
use vstd::prelude::*;
use vstd::utf8::{decode_utf8, encode_utf8, is_char_boundary, valid_utf8};
use crate::headers::Headers;
use crate::text::{decimal, parse_u64, parse_unsigned, push_decimal, push_str, seq_starts_with, str_starts_with, string_of};

verus! {

/// A control byte other than tab, line feed and carriage return.
pub open spec fn is_control_byte(b: u8) -> bool {
    b < 32 && b != 9 && b != 10 && b != 13
}

/// The number of control bytes in `s` (tab, line feed and carriage return not counted).
pub open spec fn control_byte_count(s: Seq<u8>) -> nat
    decreases s.len(),
{
    if s.len() == 0 {
        0
    } else {
        control_byte_count(s.drop_last()) + if is_control_byte(s.last()) {
            1nat
        } else {
            0nat
        }
    }
}

/// The body looks binary: it is not empty and more than a tenth of its bytes are control bytes.
pub open spec fn looks_binary(s: Seq<u8>) -> bool {
    s.len() > 0 && 10 * control_byte_count(s) > s.len()
}

/// The text that `String::from_utf8_lossy` gives for `bytes`: the bytes decoded as UTF-8, each
/// invalid sequence replaced by U+FFFD.
pub uninterp spec fn lossy_utf8(bytes: Seq<u8>) -> Seq<char>;

/// Decodes bytes with `String::from_utf8_lossy`: its text is named by `lossy_utf8`, and for
/// valid UTF-8 it is the decoded text.
#[verifier::external_body]
fn utf8_lossy(bytes: &[u8]) -> (r: String)
    ensures
        r@ == lossy_utf8(bytes@),
        valid_utf8(bytes@) ==> r@ == decode_utf8(bytes@),
{
    String::from_utf8_lossy(bytes).into_owned()
}

/// Decodes bytes with `String::from_utf8`: the text when the bytes are valid UTF-8.
#[verifier::external_body]
fn utf8_string(bytes: &[u8]) -> (r: Option<String>)
    ensures
        r is Some <==> valid_utf8(bytes@),
        r matches Some(s) ==> s@ == decode_utf8(bytes@),
{
    String::from_utf8(bytes.to_vec()).ok()
}

/// A body that is not valid UTF-8.
#[derive(Debug, Clone, Copy, PartialEq, Eq, Structural)]
pub struct InvalidUtf8;

/// The text of a body that is valid UTF-8.
pub fn body_text(data: &[u8]) -> (r: Result<String, InvalidUtf8>)
    ensures
        r is Ok <==> valid_utf8(data@),
        r matches Ok(s) ==> s@ == decode_utf8(data@),
{
    match utf8_string(data) {
        Some(s) => Ok(s),
        None => Err(InvalidUtf8),
    }
}

/// The text of a body as `String::from_utf8_lossy` gives it: the decoded text when the body
/// is valid UTF-8, else the text with each invalid sequence replaced by U+FFFD.
pub open spec fn display_content(data: Seq<u8>) -> Seq<char> {
    if valid_utf8(data) {
        decode_utf8(data)
    } else {
        lossy_utf8(data)
    }
}

/// The display form of a body: a placeholder for binary data, else the lossily decoded text,
/// cut after `max` bytes with a note of the full size when it is longer.
pub open spec fn display_text(data: Seq<u8>, max: nat) -> Seq<char> {
    if looks_binary(data) {
        "[Binary data, "@ + decimal(data.len()) + " bytes]"@
    } else {
        let content = display_content(data);
        let bytes = encode_utf8(content);
        if bytes.len() > max {
            decode_utf8(bytes.subrange(0, max as int)) + "... [truncated, total "@ + decimal(data.len())
                + " bytes]"@
        } else {
            content
        }
    }
}

/// The cut of the display form, where there is one, falls on a character boundary.
pub open spec fn display_cut_ok(data: Seq<u8>, max: nat) -> bool {
    ||| looks_binary(data)
    ||| encode_utf8(display_content(data)).len() <= max
    ||| is_char_boundary(encode_utf8(display_content(data)), max as int)
}

/// The text of a `content-type` header starts with `prefix`.
pub open spec fn content_type_is(headers: Map<Seq<char>, Seq<char>>, prefix: Seq<char>) -> bool {
    headers.dom().contains("content-type"@) && seq_starts_with(headers["content-type"@], prefix)
}

/// Whether the `content-type` header starts with `prefix`.
pub fn has_content_type(headers: &Headers, prefix: &str) -> (r: bool)
    ensures
        r == content_type_is(headers@, prefix@),
{
    match headers.get("content-type") {
        Some(ct) => str_starts_with(ct.as_str(), prefix),
        None => false,
    }
}

/// Helpers for message bodies.
pub struct BodyUtils;

impl BodyUtils {
    /// Whether the data looks binary: more than a tenth of its bytes are control bytes other
    /// than tab, line feed and carriage return.
    pub fn is_binary_content(data: &[u8]) -> (r: bool)
        ensures
            r == looks_binary(data@),
    {
        if data.len() == 0 {
            return false;
        }
        let mut count: usize = 0;
        let mut i: usize = 0;
        while i < data.len()
            invariant
                i <= data@.len(),
                count == control_byte_count(data@.take(i as int)),
                count <= i,
            decreases data.len() - i,
        {
            proof {
                assert(data@.take(i + 1).drop_last() =~= data@.take(i as int));
            }
            let b = data[i];
            if b < 32 && b != 9 && b != 10 && b != 13 {
                count = count + 1;
            }
            i = i + 1;
        }
        proof {
            assert(data@.take(i as int) =~= data@);
        }
        (count as u128) * 10 > data.len() as u128
    }

    /// The data for display or logging, as `display_text` describes; the cut must fall on a
    /// character boundary.
    pub fn truncate_for_display(data: &[u8], max_length: usize) -> (r: String)
        requires
            display_cut_ok(data@, max_length as nat),
        ensures
            r@ == display_text(data@, max_length as nat),
    {
        if Self::is_binary_content(data) {
            let mut s = string_of("[Binary data, ");
            push_decimal(&mut s, data.len() as u64);
            push_str(&mut s, " bytes]");
            return s;
        }
        let content = utf8_lossy(data);
        let text = content.as_str();
        let n = text.as_bytes().len();
        if n > max_length {
            let (prefix, _rest) = text.split_at(max_length);
            proof {
                vstd::utf8::encode_utf8_decode_utf8(prefix@);
            }
            let mut s = string_of(prefix);
            push_str(&mut s, "... [truncated, total ");
            push_decimal(&mut s, data.len() as u64);
            push_str(&mut s, " bytes]");
            s
        } else {
            content
        }
    }

    /// The display form of the data, or `None` where its cut would fall inside a character.
    pub fn truncate_for_display_checked(data: &[u8], max_length: usize) -> (r: Option<String>)
        ensures
            r is Some <==> display_cut_ok(data@, max_length as nat),
            r matches Some(s) ==> s@ == display_text(data@, max_length as nat),
    {
        if !Self::is_binary_content(data) {
            let content = utf8_lossy(data);
            let text = content.as_str();
            if text.as_bytes().len() > max_length && !text.is_char_boundary(max_length) {
                return None;
            }
        }
        Some(Self::truncate_for_display(data, max_length))
    }

    /// Headers for a JSON body: `content-type: application/json`.
    pub fn create_json_headers() -> (r: Headers)
        ensures
            r@ == Map::<Seq<char>, Seq<char>>::empty().insert("content-type"@, "application/json"@),
    {
        let mut headers = Headers::new();
        headers.insert(string_of("content-type"), string_of("application/json"));
        headers
    }
}

/// What requests and responses share: headers and a body, and what can be read from them.
pub trait HttpMessage {
    /// The message's headers (a type that carries headers gives them; none by default).
    open spec fn message_headers(&self) -> Map<Seq<char>, Seq<char>> {
        Map::empty()
    }

    /// The message's body (a type that carries a body gives it; empty by default).
    open spec fn message_body(&self) -> Seq<u8> {
        Seq::empty()
    }

    /// The headers.
    fn headers(&self) -> (r: &Headers)
        ensures
            r@ == self.message_headers(),
    ;

    /// The body.
    fn body_data(&self) -> (r: &[u8])
        ensures
            r@ == self.message_body(),
    ;

    /// The body as text, when it is valid UTF-8.
    fn body_as_string(&self) -> (r: Result<String, InvalidUtf8>)
        ensures
            r is Ok <==> valid_utf8(self.message_body()),
            r matches Ok(s) ==> s@ == decode_utf8(self.message_body()),
    {
        body_text(self.body_data())
    }

    /// The size of the body in bytes.
    fn body_size(&self) -> (r: usize)
        ensures
            r == self.message_body().len(),
    {
        self.body_data().len()
    }

    /// Whether the body is empty.
    fn is_body_empty(&self) -> (r: bool)
        ensures
            r == (self.message_body().len() == 0),
    {
        self.body_data().len() == 0
    }

    /// The value of the header `name`.
    fn get_header(&self, name: &str) -> (r: Option<&String>)
        ensures
            r is Some <==> self.message_headers().dom().contains(name@),
            r matches Some(v) ==> v@ == self.message_headers()[name@],
    {
        self.headers().get(name)
    }

    /// Whether the header `name` is present.
    fn has_header(&self, name: &str) -> (r: bool)
        ensures
            r == self.message_headers().dom().contains(name@),
    {
        self.headers().contains_key(name)
    }

    /// The `content-type` header.
    fn content_type(&self) -> (r: Option<&String>)
        ensures
            r is Some <==> self.message_headers().dom().contains("content-type"@),
            r matches Some(v) ==> v@ == self.message_headers()["content-type"@],
    {
        self.get_header("content-type")
    }

    /// Whether the `content-type` header starts with `content_type`.
    fn is_content_type(&self, content_type: &str) -> (r: bool)
        ensures
            r == content_type_is(self.message_headers(), content_type@),
    {
        has_content_type(self.headers(), content_type)
    }

    /// Whether the content type is JSON.
    fn is_json(&self) -> (r: bool)
        ensures
            r == content_type_is(self.message_headers(), "application/json"@),
    {
        self.is_content_type("application/json")
    }

    /// Whether the content type is HTML.
    fn is_html(&self) -> (r: bool)
        ensures
            r == content_type_is(self.message_headers(), "text/html"@),
    {
        self.is_content_type("text/html")
    }

    /// Whether the content type is plain text.
    fn is_text(&self) -> (r: bool)
        ensures
            r == content_type_is(self.message_headers(), "text/plain"@),
    {
        self.is_content_type("text/plain")
    }

    /// The body for display, as `display_text` describes; the cut must fall on a character
    /// boundary.
    fn body_display(&self, max_length: usize) -> (r: String)
        requires
            display_cut_ok(self.message_body(), max_length as nat),
        ensures
            r@ == display_text(self.message_body(), max_length as nat),
    {
        BodyUtils::truncate_for_display(self.body_data(), max_length)
    }

    /// The body for display, or `None` where its cut would fall inside a character.
    fn body_display_checked(&self, max_length: usize) -> (r: Option<String>)
        ensures
            r is Some <==> display_cut_ok(self.message_body(), max_length as nat),
            r matches Some(s) ==> s@ == display_text(self.message_body(), max_length as nat),
    {
        let data = self.body_data();
        if BodyUtils::truncate_for_display_checked(data, max_length).is_some() {
            Some(self.body_display(max_length))
        } else {
            None
        }
    }

    /// Whether the body is not empty.
    fn has_content(&self) -> (r: bool)
        ensures
            r == (self.message_body().len() > 0),
    {
        !self.is_body_empty()
    }

    /// The `content-length` header as a number, when it is one.
    fn content_length_header(&self) -> (r: Option<u64>)
        ensures
            r == match header_value_of(self.message_headers(), "content-length"@) {
                Some(v) => match parse_unsigned(v, u64::MAX as nat) {
                    Some(n) => Some(n as u64),
                    None => None,
                },
                None => None,
            },
    {
        match self.get_header("content-length") {
            Some(v) => parse_u64(v.as_str()),
            None => None,
        }
    }

    /// Whether a `content-encoding` header is present.
    fn has_content_encoding(&self) -> (r: bool)
        ensures
            r == self.message_headers().dom().contains("content-encoding"@),
    {
        self.has_header("content-encoding")
    }

    /// The `content-encoding` header.
    fn content_encoding(&self) -> (r: Option<&String>)
        ensures
            r is Some <==> self.message_headers().dom().contains("content-encoding"@),
            r matches Some(v) ==> v@ == self.message_headers()["content-encoding"@],
    {
        self.get_header("content-encoding")
    }
}

/// The value stored under `name`, if any.
pub open spec fn header_value_of(headers: Map<Seq<char>, Seq<char>>, name: Seq<char>) -> Option<Seq<char>> {
    if headers.dom().contains(name) {
        Some(headers[name])
    } else {
        None
    }
}

// ---------------------------------------------------------------------------------------
// Byte buffers and header maps of the `bytes` and `http` crates
// ---------------------------------------------------------------------------------------

#[verifier::external_type_specification]
#[verifier::external_body]
pub struct ExBytes(bytes::Bytes);

#[verifier::external_type_specification]
#[verifier::external_body]
#[verifier::reject_recursive_types(T)]
pub struct ExHeaderMap<T>(http::HeaderMap<T>);

#[verifier::external_type_specification]
#[verifier::external_body]
pub struct ExHeaderValue(http::HeaderValue);

/// The bytes a `bytes::Bytes` buffer holds.
pub uninterp spec fn bytes_contents(b: bytes::Bytes) -> Seq<u8>;

/// The entries of an `http::HeaderMap` in the order `HeaderMap::iter` walks them: one
/// (name, value bytes) pair per value, names in lower case. The order is the map's own (its
/// entries in their stored order, each name's values in the order they were added), fixed for
/// a given map.
pub uninterp spec fn header_map_entries(m: http::HeaderMap) -> Seq<(Seq<char>, Seq<u8>)>;

/// What `http::HeaderMap::get` gives for `name`: the bytes of the first value stored under
/// that header name, `None` when there is none or `name` is no valid header name.
pub uninterp spec fn header_map_get(m: http::HeaderMap, name: Seq<char>) -> Option<Seq<u8>>;

/// The (name, value) models of a list of header entries.
pub open spec fn entry_models(s: Seq<(String, Vec<u8>)>) -> Seq<(Seq<char>, Seq<u8>)> {
    s.map_values(|e: (String, Vec<u8>)| (e.0@, e.1@))
}

/// The entries of a header map, in the order `http::HeaderMap::iter` walks them: each name
/// (lower case, `HeaderName::as_str`) with the bytes of one of its values
/// (`HeaderValue::as_bytes`).
#[verifier::external_body]
fn header_entries(map: &http::HeaderMap) -> (r: Vec<(String, Vec<u8>)>)
    ensures
        entry_models(r@) == header_map_entries(*map),
{
    let mut out = Vec::new();
    for (name, value) in map.iter() {
        out.push((name.as_str().to_string(), value.as_bytes().to_vec()));
    }
    out
}

/// The bytes of the first value stored under `name` (`http::HeaderMap::get`); a value it
/// gives is one of the map's entries.
#[verifier::external_body]
pub(crate) fn header_get(map: &http::HeaderMap, name: &str) -> (r: Option<Vec<u8>>)
    ensures
        match r {
            Some(v) => header_map_get(*map, name@) == Some(v@),
            None => header_map_get(*map, name@) is None,
        },
        r matches Some(v) ==> exists|n: Seq<char>| header_map_entries(*map).contains((n, v@)),
{
    map.get(name).map(|v| v.as_bytes().to_vec())
}

/// A byte that a header value may hold as text: tab or visible ASCII.
pub open spec fn is_visible_ascii(b: u8) -> bool {
    b == 9 || (32 <= b && b < 127)
}

/// The header value is text (`HeaderValue::to_str` succeeds): only tabs and visible ASCII.
pub open spec fn is_visible_text(v: Seq<u8>) -> bool {
    forall|i: int| 0 <= i < v.len() ==> is_visible_ascii(#[trigger] v[i])
}

/// The characters of ASCII bytes.
pub open spec fn ascii_text(v: Seq<u8>) -> Seq<char> {
    v.map_values(|b: u8| b as char)
}

/// The text of a header value that is text.
pub open spec fn header_text(v: Option<Seq<u8>>) -> Option<Seq<char>> {
    match v {
        Some(b) => if is_visible_text(b) {
            Some(ascii_text(b))
        } else {
            None
        },
        None => None,
    }
}

/// The text of a header value, when it is text (`HeaderValue::to_str`).
fn value_text(v: &Vec<u8>) -> (r: Option<String>)
    ensures
        match r {
            Some(s) => is_visible_text(v@) && s@ == ascii_text(v@),
            None => !is_visible_text(v@),
        },
{
    let mut s = String::new();
    let mut i: usize = 0;
    while i < v.len()
        invariant
            i <= v@.len(),
            forall|j: int| 0 <= j < i ==> is_visible_ascii(#[trigger] v@[j]),
            s@ == ascii_text(v@.take(i as int)),
        decreases v.len() - i,
    {
        let b = v[i];
        if !(b == 9 || (32 <= b && b < 127)) {
            return None;
        }
        crate::text::string_push(&mut s, b as char);
        assert(ascii_text(v@.take(i + 1)) =~= ascii_text(v@.take(i as int)).push(b as char));
        i = i + 1;
    }
    assert(v@.take(i as int) =~= v@);
    Some(s)
}

/// The table that a walk of header entries fills: each name with a value that is text, mapped
/// to the text of the last such value the walk meets.
pub open spec fn text_table(s: Seq<(Seq<char>, Seq<u8>)>) -> Map<Seq<char>, Seq<char>>
    decreases s.len(),
{
    if s.len() == 0 {
        Map::empty()
    } else if is_visible_text(s.last().1) {
        text_table(s.drop_last()).insert(s.last().0, ascii_text(s.last().1))
    } else {
        text_table(s.drop_last())
    }
}

/// The table that a walk of header entries fills when every value counts: each name mapped to
/// the text of the last value the walk meets, or to `fallback` where that value is not text.
pub open spec fn table_with_fallback(s: Seq<(Seq<char>, Seq<u8>)>, fallback: Seq<char>) -> Map<Seq<char>, Seq<char>>
    decreases s.len(),
{
    if s.len() == 0 {
        Map::empty()
    } else {
        table_with_fallback(s.drop_last(), fallback).insert(
            s.last().0,
            if is_visible_text(s.last().1) {
                ascii_text(s.last().1)
            } else {
                fallback
            },
        )
    }
}

/// The header map as a table with every name: each with the last of its values in the order
/// the map walks them, as text, or `fallback` where that value is not text.
pub fn header_table_with_fallback(header_map: &http::HeaderMap, fallback: &str) -> (r: Headers)
    ensures
        r@ == table_with_fallback(header_map_entries(*header_map), fallback@),
{
    let entries = header_entries(header_map);
    let ghost ms = entry_models(entries@);
    let mut out = Headers::new();
    let mut i: usize = 0;
    while i < entries.len()
        invariant
            ms == entry_models(entries@),
            ms.len() == entries@.len(),
            i <= entries@.len(),
            out@ == table_with_fallback(ms.take(i as int), fallback@),
        decreases entries.len() - i,
    {
        let name = entries[i].0.clone();
        let value = match value_text(&entries[i].1) {
            Some(t) => t,
            None => string_of(fallback),
        };
        proof {
            assert(ms[i as int] == (entries@[i as int].0@, entries@[i as int].1@));
            assert(ms.take(i + 1).drop_last() =~= ms.take(i as int));
            assert(ms.take(i + 1).last() == ms[i as int]);
        }
        out.insert(name, value);
        i = i + 1;
    }
    proof {
        assert(ms.take(i as int) =~= ms);
    }
    out
}

/// Helpers for header maps.
pub struct HeaderUtils;

impl HeaderUtils {
    /// The header map as a table: every name with a value that is text, each with the last of
    /// its text values in the order the map walks them.
    pub fn extract_headers(header_map: &http::HeaderMap) -> (r: Headers)
        ensures
            r@ == text_table(header_map_entries(*header_map)),
    {
        let entries = header_entries(header_map);
        let ghost ms = entry_models(entries@);
        let mut out = Headers::new();
        let mut i: usize = 0;
        while i < entries.len()
            invariant
                ms == entry_models(entries@),
                ms.len() == entries@.len(),
                i <= entries@.len(),
                out@ == text_table(ms.take(i as int)),
            decreases entries.len() - i,
        {
            let name = entries[i].0.clone();
            let text = value_text(&entries[i].1);
            proof {
                assert(ms[i as int] == (entries@[i as int].0@, entries@[i as int].1@));
                assert(ms.take(i + 1).drop_last() =~= ms.take(i as int));
                assert(ms.take(i + 1).last() == ms[i as int]);
            }
            match text {
                Some(t) => {
                    out.insert(name, t);
                },
                None => {},
            }
            i = i + 1;
        }
        proof {
            assert(ms.take(i as int) =~= ms);
        }
        out
    }

    /// The text of the first value stored under `name`, when it is text.
    pub fn extract_header_value(header_map: &http::HeaderMap, name: &str) -> (r: Option<String>)
        ensures
            match r {
                Some(s) => header_text(header_map_get(*header_map, name@)) == Some(s@),
                None => header_text(header_map_get(*header_map, name@)) is None,
            },
    {
        match header_get(header_map, name) {
            Some(v) => value_text(&v),
            None => None,
        }
    }

    /// The text of the `content-type` header, when it is text.
    pub fn extract_content_type(header_map: &http::HeaderMap) -> (r: Option<String>)
        ensures
            match r {
                Some(s) => header_text(header_map_get(*header_map, "content-type"@)) == Some(s@),
                None => header_text(header_map_get(*header_map, "content-type"@)) is None,
            },
    {
        Self::extract_header_value(header_map, "content-type")
    }

    /// The `content-length` header as a number, when it is text that reads as a `u64`.
    pub fn extract_content_length(header_map: &http::HeaderMap) -> (r: Option<u64>)
        ensures
            r == match header_text(header_map_get(*header_map, "content-length"@)) {
                Some(t) => match parse_unsigned(t, u64::MAX as nat) {
                    Some(n) => Some(n as u64),
                    None => None,
                },
                None => None,
            },
    {
        match Self::extract_header_value(header_map, "content-length") {
            Some(v) => parse_u64(v.as_str()),
            None => None,
        }
    }
}

impl BodyUtils {
    /// The bytes of a buffer, copied into a vector (`Bytes` derefs to its byte slice, whose
    /// `to_vec` copies it).
    #[verifier::external_body]
    pub fn bytes_to_vec(bytes: &bytes::Bytes) -> (r: Vec<u8>)
        ensures
            r@ == bytes_contents(*bytes),
    {
        bytes.to_vec()
    }

    /// A buffer holding the bytes of `vec` (`Bytes::from`).
    #[verifier::external_body]
    pub fn vec_to_bytes(vec: Vec<u8>) -> (r: bytes::Bytes)
        ensures
            bytes_contents(r) == vec@,
    {
        bytes::Bytes::from(vec)
    }
}

} // verus!
