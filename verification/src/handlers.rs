//! Handler configurations: what a matched rule does with a request or its response.
use vstd::prelude::*;
use crate::headers::Headers;
use crate::json::{JsonModel, JsonValue, json_members_model, opt_num_json, opt_str_json};
use crate::text::{clone_opt_string, string_of};

verus! {

/// The stored kind of a handler.
#[derive(Debug, Clone, Copy, PartialEq, Eq, Structural)]
pub enum HandlerType {
    Block,
    ModifyRequest,
    LocalFile,
    ModifyResponse,
    ProxyForward,
    HtmlScriptInjector,
    Delay,
}

impl Default for HandlerType {
    fn default() -> (r: Self)
        ensures
            r == HandlerType::Block,
    {
        HandlerType::Block
    }
}

/// Block handler configuration: answer the request with an error response.
#[derive(Debug)]
pub struct BlockHandlerConfig {
    pub status_code: Option<u16>,
    pub reason: Option<String>,
}

/// Whether to delay before processing, after it, or both.
#[derive(Debug, Clone, Copy, PartialEq, Eq, Structural)]
pub enum DelayType {
    BeforeRequest,
    AfterRequest,
    Both,
}

impl Default for DelayType {
    fn default() -> (r: Self)
        ensures
            r == DelayType::BeforeRequest,
    {
        DelayType::BeforeRequest
    }
}

/// Delay handler configuration.
#[derive(Debug, Clone, Copy)]
pub struct DelayHandlerConfig {
    /// Delay duration in milliseconds.
    pub delay_ms: u64,
    /// Optional variance in milliseconds for a random delay (plus or minus).
    pub variance_ms: Option<u64>,
    pub delay_type: DelayType,
}

/// Local file handler configuration.
#[derive(Debug)]
pub struct LocalFileConfig {
    pub file_path: String,
    pub content_type: Option<String>,
    pub status_code: Option<u16>,
}

/// Modify request handler configuration.
#[derive(Debug)]
pub struct ModifyRequestConfig {
    pub modify_headers: Option<Headers>,
    pub modify_body: Option<String>,
    pub modify_method: Option<String>,
    pub modify_url: Option<String>,
}

/// Modify response handler configuration.
#[derive(Debug)]
pub struct ModifyResponseConfig {
    pub modify_headers: Option<Headers>,
    pub modify_body: Option<String>,
    pub modify_method: Option<String>,
    pub modify_status_code: Option<u16>,
}

/// Proxy forward handler configuration.
#[derive(Debug)]
pub struct ProxyForwardConfig {
    pub target_scheme: Option<String>,
    pub target_authority: Option<String>,
    pub target_path: Option<String>,
}

/// HTML content injector configuration.
#[derive(Debug)]
pub struct HtmlScriptInjectorConfig {
    pub content: Option<String>,
    pub injection_position: Option<String>,
}

/// The configuration of a handler, by kind.
#[derive(Debug)]
pub enum HandlerRuleType {
    Block(BlockHandlerConfig),
    ModifyRequest(ModifyRequestConfig),
    LocalFile(LocalFileConfig),
    ModifyResponse(ModifyResponseConfig),
    ProxyForward(ProxyForwardConfig),
    HtmlScriptInjector(HtmlScriptInjectorConfig),
    Delay(DelayHandlerConfig),
}

/// A handler of a rule.
#[derive(Debug)]
pub struct HandlerRule {
    pub id: Option<i32>,
    pub handler_type: HandlerRuleType,
    pub name: String,
    pub description: Option<String>,
    pub execution_order: i32,
    pub enabled: bool,
}

/// The model of a header table carried by a configuration.
pub open spec fn opt_headers_model(h: Option<Headers>) -> Option<Map<Seq<char>, Seq<char>>> {
    match h {
        Some(h) => Some(h@),
        None => None,
    }
}

/// The model of a modify request configuration.
pub struct ModifyRequestModel {
    pub modify_headers: Option<Map<Seq<char>, Seq<char>>>,
    pub modify_body: Option<String>,
    pub modify_method: Option<String>,
    pub modify_url: Option<String>,
}

/// The model of a modify response configuration.
pub struct ModifyResponseModel {
    pub modify_headers: Option<Map<Seq<char>, Seq<char>>>,
    pub modify_body: Option<String>,
    pub modify_method: Option<String>,
    pub modify_status_code: Option<u16>,
}

/// The model of a handler configuration.
pub enum HandlerRuleTypeModel {
    Block(BlockHandlerConfig),
    ModifyRequest(ModifyRequestModel),
    LocalFile(LocalFileConfig),
    ModifyResponse(ModifyResponseModel),
    ProxyForward(ProxyForwardConfig),
    HtmlScriptInjector(HtmlScriptInjectorConfig),
    Delay(DelayHandlerConfig),
}

/// The model of a handler.
pub struct HandlerRuleModel {
    pub id: Option<i32>,
    pub handler_type: HandlerRuleTypeModel,
    pub name: String,
    pub description: Option<String>,
    pub execution_order: i32,
    pub enabled: bool,
}

impl View for ModifyRequestConfig {
    type V = ModifyRequestModel;

    open spec fn view(&self) -> ModifyRequestModel {
        ModifyRequestModel {
            modify_headers: opt_headers_model(self.modify_headers),
            modify_body: self.modify_body,
            modify_method: self.modify_method,
            modify_url: self.modify_url,
        }
    }
}

impl View for ModifyResponseConfig {
    type V = ModifyResponseModel;

    open spec fn view(&self) -> ModifyResponseModel {
        ModifyResponseModel {
            modify_headers: opt_headers_model(self.modify_headers),
            modify_body: self.modify_body,
            modify_method: self.modify_method,
            modify_status_code: self.modify_status_code,
        }
    }
}

impl View for HandlerRuleType {
    type V = HandlerRuleTypeModel;

    open spec fn view(&self) -> HandlerRuleTypeModel {
        match *self {
            HandlerRuleType::Block(c) => HandlerRuleTypeModel::Block(c),
            HandlerRuleType::ModifyRequest(c) => HandlerRuleTypeModel::ModifyRequest(c@),
            HandlerRuleType::LocalFile(c) => HandlerRuleTypeModel::LocalFile(c),
            HandlerRuleType::ModifyResponse(c) => HandlerRuleTypeModel::ModifyResponse(c@),
            HandlerRuleType::ProxyForward(c) => HandlerRuleTypeModel::ProxyForward(c),
            HandlerRuleType::HtmlScriptInjector(c) => HandlerRuleTypeModel::HtmlScriptInjector(c),
            HandlerRuleType::Delay(c) => HandlerRuleTypeModel::Delay(c),
        }
    }
}

impl View for HandlerRule {
    type V = HandlerRuleModel;

    open spec fn view(&self) -> HandlerRuleModel {
        HandlerRuleModel {
            id: self.id,
            handler_type: self.handler_type@,
            name: self.name,
            description: self.description,
            execution_order: self.execution_order,
            enabled: self.enabled,
        }
    }
}

/// The stored kind of a handler configuration.
pub open spec fn handler_type_of(t: HandlerRuleTypeModel) -> HandlerType {
    match t {
        HandlerRuleTypeModel::Block(_) => HandlerType::Block,
        HandlerRuleTypeModel::ModifyRequest(_) => HandlerType::ModifyRequest,
        HandlerRuleTypeModel::LocalFile(_) => HandlerType::LocalFile,
        HandlerRuleTypeModel::ModifyResponse(_) => HandlerType::ModifyResponse,
        HandlerRuleTypeModel::ProxyForward(_) => HandlerType::ProxyForward,
        HandlerRuleTypeModel::HtmlScriptInjector(_) => HandlerType::HtmlScriptInjector,
        HandlerRuleTypeModel::Delay(_) => HandlerType::Delay,
    }
}

/// The name of a delay type in stored configurations.
pub open spec fn delay_type_name(t: DelayType) -> Seq<char> {
    match t {
        DelayType::BeforeRequest => "beforeRequest"@,
        DelayType::AfterRequest => "afterRequest"@,
        DelayType::Both => "both"@,
    }
}

/// A header table as a JSON object, entry by entry.
pub open spec fn headers_json_members(s: Seq<(String, String)>) -> Seq<(Seq<char>, JsonModel)> {
    Seq::new(s.len(), |i: int| (s[i].0@, JsonModel::Str(s[i].1@)))
}

/// An optional header table as JSON.
pub open spec fn opt_headers_json(h: Option<Headers>) -> JsonModel {
    match h {
        Some(h) => JsonModel::Object(headers_json_members(h.entry_seq())),
        None => JsonModel::Null,
    }
}

/// The members of the stored JSON form of a handler configuration (field names in camel
/// case, a missing optional field as `null`).
pub open spec fn config_members(t: HandlerRuleType) -> Seq<(Seq<char>, JsonModel)> {
    match t {
        HandlerRuleType::Block(c) => seq![
                ("statusCode"@, opt_num_json(opt_u16_as_u64(c.status_code))),
                ("reason"@, opt_str_json(c.reason)),
            ],
        HandlerRuleType::ModifyRequest(c) => seq![
                ("modifyHeaders"@, opt_headers_json(c.modify_headers)),
                ("modifyBody"@, opt_str_json(c.modify_body)),
                ("modifyMethod"@, opt_str_json(c.modify_method)),
                ("modifyUrl"@, opt_str_json(c.modify_url)),
            ],
        HandlerRuleType::LocalFile(c) => seq![
                ("filePath"@, JsonModel::Str(c.file_path@)),
                ("contentType"@, opt_str_json(c.content_type)),
                ("statusCode"@, opt_num_json(opt_u16_as_u64(c.status_code))),
            ],
        HandlerRuleType::ModifyResponse(c) => seq![
                ("modifyHeaders"@, opt_headers_json(c.modify_headers)),
                ("modifyBody"@, opt_str_json(c.modify_body)),
                ("modifyMethod"@, opt_str_json(c.modify_method)),
                ("modifyStatusCode"@, opt_num_json(opt_u16_as_u64(c.modify_status_code))),
            ],
        HandlerRuleType::ProxyForward(c) => seq![
                ("targetScheme"@, opt_str_json(c.target_scheme)),
                ("targetAuthority"@, opt_str_json(c.target_authority)),
                ("targetPath"@, opt_str_json(c.target_path)),
            ],
        HandlerRuleType::HtmlScriptInjector(c) => seq![
                ("content"@, opt_str_json(c.content)),
                ("injectionPosition"@, opt_str_json(c.injection_position)),
            ],
        HandlerRuleType::Delay(c) => seq![
                ("delayMs"@, JsonModel::Number(c.delay_ms as int)),
                ("varianceMs"@, opt_num_json(c.variance_ms)),
                ("delayType"@, JsonModel::Str(delay_type_name(c.delay_type))),
            ],
    }
}

/// The stored JSON form of a handler configuration.
pub open spec fn config_json(t: HandlerRuleType) -> JsonModel {
    JsonModel::Object(config_members(t))
}

/// An optional `u16` widened to `u64`.
pub open spec fn opt_u16_as_u64(o: Option<u16>) -> Option<u64> {
    match o {
        Some(n) => Some(n as u64),
        None => None,
    }
}

fn widen(o: Option<u16>) -> (r: Option<u64>)
    ensures
        r == opt_u16_as_u64(o),
{
    match o {
        Some(n) => Some(n as u64),
        None => None,
    }
}

fn member(name: &str, value: JsonValue) -> (r: (String, JsonValue))
    ensures
        r.0@ == name@,
        r.1@ == value@,
{
    (string_of(name), value)
}

fn opt_headers_to_json(h: &Option<Headers>) -> (r: JsonValue)
    ensures
        r@ == opt_headers_json(*h),
{
    match h {
        Some(h) => {
            let entries = h.entries();
            let mut members: Vec<(String, JsonValue)> = Vec::new();
            let mut i: usize = 0;
            while i < entries.len()
                invariant
                    i <= entries@.len(),
                    members@.len() == i,
                    forall|j: int|
                        0 <= j < i ==> (#[trigger] members@[j]).0@ == entries@[j].0@ && members@[j].1@
                            == JsonModel::Str(entries@[j].1@),
                decreases entries.len() - i,
            {
                let k = entries[i].0.clone();
                let v = JsonValue::String(entries[i].1.clone());
                members.push((k, v));
                i = i + 1;
            }
            proof {
                crate::json::lemma_json_members_model(members@);
                assert(json_members_model(members@) =~= headers_json_members(h.entry_seq()));
            }
            JsonValue::object(members)
        },
        None => JsonValue::Null,
    }
}

fn delay_type_json(t: DelayType) -> (r: JsonValue)
    ensures
        r@ == JsonModel::Str(delay_type_name(t)),
{
    match t {
        DelayType::BeforeRequest => JsonValue::String(string_of("beforeRequest")),
        DelayType::AfterRequest => JsonValue::String(string_of("afterRequest")),
        DelayType::Both => JsonValue::String(string_of("both")),
    }
}

impl<'a> From<&'a HandlerRuleType> for HandlerType {
    /// The stored kind of a handler configuration.
    fn from(t: &'a HandlerRuleType) -> (r: HandlerType) {
        match t {
            HandlerRuleType::Block(_) => HandlerType::Block,
            HandlerRuleType::ModifyRequest(_) => HandlerType::ModifyRequest,
            HandlerRuleType::LocalFile(_) => HandlerType::LocalFile,
            HandlerRuleType::ModifyResponse(_) => HandlerType::ModifyResponse,
            HandlerRuleType::ProxyForward(_) => HandlerType::ProxyForward,
            HandlerRuleType::HtmlScriptInjector(_) => HandlerType::HtmlScriptInjector,
            HandlerRuleType::Delay(_) => HandlerType::Delay,
        }
    }
}

impl<'a> vstd::std_specs::convert::FromSpecImpl<&'a HandlerRuleType> for HandlerType {
    open spec fn obeys_from_spec() -> bool {
        true
    }

    open spec fn from_spec(t: &'a HandlerRuleType) -> HandlerType {
        handler_type_of(t@)
    }
}

impl HandlerRuleType {
    /// The stored JSON form of the configuration.
    pub fn config_json(&self) -> (r: JsonValue)
        ensures
            r@ == config_json(*self),
    {
        match self {
            HandlerRuleType::Block(c) => {
                let mut members: Vec<(String, JsonValue)> = Vec::new();
                members.push(member("statusCode", JsonValue::from_opt_num(widen(c.status_code))));
                members.push(member("reason", JsonValue::from_opt_str(&c.reason)));
                proof {
                    crate::json::lemma_json_members_model(members@);
                    assert(json_members_model(members@) =~= config_members(*self));
                }
                let r = JsonValue::object(members);
                assert(r@ =~= config_json(*self));
                r
            },
            HandlerRuleType::ModifyRequest(c) => {
                let mut members: Vec<(String, JsonValue)> = Vec::new();
                members.push(member("modifyHeaders", opt_headers_to_json(&c.modify_headers)));
                members.push(member("modifyBody", JsonValue::from_opt_str(&c.modify_body)));
                members.push(member("modifyMethod", JsonValue::from_opt_str(&c.modify_method)));
                members.push(member("modifyUrl", JsonValue::from_opt_str(&c.modify_url)));
                proof {
                    crate::json::lemma_json_members_model(members@);
                    assert(json_members_model(members@) =~= config_members(*self));
                }
                let r = JsonValue::object(members);
                assert(r@ =~= config_json(*self));
                r
            },
            HandlerRuleType::LocalFile(c) => {
                let mut members: Vec<(String, JsonValue)> = Vec::new();
                members.push(member("filePath", JsonValue::String(c.file_path.clone())));
                members.push(member("contentType", JsonValue::from_opt_str(&c.content_type)));
                members.push(member("statusCode", JsonValue::from_opt_num(widen(c.status_code))));
                proof {
                    crate::json::lemma_json_members_model(members@);
                    assert(json_members_model(members@) =~= config_members(*self));
                }
                let r = JsonValue::object(members);
                assert(r@ =~= config_json(*self));
                r
            },
            HandlerRuleType::ModifyResponse(c) => {
                let mut members: Vec<(String, JsonValue)> = Vec::new();
                members.push(member("modifyHeaders", opt_headers_to_json(&c.modify_headers)));
                members.push(member("modifyBody", JsonValue::from_opt_str(&c.modify_body)));
                members.push(member("modifyMethod", JsonValue::from_opt_str(&c.modify_method)));
                members.push(member("modifyStatusCode", JsonValue::from_opt_num(widen(c.modify_status_code))));
                proof {
                    crate::json::lemma_json_members_model(members@);
                    assert(json_members_model(members@) =~= config_members(*self));
                }
                let r = JsonValue::object(members);
                assert(r@ =~= config_json(*self));
                r
            },
            HandlerRuleType::ProxyForward(c) => {
                let mut members: Vec<(String, JsonValue)> = Vec::new();
                members.push(member("targetScheme", JsonValue::from_opt_str(&c.target_scheme)));
                members.push(member("targetAuthority", JsonValue::from_opt_str(&c.target_authority)));
                members.push(member("targetPath", JsonValue::from_opt_str(&c.target_path)));
                proof {
                    crate::json::lemma_json_members_model(members@);
                    assert(json_members_model(members@) =~= config_members(*self));
                }
                let r = JsonValue::object(members);
                assert(r@ =~= config_json(*self));
                r
            },
            HandlerRuleType::HtmlScriptInjector(c) => {
                let mut members: Vec<(String, JsonValue)> = Vec::new();
                members.push(member("content", JsonValue::from_opt_str(&c.content)));
                members.push(member("injectionPosition", JsonValue::from_opt_str(&c.injection_position)));
                proof {
                    crate::json::lemma_json_members_model(members@);
                    assert(json_members_model(members@) =~= config_members(*self));
                }
                let r = JsonValue::object(members);
                assert(r@ =~= config_json(*self));
                r
            },
            HandlerRuleType::Delay(c) => {
                let mut members: Vec<(String, JsonValue)> = Vec::new();
                members.push(member("delayMs", JsonValue::Number(c.delay_ms as i128)));
                members.push(member("varianceMs", JsonValue::from_opt_num(c.variance_ms)));
                members.push(member("delayType", delay_type_json(c.delay_type)));
                proof {
                    crate::json::lemma_json_members_model(members@);
                    assert(json_members_model(members@) =~= config_members(*self));
                }
                let r = JsonValue::object(members);
                assert(r@ =~= config_json(*self));
                r
            },
        }
    }
}

impl Default for BlockHandlerConfig {
    fn default() -> (r: Self)
        ensures
            r.status_code == Some(403u16),
            r.reason matches Some(s) && s@ == "Access blocked by proxy"@,
    {
        BlockHandlerConfig { status_code: Some(403), reason: Some(string_of("Access blocked by proxy")) }
    }
}

impl Default for DelayHandlerConfig {
    fn default() -> (r: Self)
        ensures
            r.delay_ms == 1000,
            r.variance_ms is None,
            r.delay_type == DelayType::BeforeRequest,
    {
        DelayHandlerConfig { delay_ms: 1000, variance_ms: None, delay_type: DelayType::BeforeRequest }
    }
}

impl Clone for BlockHandlerConfig {
    fn clone(&self) -> (r: Self)
        ensures
            r == *self,
    {
        BlockHandlerConfig { status_code: self.status_code, reason: clone_opt_string(&self.reason) }
    }
}

impl Clone for LocalFileConfig {
    fn clone(&self) -> (r: Self)
        ensures
            r == *self,
    {
        LocalFileConfig {
            file_path: self.file_path.clone(),
            content_type: clone_opt_string(&self.content_type),
            status_code: self.status_code,
        }
    }
}

impl Clone for ProxyForwardConfig {
    fn clone(&self) -> (r: Self)
        ensures
            r == *self,
    {
        ProxyForwardConfig {
            target_scheme: clone_opt_string(&self.target_scheme),
            target_authority: clone_opt_string(&self.target_authority),
            target_path: clone_opt_string(&self.target_path),
        }
    }
}

impl Clone for HtmlScriptInjectorConfig {
    fn clone(&self) -> (r: Self)
        ensures
            r == *self,
    {
        HtmlScriptInjectorConfig {
            content: clone_opt_string(&self.content),
            injection_position: clone_opt_string(&self.injection_position),
        }
    }
}

fn clone_opt_headers(h: &Option<Headers>) -> (r: Option<Headers>)
    ensures
        opt_headers_model(r) == opt_headers_model(*h),
        r is Some <==> h is Some,
        r matches Some(x) ==> x.entry_seq() == h->0.entry_seq(),
{
    match h {
        Some(h) => Some(h.clone()),
        None => None,
    }
}

impl Clone for ModifyRequestConfig {
    fn clone(&self) -> (r: Self)
        ensures
            r@ == self@,
    {
        ModifyRequestConfig {
            modify_headers: clone_opt_headers(&self.modify_headers),
            modify_body: clone_opt_string(&self.modify_body),
            modify_method: clone_opt_string(&self.modify_method),
            modify_url: clone_opt_string(&self.modify_url),
        }
    }
}

impl Clone for ModifyResponseConfig {
    fn clone(&self) -> (r: Self)
        ensures
            r@ == self@,
    {
        ModifyResponseConfig {
            modify_headers: clone_opt_headers(&self.modify_headers),
            modify_body: clone_opt_string(&self.modify_body),
            modify_method: clone_opt_string(&self.modify_method),
            modify_status_code: self.modify_status_code,
        }
    }
}

impl Clone for HandlerRuleType {
    fn clone(&self) -> (r: Self)
        ensures
            r@ == self@,
    {
        match self {
            HandlerRuleType::Block(c) => HandlerRuleType::Block(c.clone()),
            HandlerRuleType::ModifyRequest(c) => HandlerRuleType::ModifyRequest(c.clone()),
            HandlerRuleType::LocalFile(c) => HandlerRuleType::LocalFile(c.clone()),
            HandlerRuleType::ModifyResponse(c) => HandlerRuleType::ModifyResponse(c.clone()),
            HandlerRuleType::ProxyForward(c) => HandlerRuleType::ProxyForward(c.clone()),
            HandlerRuleType::HtmlScriptInjector(c) => HandlerRuleType::HtmlScriptInjector(c.clone()),
            HandlerRuleType::Delay(c) => HandlerRuleType::Delay(*c),
        }
    }
}

impl Clone for HandlerRule {
    fn clone(&self) -> (r: Self)
        ensures
            r@ == self@,
    {
        HandlerRule {
            id: self.id,
            handler_type: self.handler_type.clone(),
            name: self.name.clone(),
            description: clone_opt_string(&self.description),
            execution_order: self.execution_order,
            enabled: self.enabled,
        }
    }
}

/// A handler with no id that is enabled, with the given kind, name, description and order.
pub open spec fn is_template(
    r: HandlerRuleModel,
    t: HandlerRuleTypeModel,
    name: Seq<char>,
    description: Seq<char>,
    order: i32,
) -> bool {
    &&& r.id is None
    &&& r.handler_type == t
    &&& r.name@ == name
    &&& r.description matches Some(d) && d@ == description
    &&& r.execution_order == order
    &&& r.enabled
}

impl HandlerRule {
    /// A handler that blocks matching requests.
    pub fn block_handler(status_code: Option<u16>, reason: Option<String>) -> (r: Self)
        ensures
            is_template(
                r@,
                HandlerRuleTypeModel::Block(BlockHandlerConfig { status_code, reason }),
                "Block Access"@,
                "Block all requests with 403 Forbidden"@,
                100,
            ),
    {
        HandlerRule {
            id: None,
            handler_type: HandlerRuleType::Block(BlockHandlerConfig { status_code, reason }),
            name: string_of("Block Access"),
            description: Some(string_of("Block all requests with 403 Forbidden")),
            execution_order: 100,
            enabled: true,
        }
    }

    /// A handler that serves a local file.
    pub fn local_file_handler(
        file_path: String,
        content_type: Option<String>,
        status_code: Option<u16>,
    ) -> (r: Self)
        ensures
            is_template(
                r@,
                HandlerRuleTypeModel::LocalFile(LocalFileConfig { file_path, content_type, status_code }),
                "Local File Handler"@,
                "Serve local files from filesystem"@,
                50,
            ),
    {
        HandlerRule {
            id: None,
            handler_type: HandlerRuleType::LocalFile(
                LocalFileConfig { file_path, content_type, status_code },
            ),
            name: string_of("Local File Handler"),
            description: Some(string_of("Serve local files from filesystem")),
            execution_order: 50,
            enabled: true,
        }
    }

    /// A handler that modifies the request.
    pub fn modify_request_handler(
        modify_headers: Option<Headers>,
        modify_body: Option<String>,
        modify_method: Option<String>,
        modify_url: Option<String>,
    ) -> (r: Self)
        ensures
            is_template(
                r@,
                HandlerRuleTypeModel::ModifyRequest(
                    ModifyRequestModel {
                        modify_headers: opt_headers_model(modify_headers),
                        modify_body,
                        modify_method,
                        modify_url,
                    },
                ),
                "Modify Request Handler"@,
                "Modify request headers, body, method, or URL"@,
                20,
            ),
    {
        HandlerRule {
            id: None,
            handler_type: HandlerRuleType::ModifyRequest(
                ModifyRequestConfig { modify_headers, modify_body, modify_method, modify_url },
            ),
            name: string_of("Modify Request Handler"),
            description: Some(string_of("Modify request headers, body, method, or URL")),
            execution_order: 20,
            enabled: true,
        }
    }

    /// A handler that modifies the response.
    pub fn modify_response_handler(
        modify_headers: Option<Headers>,
        modify_body: Option<String>,
        modify_method: Option<String>,
        modify_status_code: Option<u16>,
    ) -> (r: Self)
        ensures
            is_template(
                r@,
                HandlerRuleTypeModel::ModifyResponse(
                    ModifyResponseModel {
                        modify_headers: opt_headers_model(modify_headers),
                        modify_body,
                        modify_method,
                        modify_status_code,
                    },
                ),
                "Modify Response Handler"@,
                "Modify response headers, body, method, or status code"@,
                80,
            ),
    {
        HandlerRule {
            id: None,
            handler_type: HandlerRuleType::ModifyResponse(
                ModifyResponseConfig { modify_headers, modify_body, modify_method, modify_status_code },
            ),
            name: string_of("Modify Response Handler"),
            description: Some(string_of("Modify response headers, body, method, or status code")),
            execution_order: 80,
            enabled: true,
        }
    }

    /// A handler that forwards the request to another target.
    pub fn proxy_forward_handler(
        target_scheme: Option<String>,
        target_authority: Option<String>,
        target_path: Option<String>,
    ) -> (r: Self)
        ensures
            is_template(
                r@,
                HandlerRuleTypeModel::ProxyForward(
                    ProxyForwardConfig { target_scheme, target_authority, target_path },
                ),
                "Proxy Forward Handler"@,
                "Forward requests to specified proxy target"@,
                10,
            ),
    {
        HandlerRule {
            id: None,
            handler_type: HandlerRuleType::ProxyForward(
                ProxyForwardConfig { target_scheme, target_authority, target_path },
            ),
            name: string_of("Proxy Forward Handler"),
            description: Some(string_of("Forward requests to specified proxy target")),
            execution_order: 10,
            enabled: true,
        }
    }

    /// A handler that injects content into HTML responses; the position defaults to the end
    /// of the body.
    pub fn html_script_injector_handler(
        content: Option<String>,
        injection_position: Option<String>,
    ) -> (r: Self)
        ensures
            r@.id is None,
            r@.name@ == "HTML Content Injector Handler"@,
            r@.description matches Some(d) && d@ == "Inject HTML content into HTML responses"@,
            r@.execution_order == 85,
            r@.enabled,
            r@.handler_type matches HandlerRuleTypeModel::HtmlScriptInjector(c) && c.content
                == content && (injection_position is Some ==> c.injection_position
                == injection_position) && (injection_position is None ==> (
            c.injection_position matches Some(p) && p@ == "body-end"@)),
    {
        let position = match injection_position {
            Some(p) => Some(p),
            None => Some(string_of("body-end")),
        };
        HandlerRule {
            id: None,
            handler_type: HandlerRuleType::HtmlScriptInjector(
                HtmlScriptInjectorConfig { content, injection_position: position },
            ),
            name: string_of("HTML Content Injector Handler"),
            description: Some(string_of("Inject HTML content into HTML responses")),
            execution_order: 85,
            enabled: true,
        }
    }

    /// A handler that delays processing.
    pub fn delay_handler(delay_ms: u64, variance_ms: Option<u64>, delay_type: DelayType) -> (r: Self)
        ensures
            is_template(
                r@,
                HandlerRuleTypeModel::Delay(DelayHandlerConfig { delay_ms, variance_ms, delay_type }),
                "Delay Handler"@,
                "Add processing delay to requests"@,
                5,
            ),
    {
        HandlerRule {
            id: None,
            handler_type: HandlerRuleType::Delay(
                DelayHandlerConfig { delay_ms, variance_ms, delay_type },
            ),
            name: string_of("Delay Handler"),
            description: Some(string_of("Add processing delay to requests")),
            execution_order: 5,
            enabled: true,
        }
    }
}

impl Default for HandlerRule {
    fn default() -> (r: Self)
        ensures
            r@.id is None,
            r@.handler_type matches HandlerRuleTypeModel::Block(c) && c.status_code == Some(403u16)
                && (c.reason matches Some(s) && s@ == "block"@),
            r@.name@ == "Default Handler"@,
            r@.description is None,
            r@.execution_order == 0,
            r@.enabled,
    {
        HandlerRule {
            id: None,
            handler_type: HandlerRuleType::Block(
                BlockHandlerConfig { status_code: Some(403), reason: Some(string_of("block")) },
            ),
            name: string_of("Default Handler"),
            description: None,
            execution_order: 0,
            enabled: true,
        }
    }
}

} // verus!
