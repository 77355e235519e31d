//! The JSON-RPC 2.0 object model: requests, responses, errors, and their
//! bit-exact wire serialization, plus the parser from raw text to a request.

use vstd::prelude::*;

use crate::json::{
    spec_quoted, spec_u64_digits, spec_i64_digits, spec_json_text, spec_obj_text, spec_arr_text,
    spec_obj_lookup, spec_parse_json, JsonObject, JsonValue, json_to_string, parse_json,
    write_json, str_eq,
};
use crate::service_util::{ErrorMessage, ServiceResult};

verus! {

/// The id of a request: an integer, a string, or `Null`.
///
/// An integer id is preserved exactly as received: `Number` carries the
/// non-negative ones and `NegNumber` the negative ones, so a response
/// always echoes the id the client sent. `Null` is reserved for
/// server-generated error responses when no valid id was available.
#[derive(Debug, PartialEq)]
pub enum RpcId {
    Number(u64),
    NegNumber(i64),
    String(String),
    Null,
}

/// A JSON-RPC request, version 2.0. A missing `id` makes it a notification.
/// The `jsonrpc` field is not stored: it must be `"2.0"` on the wire, and
/// serialization always writes it.
#[derive(Debug, PartialEq)]
pub struct JsonRpcRequest {
    pub id: Option<RpcId>,
    pub method: String,
    pub params: RequestParams,
}

/// The params of a request: the spec requires a structured value, so an
/// object, an array, or nothing (serialized as `null`).
#[derive(Debug, PartialEq)]
pub enum RequestParams {
    Object(JsonObject),
    Array(Vec<JsonValue>),
    Null,
}

/// A JSON-RPC response, version 2.0: an id (always present; `Null` when no
/// valid id was available) and exactly one of a result or an error.
#[derive(Debug, PartialEq)]
pub struct JsonRpcResponse {
    pub id: RpcId,
    pub result_or_error: ResponseResult,
}

/// The payload of a response: exactly one of `result` or `error`.
#[derive(Debug, PartialEq)]
pub enum ResponseResult {
    Result(JsonValue),
    Error(RpcError),
}

/// A JSON-RPC error object: code, message, and an optional data payload.
#[derive(Debug, PartialEq)]
pub struct RpcError {
    pub code: i64,
    pub message: String,
    pub data: Option<JsonValue>,
}

/// Any outbound message: a request (or notification) or a response.
#[derive(Debug, PartialEq)]
pub enum JsonRpcMessage {
    Request(JsonRpcRequest),
    Response(JsonRpcResponse),
}

pub type JsonRpcParseResult<T> = Result<T, RpcError>;

// ------------------------------------------------------------------
// Constructors
// ------------------------------------------------------------------

impl JsonRpcRequest {
    /// A request with a numeric id and object params.
    pub fn new(id_number: u64, method: String, params: JsonObject) -> (r: JsonRpcRequest)
        ensures
            r.id == Option::Some(RpcId::Number(id_number)),
            r.method == method,
            r.params == RequestParams::Object(params),
    {
        JsonRpcRequest { id: Some(RpcId::Number(id_number)), method, params: RequestParams::Object(params) }
    }

    /// Wraps the request as an outbound message.
    pub fn to_message(self) -> (r: JsonRpcMessage)
        ensures
            r == JsonRpcMessage::Request(self),
    {
        JsonRpcMessage::Request(self)
    }
}

impl JsonRpcResponse {
    /// A response carrying a result.
    pub fn new_result(id: RpcId, result: JsonValue) -> (r: JsonRpcResponse)
        ensures
            r == (JsonRpcResponse { id, result_or_error: ResponseResult::Result(result) }),
    {
        JsonRpcResponse { id, result_or_error: ResponseResult::Result(result) }
    }

    /// A response carrying an error.
    pub fn new_error(id: RpcId, error: RpcError) -> (r: JsonRpcResponse)
        ensures
            r == (JsonRpcResponse { id, result_or_error: ResponseResult::Error(error) }),
    {
        JsonRpcResponse { id, result_or_error: ResponseResult::Error(error) }
    }

    /// Wraps the response as an outbound message.
    pub fn to_message(self) -> (r: JsonRpcMessage)
        ensures
            r == JsonRpcMessage::Response(self),
    {
        JsonRpcMessage::Response(self)
    }
}

impl RpcError {
    /// An error with no data payload.
    pub fn new(code: i64, message: String) -> (r: RpcError)
        ensures
            r.code == code,
            r.message == message,
            r.data is None,
    {
        RpcError { code, message, data: None }
    }
}

// ------------------------------------------------------------------
// The standard error vocabulary
// ------------------------------------------------------------------

/// Whether `e` is the parse error (-32700) with the given detail appended.
pub open spec fn spec_is_parse_error(e: RpcError, detail: Seq<char>) -> bool {
    &&& e.code == -32700
    &&& e.message@ == "Invalid JSON was received by the server: "@ + detail
    &&& e.data is None
}

/// Whether `e` is the invalid-request error (-32600) with the given detail.
pub open spec fn spec_is_invalid_request_error(e: RpcError, detail: Seq<char>) -> bool {
    &&& e.code == -32600
    &&& e.message@ == "The JSON sent is not a valid Request object: "@ + detail
    &&& e.data is None
}

/// Whether `e` is the method-not-found error (-32601).
pub open spec fn spec_is_method_not_found_error(e: RpcError) -> bool {
    &&& e.code == -32601
    &&& e.message@ == "The method does not exist / is not available."@
    &&& e.data is None
}

/// Whether `e` is the invalid-params error (-32602) with the given detail.
pub open spec fn spec_is_invalid_params_error(e: RpcError, detail: Seq<char>) -> bool {
    &&& e.code == -32602
    &&& e.message@ == "Invalid method parameter(s): "@ + detail
    &&& e.data is None
}

/// A parse error answers under code -32700 and its message starts with the
/// fixed parse-error prefix, whatever diagnostic follows.
pub proof fn lemma_parse_error_prefix(e: RpcError, detail: Seq<char>)
    requires
        spec_is_parse_error(e, detail),
    ensures
        e.code == -32700,
        e.data is None,
        "Invalid JSON was received by the server: "@.is_prefix_of(e.message@),
{
    assert(e.message@.subrange(0, "Invalid JSON was received by the server: "@.len() as int)
        =~= "Invalid JSON was received by the server: "@);
}

/// An invalid-request error answers under code -32600 and its message
/// starts with the fixed invalid-request prefix, whatever detail follows.
pub proof fn lemma_invalid_request_prefix(e: RpcError, detail: Seq<char>)
    requires
        spec_is_invalid_request_error(e, detail),
    ensures
        e.code == -32600,
        e.data is None,
        "The JSON sent is not a valid Request object: "@.is_prefix_of(e.message@),
{
    assert(e.message@.subrange(0, "The JSON sent is not a valid Request object: "@.len() as int)
        =~= "The JSON sent is not a valid Request object: "@);
}

/// The parse error, code -32700, with the parser's diagnostic appended.
#[allow(non_snake_case)]
pub fn error_JSON_RPC_ParseError(error: &str) -> (r: RpcError)
    ensures
        spec_is_parse_error(r, error@),
{
    let mut message = String::from_str("Invalid JSON was received by the server: ");
    message.append(error);
    RpcError { code: -32700, message, data: None }
}

/// The invalid-request error, code -32600, with the detail appended.
#[allow(non_snake_case)]
pub fn error_JSON_RPC_InvalidRequest(error: &str) -> (r: RpcError)
    ensures
        spec_is_invalid_request_error(r, error@),
{
    let mut message = String::from_str("The JSON sent is not a valid Request object: ");
    message.append(error);
    RpcError { code: -32600, message, data: None }
}

/// The method-not-found error, code -32601.
#[allow(non_snake_case)]
pub fn error_JSON_RPC_MethodNotFound() -> (r: RpcError)
    ensures
        spec_is_method_not_found_error(r),
{
    RpcError {
        code: -32601,
        message: String::from_str("The method does not exist / is not available."),
        data: None,
    }
}

/// The invalid-params error, code -32602, with the decoder's message appended.
#[allow(non_snake_case)]
pub fn error_JSON_RPC_InvalidParams(error: &str) -> (r: RpcError)
    ensures
        spec_is_invalid_params_error(r, error@),
{
    let mut message = String::from_str("Invalid method parameter(s): ");
    message.append(error);
    RpcError { code: -32602, message, data: None }
}

/// The internal error, code -32603.
#[allow(non_snake_case)]
pub fn error_JSON_RPC_InternalError() -> (r: RpcError)
    ensures
        r.code == -32603,
        r.message@ == "Internal JSON-RPC error."@,
        r.data is None,
{
    RpcError { code: -32603, message: String::from_str("Internal JSON-RPC error."), data: None }
}

// ------------------------------------------------------------------
// Service results
// ------------------------------------------------------------------

/// How a handler's service result appears on the wire: a result is carried
/// as-is; an error keeps its code (widened to signed 64-bit), message, and
/// always carries its data.
pub open spec fn spec_from_service_result(svc: ServiceResult<JsonValue, JsonValue>) -> ResponseResult {
    match svc {
        Ok(ret) => ResponseResult::Result(ret),
        Err(e) => ResponseResult::Error(
            RpcError { code: e.code as i64, message: e.message, data: Option::Some(e.data) },
        ),
    }
}

impl ResponseResult {
    /// Maps a handler's service result into the response payload.
    pub fn from_service_result(svc_result: ServiceResult<JsonValue, JsonValue>) -> (r:
        ResponseResult)
        ensures
            r == spec_from_service_result(svc_result),
    {
        match svc_result {
            Ok(ret) => ResponseResult::Result(ret),
            Err(error) => {
                let code: i64 = error.code as i64;
                ResponseResult::Error(
                    RpcError { code, message: error.message, data: Some(error.data) },
                )
            },
        }
    }
}

// ------------------------------------------------------------------
// Wire text
// ------------------------------------------------------------------

/// The wire text of an id.
pub open spec fn spec_id_text(id: RpcId) -> Seq<char> {
    match id {
        RpcId::Number(n) => spec_u64_digits(n as int),
        RpcId::NegNumber(i) => spec_i64_digits(i as int),
        RpcId::String(s) => spec_quoted(s@),
        RpcId::Null => seq!['n', 'u', 'l', 'l'],
    }
}

/// The wire text of request params: `null` when there are none.
pub open spec fn spec_params_text(p: RequestParams) -> Seq<char> {
    match p {
        RequestParams::Object(fields) => seq!['{'] + spec_obj_text(fields@) + seq!['}'],
        RequestParams::Array(items) => seq!['['] + spec_arr_text(items@) + seq![']'],
        RequestParams::Null => seq!['n', 'u', 'l', 'l'],
    }
}

/// The wire text of an error object: `code`, `message`, and `data` only when
/// present.
pub open spec fn spec_error_text(e: RpcError) -> Seq<char> {
    seq!['{'] + spec_quoted("code"@) + seq![':'] + spec_i64_digits(e.code as int) + seq![',']
        + spec_quoted("message"@) + seq![':'] + spec_quoted(e.message@) + (match e.data {
        Option::Some(d) => seq![','] + spec_quoted("data"@) + seq![':'] + spec_json_text(d),
        Option::None => Seq::empty(),
    }) + seq!['}']
}

/// The wire text of a request: `jsonrpc`, then `id` (omitted for a
/// notification), then `method`, then `params` (always present).
pub open spec fn spec_request_text(r: JsonRpcRequest) -> Seq<char> {
    seq!['{'] + spec_quoted("jsonrpc"@) + seq![':'] + spec_quoted("2.0"@) + (match r.id {
        Option::Some(id) => seq![','] + spec_quoted("id"@) + seq![':'] + spec_id_text(id),
        Option::None => Seq::empty(),
    }) + seq![','] + spec_quoted("method"@) + seq![':'] + spec_quoted(r.method@) + seq![',']
        + spec_quoted("params"@) + seq![':'] + spec_params_text(r.params) + seq!['}']
}

/// The wire text of a response: `jsonrpc`, then `id`, then exactly one of
/// `result` or `error`.
pub open spec fn spec_response_text(r: JsonRpcResponse) -> Seq<char> {
    seq!['{'] + spec_quoted("jsonrpc"@) + seq![':'] + spec_quoted("2.0"@) + seq![',']
        + spec_quoted("id"@) + seq![':'] + spec_id_text(r.id) + (match r.result_or_error {
        ResponseResult::Result(v) => seq![','] + spec_quoted("result"@) + seq![':']
            + spec_json_text(v),
        ResponseResult::Error(e) => seq![','] + spec_quoted("error"@) + seq![':']
            + spec_error_text(e),
    }) + seq!['}']
}

/// The wire text of an outbound message.
pub open spec fn spec_message_text(m: JsonRpcMessage) -> Seq<char> {
    match m {
        JsonRpcMessage::Request(r) => spec_request_text(r),
        JsonRpcMessage::Response(r) => spec_response_text(r),
    }
}

// ------------------------------------------------------------------
// Serialization
// ------------------------------------------------------------------

impl RpcId {
    /// Appends the wire text of the id.
    pub fn serialize(&self, out: &mut Vec<char>)
        ensures
            final(out)@ == old(out)@ + spec_id_text(*self),
    {
        let ghost out0 = out@;
        match self {
            RpcId::Number(n) => {
                crate::json::push_u64_digits(*n, out);
            },
            RpcId::NegNumber(i) => {
                crate::json::push_i64_digits(*i, out);
            },
            RpcId::String(s) => {
                crate::json::push_quoted(s.as_str(), out);
            },
            RpcId::Null => {
                out.push('n');
                out.push('u');
                out.push('l');
                out.push('l');
                proof {
                    assert(out@ =~= out0 + spec_id_text(*self));
                }
            },
        }
    }

    /// The id as a JSON value.
    pub fn to_value(self) -> (v: JsonValue)
        ensures
            v == spec_id_value(self),
    {
        match self {
            RpcId::Number(n) => JsonValue::UInt(n),
            RpcId::NegNumber(i) => JsonValue::Int(i),
            RpcId::String(s) => JsonValue::Str(s),
            RpcId::Null => JsonValue::Null,
        }
    }
}

/// The id as a JSON value: a number, a string, or `null`.
pub open spec fn spec_id_value(id: RpcId) -> JsonValue {
    match id {
        RpcId::Number(n) => JsonValue::UInt(n),
        RpcId::NegNumber(i) => JsonValue::Int(i),
        RpcId::String(s) => JsonValue::Str(s),
        RpcId::Null => JsonValue::Null,
    }
}

/// The params as a JSON value: an object, an array, or `null`.
pub open spec fn spec_params_value(p: RequestParams) -> JsonValue {
    match p {
        RequestParams::Object(fields) => JsonValue::Obj(fields),
        RequestParams::Array(items) => JsonValue::Arr(items),
        RequestParams::Null => JsonValue::Null,
    }
}

impl RequestParams {
    /// Appends the wire text of the params.
    pub fn serialize(&self, out: &mut Vec<char>)
        ensures
            final(out)@ == old(out)@ + spec_params_text(*self),
    {
        let ghost out0 = out@;
        match self {
            RequestParams::Object(fields) => {
                crate::json::write_obj_fields(fields, out);
            },
            RequestParams::Array(items) => {
                crate::json::write_arr_items(items, out);
            },
            RequestParams::Null => {
                out.push('n');
                out.push('u');
                out.push('l');
                out.push('l');
                proof {
                    assert(out@ =~= out0 + spec_params_text(*self));
                }
            },
        }
    }

    /// The params as a JSON value, without reserializing.
    pub fn into_value(self) -> (v: JsonValue)
        ensures
            v == spec_params_value(self),
    {
        match self {
            RequestParams::Object(fields) => JsonValue::Obj(fields),
            RequestParams::Array(items) => JsonValue::Arr(items),
            RequestParams::Null => JsonValue::Null,
        }
    }
}

impl RpcError {
    /// Appends the wire text of the error object.
    pub fn serialize(&self, out: &mut Vec<char>)
        ensures
            final(out)@ == old(out)@ + spec_error_text(*self),
    {
        let ghost out0 = out@;
        out.push('{');
        crate::json::push_quoted("code", out);
        out.push(':');
        crate::json::push_i64_digits(self.code, out);
        out.push(',');
        crate::json::push_quoted("message", out);
        out.push(':');
        crate::json::push_quoted(self.message.as_str(), out);
        match &self.data {
            Some(d) => {
                out.push(',');
                crate::json::push_quoted("data", out);
                out.push(':');
                write_json(d, out);
            },
            None => {},
        }
        out.push('}');
        proof {
            assert(out@ =~= out0 + spec_error_text(*self));
        }
    }
}

impl JsonRpcRequest {
    /// Appends the wire text of the request.
    pub fn serialize(&self, out: &mut Vec<char>)
        ensures
            final(out)@ == old(out)@ + spec_request_text(*self),
    {
        let ghost out0 = out@;
        out.push('{');
        crate::json::push_quoted("jsonrpc", out);
        out.push(':');
        crate::json::push_quoted("2.0", out);
        match &self.id {
            Some(id) => {
                out.push(',');
                crate::json::push_quoted("id", out);
                out.push(':');
                id.serialize(out);
            },
            None => {},
        }
        out.push(',');
        crate::json::push_quoted("method", out);
        out.push(':');
        crate::json::push_quoted(self.method.as_str(), out);
        out.push(',');
        crate::json::push_quoted("params", out);
        out.push(':');
        self.params.serialize(out);
        out.push('}');
        proof {
            assert(out@ =~= out0 + spec_request_text(*self));
        }
    }

    /// The request as a JSON value: the object its wire form denotes.
    pub fn to_value(self) -> (v: JsonValue)
        ensures
            spec_is_request_encoding(self, v),
    {
        let mut fields: JsonObject = Vec::new();
        fields.push((String::from_str("jsonrpc"), JsonValue::Str(String::from_str("2.0"))));
        match self.id {
            Some(id) => {
                fields.push((String::from_str("id"), id.to_value()));
            },
            None => {},
        }
        fields.push((String::from_str("method"), JsonValue::Str(self.method)));
        fields.push((String::from_str("params"), self.params.into_value()));
        JsonValue::Obj(fields)
    }
}

impl JsonRpcResponse {
    /// Appends the wire text of the response.
    pub fn serialize(&self, out: &mut Vec<char>)
        ensures
            final(out)@ == old(out)@ + spec_response_text(*self),
    {
        let ghost out0 = out@;
        out.push('{');
        crate::json::push_quoted("jsonrpc", out);
        out.push(':');
        crate::json::push_quoted("2.0", out);
        out.push(',');
        crate::json::push_quoted("id", out);
        out.push(':');
        self.id.serialize(out);
        match &self.result_or_error {
            ResponseResult::Result(v) => {
                out.push(',');
                crate::json::push_quoted("result", out);
                out.push(':');
                write_json(v, out);
            },
            ResponseResult::Error(e) => {
                out.push(',');
                crate::json::push_quoted("error", out);
                out.push(':');
                e.serialize(out);
            },
        }
        out.push('}');
        proof {
            assert(out@ =~= out0 + spec_response_text(*self));
        }
    }
}

impl JsonRpcMessage {
    /// The full wire text of the message.
    pub fn serialize(&self) -> (r: String)
        ensures
            r@ == spec_message_text(*self),
    {
        let mut out: Vec<char> = Vec::new();
        match self {
            JsonRpcMessage::Request(req) => {
                req.serialize(&mut out);
            },
            JsonRpcMessage::Response(resp) => {
                resp.serialize(&mut out);
            },
        }
        crate::json::chars_to_string(&out)
    }
}

/// Whether `v` is the JSON object a request's wire form denotes: the
/// `jsonrpc` marker, the id when there is one, then `method` and `params`.
pub open spec fn spec_is_request_encoding(r: JsonRpcRequest, v: JsonValue) -> bool {
    match v {
        JsonValue::Obj(fields) => {
            &&& fields@[0].0@ == "jsonrpc"@
            &&& (match fields@[0].1 {
                JsonValue::Str(s) => s@ == "2.0"@,
                _ => false,
            })
            &&& (match r.id {
                Option::Some(id) => {
                    &&& fields@.len() == 4
                    &&& fields@[1].0@ == "id"@
                    &&& fields@[1].1 == spec_id_value(id)
                    &&& fields@[2].0@ == "method"@
                    &&& fields@[2].1 == JsonValue::Str(r.method)
                    &&& fields@[3].0@ == "params"@
                    &&& fields@[3].1 == spec_params_value(r.params)
                },
                Option::None => {
                    &&& fields@.len() == 3
                    &&& fields@[1].0@ == "method"@
                    &&& fields@[1].1 == JsonValue::Str(r.method)
                    &&& fields@[2].0@ == "params"@
                    &&& fields@[2].1 == spec_params_value(r.params)
                },
            })
        },
        _ => false,
    }
}

// ------------------------------------------------------------------
// Parsing
// ------------------------------------------------------------------

/// What the `id` property yields: absent or `null` is no id; integers and
/// strings are ids, preserved exactly as received; anything else is
/// rejected with the detail message.
pub open spec fn spec_parse_id(id: Option<JsonValue>) -> Result<Option<RpcId>, Seq<char>> {
    match id {
        Option::None => Ok(Option::None),
        Option::Some(v) => match v {
            JsonValue::UInt(n) => Ok(Option::Some(RpcId::Number(n))),
            JsonValue::Int(i) => Ok(Option::Some(RpcId::NegNumber(i))),
            JsonValue::Str(s) => Ok(Option::Some(RpcId::String(s))),
            JsonValue::Null => Ok(Option::None),
            _ => Err("Property `id` not a String or integer."@),
        },
    }
}

/// What the `params` property yields: an object, an array, or `null`;
/// anything else is rejected with the detail message.
pub open spec fn spec_parse_params(v: JsonValue) -> Result<RequestParams, Seq<char>> {
    match v {
        JsonValue::Obj(fields) => Ok(RequestParams::Object(fields)),
        JsonValue::Arr(items) => Ok(RequestParams::Array(items)),
        JsonValue::Null => Ok(RequestParams::Null),
        _ => Err("Property `params` not an Object, Array, or null."@),
    }
}

/// The detail of a wrong-type property: the value's JSON text between
/// backquotes.
pub open spec fn spec_not_a_string_detail(v: JsonValue) -> Seq<char> {
    "Value `"@ + spec_json_text(v) + "` is not a String."@
}

/// What parsing a request object yields: each property is checked in turn
/// (`jsonrpc`, then `id`, then `method`, then `params`), and the first
/// failure's detail message is reported.
pub open spec fn spec_parse_request_obj(fields: Seq<(String, JsonValue)>) -> Result<
    JsonRpcRequest,
    Seq<char>,
> {
    match spec_obj_lookup(fields, "jsonrpc"@) {
        Option::None => Err("Property `jsonrpc` is missing."@),
        Option::Some(jv) => match jv {
            JsonValue::Str(version) => if version@ != "2.0"@ {
                Err("Property `jsonrpc` is not \"2.0\". "@)
            } else {
                match spec_parse_id(spec_obj_lookup(fields, "id"@)) {
                    Err(detail) => Err(detail),
                    Ok(id) => match spec_obj_lookup(fields, "method"@) {
                        Option::None => Err("Property `method` is missing."@),
                        Option::Some(mv) => match mv {
                            JsonValue::Str(method) => match spec_obj_lookup(fields, "params"@) {
                                Option::None => Err("Property `params` is missing."@),
                                Option::Some(pv) => match spec_parse_params(pv) {
                                    Err(detail) => Err(detail),
                                    Ok(params) => Ok(JsonRpcRequest { id, method, params }),
                                },
                            },
                            _ => Err(spec_not_a_string_detail(mv)),
                        },
                    },
                }
            },
            _ => Err(spec_not_a_string_detail(jv)),
        },
    }
}

/// What parsing a request from any JSON value yields: the root must be an
/// object.
pub open spec fn spec_parse_request_value(v: JsonValue) -> Result<JsonRpcRequest, Seq<char>> {
    match v {
        JsonValue::Obj(fields) => spec_parse_request_obj(fields@),
        _ => Err("Value `"@ + spec_json_text(v) + "` is not an Object."@),
    }
}

/// Parses the `id` property of a request object.
pub fn parse_jsonrpc_id(id: Option<JsonValue>) -> (r: JsonRpcParseResult<Option<RpcId>>)
    ensures
        match spec_parse_id(id) {
            Ok(x) => r == Ok::<Option<RpcId>, RpcError>(x),
            Err(detail) => r matches Err(e) && spec_is_invalid_request_error(e, detail),
        },
{
    let v = match id {
        None => {
            return Ok(None);
        },
        Some(v) => v,
    };
    match v {
        JsonValue::UInt(n) => Ok(Some(RpcId::Number(n))),
        JsonValue::Int(i) => Ok(Some(RpcId::NegNumber(i))),
        JsonValue::Str(s) => Ok(Some(RpcId::String(s))),
        JsonValue::Null => Ok(None),
        _ => Err(error_JSON_RPC_InvalidRequest("Property `id` not a String or integer.")),
    }
}

/// Parses the `params` property of a request object.
pub fn parse_jsonrpc_params(params: JsonValue) -> (r: Result<RequestParams, ErrorMessage>)
    ensures
        match spec_parse_params(params) {
            Ok(p) => r == Ok::<RequestParams, ErrorMessage>(p),
            Err(detail) => r matches Err(em) && em.message@ == detail,
        },
{
    match params {
        JsonValue::Obj(fields) => Ok(RequestParams::Object(fields)),
        JsonValue::Arr(items) => Ok(RequestParams::Array(items)),
        JsonValue::Null => Ok(RequestParams::Null),
        _ => Err(
            ErrorMessage::create(
                String::from_str("Property `params` not an Object, Array, or null."),
            ),
        ),
    }
}

/// The wrong-type detail message for a value that had to be a string.
fn not_a_string_detail(v: &JsonValue) -> (r: String)
    ensures
        r@ == spec_not_a_string_detail(*v),
{
    let mut detail = String::from_str("Value `");
    let text = json_to_string(v);
    detail.append(text.as_str());
    detail.append("` is not a String.");
    detail
}

/// Parses a request from the fields of a JSON object, checking `jsonrpc`,
/// `id`, `method` and `params` in that order.
#[allow(non_snake_case)]
pub fn parse_jsonrpc_request_jsonObject(request_map: JsonObject) -> (r: JsonRpcParseResult<
    JsonRpcRequest,
>)
    ensures
        match spec_parse_request_obj(request_map@) {
            Ok(req) => r == Ok::<JsonRpcRequest, RpcError>(req),
            Err(detail) => r matches Err(e) && spec_is_invalid_request_error(e, detail),
        },
{
    let ghost all = request_map@;
    let mut rest = request_map;
    let mut f_jsonrpc: Option<JsonValue> = None;
    let mut f_id: Option<JsonValue> = None;
    let mut f_method: Option<JsonValue> = None;
    let mut f_params: Option<JsonValue> = None;
    proof {
        reveal_strlit("jsonrpc");
        reveal_strlit("id");
        reveal_strlit("method");
        reveal_strlit("params");
        assert("jsonrpc"@.len() != "id"@.len());
        assert("jsonrpc"@.len() != "method"@.len());
        assert("method"@[0] != "params"@[0]);
        assert(rest@ =~= all.take(rest@.len() as int));
        assert(all.skip(rest@.len() as int) =~= Seq::empty());
    }
    while rest.len() > 0
        invariant
            rest@.len() <= all.len(),
            rest@ == all.take(rest@.len() as int),
            f_jsonrpc == spec_obj_lookup(all.skip(rest@.len() as int), "jsonrpc"@),
            f_id == spec_obj_lookup(all.skip(rest@.len() as int), "id"@),
            f_method == spec_obj_lookup(all.skip(rest@.len() as int), "method"@),
            f_params == spec_obj_lookup(all.skip(rest@.len() as int), "params"@),
        decreases rest@.len(),
    {
        let ghost n = rest@.len() as int;
        let pair = rest.pop().unwrap();
        proof {
            reveal_strlit("jsonrpc");
            reveal_strlit("id");
            reveal_strlit("method");
            reveal_strlit("params");
            assert("jsonrpc"@.len() != "id"@.len());
            assert("jsonrpc"@.len() != "method"@.len());
            assert("method"@[0] != "params"@[0]);
            assert(all.take(n).last() == all[n - 1]);
            assert(all.take(n).drop_last() =~= all.take(n - 1));
            assert(all.skip(n - 1)[0] == all[n - 1]);
            assert(all.skip(n - 1).drop_first() =~= all.skip(n));
        }
        let (key, value) = pair;
        if str_eq(key.as_str(), "jsonrpc") {
            f_jsonrpc = Some(value);
        } else if str_eq(key.as_str(), "id") {
            f_id = Some(value);
        } else if str_eq(key.as_str(), "method") {
            f_method = Some(value);
        } else if str_eq(key.as_str(), "params") {
            f_params = Some(value);
        }
    }
    proof {
        assert(all.skip(0) =~= all);
    }
    let version_value = match f_jsonrpc {
        None => {
            return Err(error_JSON_RPC_InvalidRequest("Property `jsonrpc` is missing."));
        },
        Some(v) => v,
    };
    let version = match version_value {
        JsonValue::Str(s) => s,
        other => {
            let detail = not_a_string_detail(&other);
            return Err(error_JSON_RPC_InvalidRequest(detail.as_str()));
        },
    };
    if !str_eq(version.as_str(), "2.0") {
        return Err(error_JSON_RPC_InvalidRequest("Property `jsonrpc` is not \"2.0\". "));
    }
    let id = match parse_jsonrpc_id(f_id) {
        Ok(id) => id,
        Err(e) => {
            return Err(e);
        },
    };
    let method_value = match f_method {
        None => {
            return Err(error_JSON_RPC_InvalidRequest("Property `method` is missing."));
        },
        Some(v) => v,
    };
    let method = match method_value {
        JsonValue::Str(s) => s,
        other => {
            let detail = not_a_string_detail(&other);
            return Err(error_JSON_RPC_InvalidRequest(detail.as_str()));
        },
    };
    let params_value = match f_params {
        None => {
            return Err(error_JSON_RPC_InvalidRequest("Property `params` is missing."));
        },
        Some(v) => v,
    };
    let params = match parse_jsonrpc_params(params_value) {
        Ok(p) => p,
        Err(em) => {
            return Err(error_JSON_RPC_InvalidRequest(em.message.as_str()));
        },
    };
    Ok(JsonRpcRequest { id, method, params })
}

/// Parses a request from any JSON value: the root must be an object.
pub fn parse_jsonrpc_request_json(json_value: JsonValue) -> (r: JsonRpcParseResult<JsonRpcRequest>)
    ensures
        match spec_parse_request_value(json_value) {
            Ok(req) => r == Ok::<JsonRpcRequest, RpcError>(req),
            Err(detail) => r matches Err(e) && spec_is_invalid_request_error(e, detail),
        },
{
    match json_value {
        JsonValue::Obj(fields) => parse_jsonrpc_request_jsonObject(fields),
        other => {
            let mut detail = String::from_str("Value `");
            let text = json_to_string(&other);
            detail.append(text.as_str());
            detail.append("` is not an Object.");
            Err(error_JSON_RPC_InvalidRequest(detail.as_str()))
        },
    }
}

/// Parses a request from raw message text: invalid JSON is the parse error
/// (-32700) with the parser's diagnostic; a well-formed JSON value that is
/// not a valid request is the invalid-request error (-32600) with the detail.
pub fn parse_jsonrpc_request(message: &str) -> (r: JsonRpcParseResult<JsonRpcRequest>)
    ensures
        match spec_parse_json(message@) {
            Err(diagnostic) => r matches Err(e) && spec_is_parse_error(e, diagnostic@),
            Ok(v) => match spec_parse_request_value(v) {
                Ok(req) => r == Ok::<JsonRpcRequest, RpcError>(req),
                Err(detail) => r matches Err(e) && spec_is_invalid_request_error(e, detail),
            },
        },
{
    match parse_json(message) {
        Err(diagnostic) => Err(error_JSON_RPC_ParseError(diagnostic.as_str())),
        Ok(v) => parse_jsonrpc_request_json(v),
    }
}

// ------------------------------------------------------------------
// The round trip
// ------------------------------------------------------------------

/// A request that can stand on the wire as it is: its id, if any, is a
/// number or a string. `Null` is reserved for responses (an id of `null`
/// on the wire reads back as no id at all), and the signed carrier holds
/// only values that are actually negative; a non-negative one would
/// serialize without a sign and read back as `Number`.
pub open spec fn spec_request_wire_valid(r: JsonRpcRequest) -> bool {
    &&& r.id != Option::Some(RpcId::Null)
    &&& (match r.id {
        Option::Some(RpcId::NegNumber(i)) => i < 0,
        _ => true,
    })
}

/// Parsing undoes serialization: for any wire-valid request, parsing the
/// JSON object its wire form denotes yields the request back, unchanged.
pub proof fn lemma_request_round_trip(req: JsonRpcRequest, v: JsonValue)
    requires
        spec_request_wire_valid(req),
        spec_is_request_encoding(req, v),
    ensures
        spec_parse_request_value(v) == Ok::<JsonRpcRequest, Seq<char>>(req),
{
    reveal_strlit("jsonrpc");
    reveal_strlit("id");
    reveal_strlit("method");
    reveal_strlit("params");
    reveal_strlit("2.0");
    assert("jsonrpc"@.len() != "id"@.len());
    assert("jsonrpc"@.len() != "method"@.len());
    assert("jsonrpc"@.len() != "params"@.len());
    assert("method"@[0] != "params"@[0]);
    assert("id"@.len() != "method"@.len());
    assert("id"@.len() != "params"@.len());
    let fields = v->Obj_0@;
    let f1 = fields.drop_first();
    let f2 = f1.drop_first();
    assert(f1[0] == fields[1]);
    assert(f2[0] == fields[2]);
    assert(f1.len() == fields.len() - 1);
    assert(f2.len() == fields.len() - 2);
    assert(spec_obj_lookup(fields, "jsonrpc"@) == Option::Some(fields[0].1));
    match req.id {
        Option::Some(id) => {
            let f3 = f2.drop_first();
            assert(f3[0] == fields[3]);
            assert(f3.len() == fields.len() - 3);
            assert(spec_obj_lookup(fields, "id"@) == spec_obj_lookup(f1, "id"@));
            assert(spec_obj_lookup(f1, "id"@) == Option::Some(fields[1].1));
            assert(spec_obj_lookup(fields, "method"@) == spec_obj_lookup(f1, "method"@));
            assert(spec_obj_lookup(f1, "method"@) == spec_obj_lookup(f2, "method"@));
            assert(spec_obj_lookup(f2, "method"@) == Option::Some(fields[2].1));
            assert(spec_obj_lookup(fields, "params"@) == spec_obj_lookup(f1, "params"@));
            assert(spec_obj_lookup(f1, "params"@) == spec_obj_lookup(f2, "params"@));
            assert(spec_obj_lookup(f2, "params"@) == spec_obj_lookup(f3, "params"@));
            assert(spec_obj_lookup(f3, "params"@) == Option::Some(fields[3].1));
            assert(spec_parse_id(Option::Some(spec_id_value(id))) == Ok::<
                Option<RpcId>,
                Seq<char>,
            >(Option::Some(id)));
        },
        Option::None => {
            assert(spec_obj_lookup(fields, "id"@) == spec_obj_lookup(f1, "id"@));
            assert(spec_obj_lookup(f1, "id"@) == spec_obj_lookup(f2, "id"@));
            assert(f2.drop_first().len() == 0);
            assert(spec_obj_lookup(f2.drop_first(), "id"@) is None);
            assert(spec_obj_lookup(f2, "id"@) is None);
            assert(spec_obj_lookup(fields, "method"@) == spec_obj_lookup(f1, "method"@));
            assert(spec_obj_lookup(f1, "method"@) == Option::Some(fields[1].1));
            assert(spec_obj_lookup(fields, "params"@) == spec_obj_lookup(f1, "params"@));
            assert(spec_obj_lookup(f1, "params"@) == spec_obj_lookup(f2, "params"@));
            assert(spec_obj_lookup(f2, "params"@) == Option::Some(fields[2].1));
        },
    }
    assert(spec_parse_params(spec_params_value(req.params)) == Ok::<RequestParams, Seq<char>>(
        req.params,
    ));
    assert(spec_parse_request_obj(fields) == Ok::<JsonRpcRequest, Seq<char>>(req));
}

// ------------------------------------------------------------------
// The shape of a serialized response
// ------------------------------------------------------------------

/// Whether `v` is the JSON object an error's wire form denotes: `code`,
/// `message`, and `data` only when present.
pub open spec fn spec_is_error_encoding(e: RpcError, v: JsonValue) -> bool {
    match v {
        JsonValue::Obj(fields) => {
            &&& fields@.len() >= 2
            &&& fields@[0].0@ == "code"@
            &&& fields@[0].1 == JsonValue::Int(e.code)
            &&& fields@[1].0@ == "message"@
            &&& fields@[1].1 == JsonValue::Str(e.message)
            &&& (match e.data {
                Option::Some(d) => fields@.len() == 3 && fields@[2].0@ == "data"@ && fields@[2].1
                    == d,
                Option::None => fields@.len() == 2,
            })
        },
        _ => false,
    }
}

/// Whether `v` is the JSON object a response's wire form denotes: the
/// `jsonrpc` marker, the response's id, and exactly one of `result` or
/// `error` — never both.
pub open spec fn spec_is_response_encoding(r: JsonRpcResponse, v: JsonValue) -> bool {
    match v {
        JsonValue::Obj(fields) => {
            &&& fields@.len() == 3
            &&& fields@[0].0@ == "jsonrpc"@
            &&& (match fields@[0].1 {
                JsonValue::Str(s) => s@ == "2.0"@,
                _ => false,
            })
            &&& fields@[1].0@ == "id"@
            &&& fields@[1].1 == spec_id_value(r.id)
            &&& (match r.result_or_error {
                ResponseResult::Result(res) => fields@[2].0@ == "result"@ && fields@[2].1 == res,
                ResponseResult::Error(e) => fields@[2].0@ == "error"@ && spec_is_error_encoding(
                    e,
                    fields@[2].1,
                ),
            })
        },
        _ => false,
    }
}

/// An id's JSON value serializes to the id's wire text.
pub proof fn lemma_id_value_text(id: RpcId)
    ensures
        spec_json_text(spec_id_value(id)) == spec_id_text(id),
{
}

/// An error's object form serializes to the error's wire text.
#[verifier::rlimit(50)]
pub proof fn lemma_error_encoding_text(e: RpcError, v: JsonValue)
    requires
        spec_is_error_encoding(e, v),
    ensures
        spec_json_text(v) == spec_error_text(e),
{
    let fields = v->Obj_0@;
    match e.data {
        Option::Some(d) => {
            let f01 = fields.drop_last();
            assert(fields.last() == fields[2]);
            assert(f01.last() == fields[1]);
            assert(f01.drop_last().len() == 1);
            assert(f01.drop_last().last() == fields[0]);
            assert(spec_obj_text(fields) == spec_obj_text(f01) + seq![','] + spec_quoted(
                fields[2].0@,
            ) + seq![':'] + spec_json_text(fields[2].1));
            assert(spec_obj_text(f01) == spec_obj_text(f01.drop_last()) + seq![','] + spec_quoted(
                fields[1].0@,
            ) + seq![':'] + spec_json_text(fields[1].1));
            assert(spec_obj_text(f01.drop_last()) == spec_quoted(fields[0].0@) + seq![':']
                + spec_json_text(fields[0].1));
            assert(spec_json_text(v) =~= spec_error_text(e));
        },
        Option::None => {
            let f0 = fields.drop_last();
            assert(f0.len() == 1);
            assert(f0.last() == fields[0]);
            assert(fields.last() == fields[1]);
            assert(spec_obj_text(fields) == spec_obj_text(f0) + seq![','] + spec_quoted(
                fields[1].0@,
            ) + seq![':'] + spec_json_text(fields[1].1));
            assert(spec_obj_text(f0) == spec_quoted(fields[0].0@) + seq![':'] + spec_json_text(
                fields[0].1,
            ));
            assert(spec_json_text(v) =~= spec_error_text(e));
        },
    }
}

/// A serialized response is exactly the JSON text of an object with the
/// `jsonrpc` marker, the response's own id, and exactly one of `result` or
/// `error`, never both.
pub proof fn lemma_response_text_is_object_text(r: JsonRpcResponse, v: JsonValue)
    requires
        spec_is_response_encoding(r, v),
    ensures
        spec_json_text(v) == spec_response_text(r),
{
    let fields = v->Obj_0@;
    let f01 = fields.drop_last();
    assert(fields.last() == fields[2]);
    assert(f01.last() == fields[1]);
    assert(f01.drop_last().len() == 1);
    assert(f01.drop_last().last() == fields[0]);
    assert(spec_obj_text(fields) == spec_obj_text(f01) + seq![','] + spec_quoted(fields[2].0@)
        + seq![':'] + spec_json_text(fields[2].1));
    assert(spec_obj_text(f01) == spec_obj_text(f01.drop_last()) + seq![','] + spec_quoted(
        fields[1].0@,
    ) + seq![':'] + spec_json_text(fields[1].1));
    assert(spec_obj_text(f01.drop_last()) == spec_quoted(fields[0].0@) + seq![':']
        + spec_json_text(fields[0].1));
    lemma_id_value_text(r.id);
    match r.result_or_error {
        ResponseResult::Result(res) => {},
        ResponseResult::Error(e) => {
            lemma_error_encoding_text(e, fields[2].1);
        },
    }
    assert(spec_json_text(v) =~= spec_response_text(r));
}

} // verus!
