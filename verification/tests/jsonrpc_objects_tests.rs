//! Tests for the JSON-RPC object model: parsing and wire serialization.

use rust_lsp::json::{json_object_insert, parse_json, JsonObject, JsonValue};
use rust_lsp::jsonrpc_objects::{
    error_JSON_RPC_InvalidRequest, error_JSON_RPC_MethodNotFound, error_JSON_RPC_ParseError,
    parse_jsonrpc_params, parse_jsonrpc_request, JsonRpcRequest, JsonRpcResponse, RequestParams,
    ResponseResult, RpcError, RpcId,
};
use rust_lsp::jsonrpc_objects::parse_jsonrpc_request_jsonObject;
use rust_lsp::service_util::ServiceError;

fn obj(fields: Vec<(&str, JsonValue)>) -> JsonObject {
    let mut map: JsonObject = Vec::new();
    for (key, value) in fields {
        map = json_object_insert(map, key.to_string(), value);
    }
    map
}

fn sample_params() -> JsonObject {
    obj(vec![
        ("param", JsonValue::Str("2.0".to_string())),
        ("foo", JsonValue::UInt(123)),
    ])
}

fn to_json(message: rust_lsp::jsonrpc_objects::JsonRpcMessage) -> String {
    message.serialize()
}

fn check_error(result: RpcError, expected: RpcError) {
    assert!(
        result.message.starts_with(&expected.message),
        "{:?} does not start with {:?}",
        result.message,
        expected.message
    );
    assert_eq!(result.code, expected.code);
    assert_eq!(result.data, expected.data);
}

#[test]
fn test__jsonrpc_params() {
    let sample_obj = obj(vec![("xxx", JsonValue::UInt(123))]);
    let sample_string = JsonValue::Str("blah".to_string());
    let sample_string2 = JsonValue::Str("blah".to_string());

    check_params_serde(RequestParams::Object(sample_obj), || {
        RequestParams::Object(obj(vec![("xxx", JsonValue::UInt(123))]))
    });
    check_params_serde(RequestParams::Array(vec![sample_string, sample_string2]), || {
        RequestParams::Array(vec![
            JsonValue::Str("blah".to_string()),
            JsonValue::Str("blah".to_string()),
        ])
    });
    check_params_serde(RequestParams::Null, || RequestParams::Null);
}

fn check_params_serde(params: RequestParams, rebuild: impl Fn() -> RequestParams) {
    let mut out: Vec<char> = Vec::new();
    params.serialize(&mut out);
    let params_string: String = out.into_iter().collect();
    let params2 = parse_jsonrpc_params(parse_json(&params_string).unwrap()).unwrap();
    assert_eq!(params2, rebuild());
}

#[test]
fn test__parse_jsonrpc_request() {
    // Test invalid JSON
    check_error(parse_jsonrpc_request("{").unwrap_err(), error_JSON_RPC_ParseError(""));

    assert_eq!(
        parse_jsonrpc_request("{ }"),
        Err(error_JSON_RPC_InvalidRequest("Property `jsonrpc` is missing."))
    );
    assert_eq!(
        parse_jsonrpc_request(r#"{ "jsonrpc": "1.0" }"#),
        Err(error_JSON_RPC_InvalidRequest(r#"Property `jsonrpc` is not "2.0". "#))
    );

    assert_eq!(
        parse_jsonrpc_request(r#"{ "jsonrpc": "2.0" }"#),
        Err(error_JSON_RPC_InvalidRequest("Property `method` is missing."))
    );
    assert_eq!(
        parse_jsonrpc_request(r#"{ "jsonrpc": "2.0", "method":null }"#),
        Err(error_JSON_RPC_InvalidRequest("Value `null` is not a String."))
    );

    assert_eq!(
        parse_jsonrpc_request(r#"{ "jsonrpc": "2.0", "method":"xxx" }"#),
        Err(error_JSON_RPC_InvalidRequest("Property `params` is missing."))
    );

    // Test valid request with params = null
    assert_eq!(
        parse_jsonrpc_request(r#"{ "jsonrpc": "2.0", "method":"xxx", "params":null }"#),
        Ok(JsonRpcRequest {
            id: None,
            method: "xxx".into(),
            params: RequestParams::Null,
        })
    );

    // --- Test serialization ---

    // basic JsonRpcRequest
    let request = JsonRpcRequest::new(1, "myMethod".to_string(), sample_params());
    let result = parse_jsonrpc_request(&to_json(request.to_message())).unwrap();
    assert_eq!(JsonRpcRequest::new(1, "myMethod".to_string(), sample_params()), result);

    // Test basic JsonRpcRequest, no params
    let request = JsonRpcRequest {
        id: None,
        method: "myMethod".to_string(),
        params: RequestParams::Null,
    };
    let result = parse_jsonrpc_request(&to_json(request.to_message())).unwrap();
    assert_eq!(
        result,
        JsonRpcRequest { id: None, method: "myMethod".to_string(), params: RequestParams::Null }
    );

    // Test JsonRpcRequest with no id
    let request = JsonRpcRequest {
        id: None,
        method: "myMethod".to_string(),
        params: RequestParams::Array(vec![]),
    };
    let result = parse_jsonrpc_request(&to_json(request.to_message())).unwrap();
    assert_eq!(
        result,
        JsonRpcRequest {
            id: None,
            method: "myMethod".to_string(),
            params: RequestParams::Array(vec![]),
        }
    );
}

#[test]
fn test_JsonRpcResponse_serialize() {
    fn sample_json_obj(foo: u64) -> JsonValue {
        JsonValue::Obj(obj(vec![("foo", JsonValue::UInt(foo))]))
    }

    let response = JsonRpcResponse::new_result(RpcId::Null, sample_json_obj(100));
    let parsed = parse_json(&to_json(response.to_message())).unwrap();
    assert_eq!(
        parsed,
        JsonValue::Obj(obj(vec![
            ("jsonrpc", JsonValue::Str("2.0".to_string())),
            ("id", JsonValue::Null),
            ("result", sample_json_obj(100)),
        ]))
    );

    let response = JsonRpcResponse::new_result(RpcId::Number(123), sample_json_obj(200));
    let parsed = parse_json(&to_json(response.to_message())).unwrap();
    assert_eq!(
        parsed,
        JsonValue::Obj(obj(vec![
            ("jsonrpc", JsonValue::Str("2.0".to_string())),
            ("id", JsonValue::UInt(123)),
            ("result", sample_json_obj(200)),
        ]))
    );

    let response = JsonRpcResponse::new_result(RpcId::Null, sample_json_obj(200));
    let parsed = parse_json(&to_json(response.to_message())).unwrap();
    assert_eq!(
        parsed,
        JsonValue::Obj(obj(vec![
            ("jsonrpc", JsonValue::Str("2.0".to_string())),
            ("id", JsonValue::Null),
            ("result", sample_json_obj(200)),
        ]))
    );

    let response = JsonRpcResponse::new_error(
        RpcId::String("321".to_string()),
        RpcError { code: 5, message: "msg".to_string(), data: Some(sample_json_obj(300)) },
    );
    let parsed = parse_json(&to_json(response.to_message())).unwrap();
    assert_eq!(
        parsed,
        JsonValue::Obj(obj(vec![
            ("jsonrpc", JsonValue::Str("2.0".to_string())),
            ("id", JsonValue::Str("321".to_string())),
            (
                "error",
                JsonValue::Obj(obj(vec![
                    ("code", JsonValue::UInt(5)),
                    ("message", JsonValue::Str("msg".to_string())),
                    ("data", sample_json_obj(300)),
                ]))
            ),
        ]))
    );
}

#[test]
fn request_wire_text_is_exact() {
    let request = JsonRpcRequest::new(1, "myMethod".to_string(), sample_params());
    assert_eq!(
        request.to_message().serialize(),
        r#"{"jsonrpc":"2.0","id":1,"method":"myMethod","params":{"foo":123,"param":"2.0"}}"#
    );

    let notification = JsonRpcRequest {
        id: None,
        method: "note".to_string(),
        params: RequestParams::Null,
    };
    assert_eq!(
        notification.to_message().serialize(),
        r#"{"jsonrpc":"2.0","method":"note","params":null}"#
    );
}

#[test]
fn response_wire_text_is_exact() {
    let response = JsonRpcResponse::new_result(RpcId::Number(1), JsonValue::Str("ok".to_string()));
    assert_eq!(response.to_message().serialize(), r#"{"jsonrpc":"2.0","id":1,"result":"ok"}"#);

    let response = JsonRpcResponse::new_error(RpcId::Null, RpcError::new(-32700, "bad".to_string()));
    assert_eq!(
        response.to_message().serialize(),
        r#"{"jsonrpc":"2.0","id":null,"error":{"code":-32700,"message":"bad"}}"#
    );
}

#[test]
fn string_id_round_trip() {
    let request = JsonRpcRequest {
        id: Some(RpcId::String("abc".to_string())),
        method: "m".to_string(),
        params: RequestParams::Null,
    };
    let text = request.to_message().serialize();
    let result = parse_jsonrpc_request(&text).unwrap();
    assert_eq!(result.id, Some(RpcId::String("abc".to_string())));
}

#[test]
fn largest_numeric_id_round_trips() {
    let request = JsonRpcRequest {
        id: Some(RpcId::Number(18446744073709551615)),
        method: "m".to_string(),
        params: RequestParams::Null,
    };
    let text = request.to_message().serialize();
    let result = parse_jsonrpc_request(&text).unwrap();
    assert_eq!(result.id, Some(RpcId::Number(18446744073709551615)));
}

#[test]
fn negative_id_is_preserved_exactly() {
    let result =
        parse_jsonrpc_request(r#"{"jsonrpc":"2.0","id":-1,"method":"m","params":null}"#).unwrap();
    assert_eq!(result.id, Some(RpcId::NegNumber(-1)));
}

#[test]
fn negative_id_round_trips_with_its_sign() {
    let request = JsonRpcRequest {
        id: Some(RpcId::NegNumber(-42)),
        method: "m".to_string(),
        params: RequestParams::Null,
    };
    let text = request.to_message().serialize();
    assert_eq!(text, r#"{"jsonrpc":"2.0","id":-42,"method":"m","params":null}"#);
    let result = parse_jsonrpc_request(&text).unwrap();
    assert_eq!(result.id, Some(RpcId::NegNumber(-42)));
}

#[test]
fn negative_id_is_echoed_on_the_response() {
    let response =
        JsonRpcResponse::new_result(RpcId::NegNumber(-7), JsonValue::Str("ok".to_string()));
    assert_eq!(response.to_message().serialize(), r#"{"jsonrpc":"2.0","id":-7,"result":"ok"}"#);
}

#[test]
fn null_id_parses_as_no_id() {
    let result =
        parse_jsonrpc_request(r#"{"jsonrpc":"2.0","id":null,"method":"m","params":null}"#).unwrap();
    assert_eq!(result.id, None);
}

#[test]
fn bad_id_type_is_rejected() {
    let result = parse_jsonrpc_request(r#"{"jsonrpc":"2.0","id":[1],"method":"m","params":null}"#);
    assert_eq!(
        result,
        Err(error_JSON_RPC_InvalidRequest("Property `id` not a String or integer."))
    );
}

#[test]
fn scalar_params_are_rejected() {
    let result = parse_jsonrpc_request(r#"{"jsonrpc":"2.0","id":1,"method":"m","params":7}"#);
    assert_eq!(
        result,
        Err(error_JSON_RPC_InvalidRequest("Property `params` not an Object, Array, or null."))
    );
}

#[test]
fn non_object_root_is_rejected() {
    let result = parse_jsonrpc_request("[1,2]");
    assert_eq!(result, Err(error_JSON_RPC_InvalidRequest("Value `[1,2]` is not an Object.")));
}

#[test]
fn duplicate_keys_take_the_first_occurrence() {
    let fields: JsonObject = vec![
        ("jsonrpc".to_string(), JsonValue::Str("2.0".to_string())),
        ("method".to_string(), JsonValue::Str("first".to_string())),
        ("method".to_string(), JsonValue::Str("second".to_string())),
        ("params".to_string(), JsonValue::Null),
    ];
    let request = parse_jsonrpc_request_jsonObject(fields).unwrap();
    assert_eq!(request.method, "first");
}

#[test]
fn error_constructors_carry_the_standard_codes() {
    assert_eq!(error_JSON_RPC_ParseError("x").code, -32700);
    assert_eq!(error_JSON_RPC_InvalidRequest("x").code, -32600);
    assert_eq!(error_JSON_RPC_MethodNotFound().code, -32601);
    assert_eq!(rust_lsp::jsonrpc_objects::error_JSON_RPC_InvalidParams("x").code, -32602);
    assert_eq!(rust_lsp::jsonrpc_objects::error_JSON_RPC_InternalError().code, -32603);
    assert_eq!(
        error_JSON_RPC_MethodNotFound().message,
        "The method does not exist / is not available."
    );
    assert_eq!(
        rust_lsp::jsonrpc_objects::error_JSON_RPC_InternalError().message,
        "Internal JSON-RPC error."
    );
}

#[test]
fn from_service_result_widens_the_code_and_keeps_the_data() {
    let ok = ResponseResult::from_service_result(Ok(JsonValue::Str("fine".to_string())));
    assert_eq!(ok, ResponseResult::Result(JsonValue::Str("fine".to_string())));

    let err = ResponseResult::from_service_result(Err(ServiceError {
        code: 7,
        message: "boom".to_string(),
        data: JsonValue::Null,
    }));
    assert_eq!(
        err,
        ResponseResult::Error(RpcError {
            code: 7,
            message: "boom".to_string(),
            data: Some(JsonValue::Null),
        })
    );
}
