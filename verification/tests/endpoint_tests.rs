//! Tests for the endpoint: dispatch, completion, and the read loop.

#![allow(non_snake_case)]

use rust_lsp::json::{json_object_insert, parse_json, JsonObject, JsonValue};
use rust_lsp::jsonrpc::{
    run_message_read_loop, Endpoint, MapRequestHandler, RequestHandler, ResponseCompletable,
    RpcMethodHandler,
};
use rust_lsp::jsonrpc_objects::{
    error_JSON_RPC_InvalidParams, error_JSON_RPC_MethodNotFound, JsonRpcRequest, RequestParams,
    ResponseResult, RpcError, RpcId,
};
use rust_lsp::lsp_transport::{frame_message, BufferMessageReader};
use rust_lsp::output_agent::{BufferWriter, OutputAgent};
use rust_lsp::service_util::ServiceResult;

/// The registered test methods: a typed point-summing request method and a
/// unit-parameter method.
enum TestMethod {
    Sample,
    NoParams,
}

fn lookup<'a>(fields: &'a JsonObject, key: &str) -> Option<&'a JsonValue> {
    for (k, v) in fields {
        if k == key {
            return Some(v);
        }
    }
    None
}

fn decode_int(fields: &JsonObject, key: &str) -> Result<i64, String> {
    match lookup(fields, key) {
        None => Err(format!("missing field \"{}\"", key)),
        Some(JsonValue::UInt(n)) => Ok(*n as i64),
        Some(JsonValue::Int(i)) => Ok(*i),
        Some(_) => Err(format!("invalid type for field \"{}\"", key)),
    }
}

fn sample_fn(params: RequestParams) -> Result<ServiceResult<JsonValue, JsonValue>, String> {
    let fields = match params {
        RequestParams::Object(fields) => fields,
        _ => return Err("invalid type: expected a map".to_string()),
    };
    let x = decode_int(&fields, "x")?;
    let y = decode_int(&fields, "y")?;
    Ok(Ok(JsonValue::Str(format!("{}{}", x, y))))
}

fn no_params_method(params: RequestParams) -> Result<ServiceResult<JsonValue, JsonValue>, String> {
    match params {
        RequestParams::Null => Ok(Ok(JsonValue::Str("okay".to_string()))),
        _ => Err("invalid type: expected unit".to_string()),
    }
}

impl RpcMethodHandler for TestMethod {
    fn invoke_method(
        &mut self,
        params: RequestParams,
    ) -> Result<ServiceResult<JsonValue, JsonValue>, String> {
        match self {
            TestMethod::Sample => sample_fn(params),
            TestMethod::NoParams => no_params_method(params),
        }
    }
}

fn new_sample_params(x: i64, y: i64) -> RequestParams {
    let mut fields: JsonObject = Vec::new();
    fields = json_object_insert(fields, "x".to_string(), JsonValue::Int(x));
    fields = json_object_insert(fields, "y".to_string(), JsonValue::Int(y));
    RequestParams::Object(fields)
}

fn check_error(result: RpcError, expected: RpcError) {
    assert!(
        result.message.starts_with(&expected.message),
        "{:?} does not start with {:?}",
        result.message,
        expected.message
    );
    assert_eq!(result.code, expected.code);
}

fn check_request(result: ResponseResult, expected: ResponseResult) {
    if let ResponseResult::Error(error) = result {
        if let ResponseResult::Error(expected_error) = expected {
            check_error(error, expected_error);
            return;
        }
        panic!("got an error result where none was expected");
    }
    assert_eq!(result, expected);
}

fn invoke_method<H: RequestHandler>(
    req_handler: &mut H,
    method_name: &str,
    request_params: RequestParams,
) -> Option<ResponseResult> {
    let completable = ResponseCompletable::new(Some(RpcId::Number(123)));
    let response = req_handler.handle_request(method_name, request_params, completable);
    response.map(|e| e.result_or_error)
}

#[test]
fn test_Endpoint() {
    {
        // Test handle unknown method
        let mut request_handler: MapRequestHandler<TestMethod> = MapRequestHandler::new();

        let request = JsonRpcRequest::new(1, "my_method".to_string(), Vec::new());
        let result = invoke_method(&mut request_handler, &request.method, request.params);
        check_request(result.unwrap(), ResponseResult::Error(error_JSON_RPC_MethodNotFound()));
    }

    let mut request_handler = MapRequestHandler::new();
    request_handler.add_request("my_method", TestMethod::Sample);
    request_handler.add_rpc_handler("async_method", TestMethod::Sample);

    // test with invalid params = "{}"
    let request = JsonRpcRequest::new(1, "my_method".to_string(), Vec::new());
    let result = invoke_method(&mut request_handler, &request.method, request.params);
    check_request(
        result.unwrap(),
        ResponseResult::Error(error_JSON_RPC_InvalidParams(r#"missing field "x""#)),
    );

    // test with valid params
    let result = invoke_method(&mut request_handler, "my_method", new_sample_params(10, 20));
    assert_eq!(result.unwrap(), ResponseResult::Result(JsonValue::Str("1020".to_string())));

    // Test valid request with params = "null"
    request_handler.add_request("no_params_method", TestMethod::NoParams);

    let id1 = Some(RpcId::Number(1));
    let request = JsonRpcRequest {
        id: id1,
        method: "no_params_method".into(),
        params: RequestParams::Null,
    };
    let result = invoke_method(&mut request_handler, &request.method, request.params);
    assert_eq!(result.unwrap(), ResponseResult::Result(JsonValue::Str("okay".to_string())));

    // --- Endpoint:
    let output_agent = OutputAgent::start_with_provider(|| BufferWriter::new());
    let mut rpc = Endpoint::start_with_output_agent(output_agent, request_handler);

    // Test ResponseCompletable - missing id for notification method
    let completable = ResponseCompletable::new(None);
    assert!(completable.complete(None).is_none());

    // Test ResponseCompletable - missing id for regular method
    let completable = ResponseCompletable::new(None);
    let guard = completable
        .complete(Some(ResponseResult::Result(JsonValue::Str("1020".to_string()))))
        .unwrap();
    assert_eq!(guard.id, RpcId::Null);

    // test again using handle_request: a notification whose handler answers
    let request = JsonRpcRequest {
        id: None,
        method: "my_method".into(),
        params: new_sample_params(10, 20),
    };
    rpc.handle_request(request);

    let params = new_sample_params(123, 66);
    rpc.send_notification("my_method", params).unwrap();

    rpc.send_notification("async_method", new_sample_params(123, 66)).unwrap();

    rpc.shutdown();
    assert!(rpc.is_shutdown());

    let messages = &rpc.output_agent.writer.messages;
    assert_eq!(messages.len(), 3);
    assert_eq!(
        messages[0],
        r#"{"jsonrpc":"2.0","id":null,"error":{"code":-32600,"message":"The JSON sent is not a valid Request object: Property `id` not provided for request."}}"#
    );
    assert_eq!(messages[1], r#"{"jsonrpc":"2.0","method":"my_method","params":{"x":123,"y":66}}"#);
    assert_eq!(
        messages[2],
        r#"{"jsonrpc":"2.0","method":"async_method","params":{"x":123,"y":66}}"#
    );
}

fn new_endpoint() -> Endpoint<MapRequestHandler<TestMethod>, BufferWriter> {
    let mut request_handler = MapRequestHandler::new();
    request_handler.add_request("my_method", TestMethod::Sample);
    request_handler.add_request("no_params_method", TestMethod::NoParams);
    let output_agent = OutputAgent::start_with_writer(BufferWriter::new());
    Endpoint::start_with_output_agent(output_agent, request_handler)
}

fn single_outbound(rpc: &Endpoint<MapRequestHandler<TestMethod>, BufferWriter>) -> &str {
    let messages = &rpc.output_agent.writer.messages;
    assert_eq!(messages.len(), 1);
    &messages[0]
}

#[test]
fn handle_message_invalid_json_answers_with_null_id_parse_error() {
    let mut rpc = new_endpoint();
    rpc.handle_message("{");
    let parsed = parse_json(single_outbound(&rpc)).unwrap();
    let fields = match parsed {
        JsonValue::Obj(fields) => fields,
        _ => panic!("response is not an object"),
    };
    assert_eq!(lookup(&fields, "id"), Some(&JsonValue::Null));
    let error_fields = match lookup(&fields, "error") {
        Some(JsonValue::Obj(f)) => f,
        _ => panic!("no error member"),
    };
    assert_eq!(lookup(error_fields, "code"), Some(&JsonValue::Int(-32700)));
    match lookup(error_fields, "message") {
        Some(JsonValue::Str(m)) => {
            assert!(m.starts_with("Invalid JSON was received by the server:"));
        },
        _ => panic!("no message member"),
    }
}

#[test]
fn handle_message_wrong_version_answers_with_invalid_request() {
    let mut rpc = new_endpoint();
    rpc.handle_message(r#"{"jsonrpc":"1.0","id":1,"method":"x","params":{}}"#);
    let parsed = parse_json(single_outbound(&rpc)).unwrap();
    let fields = match parsed {
        JsonValue::Obj(fields) => fields,
        _ => panic!("response is not an object"),
    };
    assert_eq!(lookup(&fields, "id"), Some(&JsonValue::Null));
    let error_fields = match lookup(&fields, "error") {
        Some(JsonValue::Obj(f)) => f,
        _ => panic!("no error member"),
    };
    assert_eq!(lookup(error_fields, "code"), Some(&JsonValue::Int(-32600)));
    match lookup(error_fields, "message") {
        Some(JsonValue::Str(m)) => {
            assert!(m.starts_with("The JSON sent is not a valid Request object:"));
            assert!(m.contains(r#"Property `jsonrpc` is not "2.0". "#));
        },
        _ => panic!("no message member"),
    }
}

#[test]
fn handle_message_method_not_found() {
    let mut rpc = new_endpoint();
    rpc.handle_message(r#"{"jsonrpc":"2.0","id":1,"method":"m","params":{}}"#);
    assert_eq!(
        single_outbound(&rpc),
        r#"{"jsonrpc":"2.0","id":1,"error":{"code":-32601,"message":"The method does not exist / is not available."}}"#
    );
}

#[test]
fn handle_message_happy_path_request() {
    let mut rpc = new_endpoint();
    rpc.handle_message(r#"{"jsonrpc":"2.0","id":1,"method":"my_method","params":{"x":10,"y":20}}"#);
    assert_eq!(single_outbound(&rpc), r#"{"jsonrpc":"2.0","id":1,"result":"1020"}"#);
}

#[test]
fn handle_message_notification_writes_nothing() {
    // The method is registered as a notification, so its quiet completion
    // emits nothing.
    let mut request_handler = MapRequestHandler::new();
    request_handler.add_notification("my_method", TestMethod::Sample);
    let output_agent = OutputAgent::start_with_writer(BufferWriter::new());
    let mut rpc = Endpoint::start_with_output_agent(output_agent, request_handler);
    rpc.handle_message(r#"{"jsonrpc":"2.0","method":"my_method","params":{"x":10,"y":20}}"#);
    assert_eq!(rpc.output_agent.writer.messages.len(), 0);
}

#[test]
fn notification_answered_by_a_request_method_gets_the_guard_error() {
    // A handler that answers a notification: the guard error response with
    // id null is emitted instead of the answer.
    let mut rpc = new_endpoint();
    rpc.handle_message(r#"{"jsonrpc":"2.0","method":"my_method","params":{"x":10,"y":20}}"#);
    assert_eq!(
        single_outbound(&rpc),
        r#"{"jsonrpc":"2.0","id":null,"error":{"code":-32600,"message":"The JSON sent is not a valid Request object: Property `id` not provided for request."}}"#
    );
}

#[test]
fn handle_message_null_params_for_unit_method() {
    let mut rpc = new_endpoint();
    rpc.handle_message(r#"{"jsonrpc":"2.0","id":1,"method":"no_params_method","params":null}"#);
    assert_eq!(single_outbound(&rpc), r#"{"jsonrpc":"2.0","id":1,"result":"okay"}"#);
}

#[test]
fn handle_message_invalid_params_reports_the_decoder_message() {
    let mut rpc = new_endpoint();
    rpc.handle_message(r#"{"jsonrpc":"2.0","id":7,"method":"my_method","params":{"y":1}}"#);
    assert_eq!(
        single_outbound(&rpc),
        r#"{"jsonrpc":"2.0","id":7,"error":{"code":-32602,"message":"Invalid method parameter(s): missing field \"x\""}}"#
    );
}

#[test]
fn later_registration_replaces_an_earlier_one() {
    let mut request_handler = MapRequestHandler::new();
    request_handler.add_request("m", TestMethod::Sample);
    request_handler.add_request("m", TestMethod::NoParams);
    let result = invoke_method(&mut request_handler, "m", RequestParams::Null);
    assert_eq!(result.unwrap(), ResponseResult::Result(JsonValue::Str("okay".to_string())));
}

#[test]
fn read_loop_drives_framed_messages_and_shuts_down() {
    let mut input_text = String::new();
    input_text.push_str(&frame_message(
        r#"{"jsonrpc":"2.0","id":1,"method":"my_method","params":{"x":1,"y":2}}"#,
    ));
    input_text.push_str(&frame_message(
        r#"{"jsonrpc":"2.0","id":2,"method":"no_params_method","params":null}"#,
    ));
    let mut reader = BufferMessageReader::new(input_text.into_bytes());
    let mut rpc = new_endpoint();
    let result = run_message_read_loop(&mut rpc, &mut reader);
    assert!(result.is_err());
    assert!(rpc.is_shutdown());
    let messages = &rpc.output_agent.writer.messages;
    assert_eq!(messages.len(), 2);
    assert_eq!(messages[0], r#"{"jsonrpc":"2.0","id":1,"result":"12"}"#);
    assert_eq!(messages[1], r#"{"jsonrpc":"2.0","id":2,"result":"okay"}"#);
}
