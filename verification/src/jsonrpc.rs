//! The JSON-RPC endpoint: one-shot response completion, request-handler
//! dispatch, and the public server API over an output agent.
//!
//! The endpoint parses inbound text, hands each request to its
//! [`RequestHandler`] together with a [`ResponseCompletable`], and submits
//! whatever the completion produced to the output agent. Completing a
//! completable consumes it, so each inbound request is completed exactly
//! once; there is no other way to resolve it.

use vstd::prelude::*;

use crate::json::{spec_parse_json, JsonValue};
use crate::jsonrpc_objects::{
    error_JSON_RPC_InvalidParams, error_JSON_RPC_InvalidRequest, error_JSON_RPC_MethodNotFound,
    parse_jsonrpc_request, spec_from_service_result, spec_is_invalid_params_error,
    spec_is_invalid_request_error, spec_is_method_not_found_error, spec_is_parse_error,
    spec_message_text, spec_parse_request_value, spec_request_text, spec_response_text,
    JsonRpcMessage, JsonRpcRequest, JsonRpcResponse, RequestParams, ResponseResult, RpcError,
    RpcId,
};
use crate::output_agent::{MessageWriter, OutputAgent};
use crate::service_util::{ErrorMessage, MessageReader, ServiceResult};

verus! {

// ------------------------------------------------------------------
// Response completion
// ------------------------------------------------------------------

/// What completing a request with id `id` and result `result` emits.
///
/// No result is a notification's quiet completion and emits nothing. A
/// result for a request with an id becomes that request's response. A result
/// for a request without an id (a handler answered a notification) becomes
/// the guard error response with id `Null`.
pub open spec fn spec_completion(
    id: Option<RpcId>,
    result: Option<ResponseResult>,
    r: Option<JsonRpcResponse>,
) -> bool {
    match result {
        Option::None => r is None,
        Option::Some(rr) => match id {
            Option::Some(i) => r == Option::Some(
                JsonRpcResponse { id: i, result_or_error: rr },
            ),
            Option::None => {
                &&& r matches Option::Some(resp)
                &&& resp.id == RpcId::Null
                &&& resp.result_or_error matches ResponseResult::Error(e)
                &&& spec_is_invalid_request_error(e, "Property `id` not provided for request."@)
            },
        },
    }
}

/// Whether `ro` is what some completion of a request with id `id` could
/// produce.
pub open spec fn spec_some_completion(id: Option<RpcId>, ro: Option<JsonRpcResponse>) -> bool {
    exists|result: Option<ResponseResult>| spec_completion(id, result, ro)
}

/// A one-shot completion bound to one inbound request.
///
/// Completing consumes the completable, so each instance is completed
/// exactly once: the type offers no other way out.
pub struct ResponseCompletable {
    pub id: Option<RpcId>,
}

impl ResponseCompletable {
    /// A completable for a request with the given id (none for a
    /// notification).
    pub fn new(id: Option<RpcId>) -> (r: ResponseCompletable)
        ensures
            r.id == id,
    {
        ResponseCompletable { id }
    }

    /// Resolves the completable, yielding the response to emit, if any.
    pub fn complete(self, rpc_result: Option<ResponseResult>) -> (r: Option<JsonRpcResponse>)
        ensures
            spec_completion(self.id, rpc_result, r),
    {
        match rpc_result {
            Some(rr) => {
                match self.id {
                    Some(i) => Some(JsonRpcResponse { id: i, result_or_error: rr }),
                    None => Some(
                        JsonRpcResponse::new_error(
                            RpcId::Null,
                            error_JSON_RPC_InvalidRequest("Property `id` not provided for request."),
                        ),
                    ),
                }
            },
            None => None,
        }
    }

    /// Resolves the completable with an error.
    pub fn complete_with_error(self, error: RpcError) -> (r: Option<JsonRpcResponse>)
        ensures
            spec_completion(self.id, Option::Some(ResponseResult::Error(error)), r),
    {
        self.complete(Some(ResponseResult::Error(error)))
    }

    /// Runs a synchronous request method: `Err` from the method is a
    /// params-decoding failure and completes with the invalid-params error;
    /// `Ok` completes with the service result mapped onto the wire.
    pub fn sync_handle_request<F: FnOnce(RequestParams) -> Result<
        ServiceResult<JsonValue, JsonValue>,
        String,
    >>(self, params: RequestParams, method_fn: F) -> (r: Option<JsonRpcResponse>)
        requires
            call_requires(method_fn, (params,)),
        ensures
            exists|out: Result<ServiceResult<JsonValue, JsonValue>, String>|
                #[trigger] call_ensures(method_fn, (params,), out) && match out {
                    Ok(svc) => spec_completion(
                        self.id,
                        Option::Some(spec_from_service_result(svc)),
                        r,
                    ),
                    Err(msg) => exists|e: RpcError|
                        spec_is_invalid_params_error(e, msg@) && spec_completion(
                            self.id,
                            Option::Some(ResponseResult::Error(e)),
                            r,
                        ),
                },
    {
        match method_fn(params) {
            Ok(svc) => self.complete(Some(ResponseResult::from_service_result(svc))),
            Err(msg) => self.complete_with_error(error_JSON_RPC_InvalidParams(msg.as_str())),
        }
    }

    /// Runs a synchronous notification method: success completes quietly
    /// and emits nothing; a params-decoding failure completes with the
    /// invalid-params error.
    pub fn sync_handle_notification<F: FnOnce(RequestParams) -> Result<(), String>>(
        self,
        params: RequestParams,
        method_fn: F,
    ) -> (r: Option<JsonRpcResponse>)
        requires
            call_requires(method_fn, (params,)),
        ensures
            exists|out: Result<(), String>|
                #[trigger] call_ensures(method_fn, (params,), out) && match out {
                    Ok(u) => r is None,
                    Err(msg) => exists|e: RpcError|
                        spec_is_invalid_params_error(e, msg@) && spec_completion(
                            self.id,
                            Option::Some(ResponseResult::Error(e)),
                            r,
                        ),
                },
    {
        match method_fn(params) {
            Ok(_) => self.complete(None),
            Err(msg) => self.complete_with_error(error_JSON_RPC_InvalidParams(msg.as_str())),
        }
    }
}

/// Runs a method on the given params and maps its outcome onto the wire:
/// a decoding failure is the invalid-params error, no result is a quiet
/// notification completion, and a service result is carried as-is.
pub fn invoke_method_with_fn<F: FnOnce(RequestParams) -> Result<
    Option<ServiceResult<JsonValue, JsonValue>>,
    String,
>>(params: RequestParams, method_fn: F) -> (r: Option<ResponseResult>)
    requires
        call_requires(method_fn, (params,)),
    ensures
        exists|out: Result<Option<ServiceResult<JsonValue, JsonValue>>, String>|
            #[trigger] call_ensures(method_fn, (params,), out) && match out {
                Ok(Option::Some(svc)) => r == Option::Some(spec_from_service_result(svc)),
                Ok(Option::None) => r is None,
                Err(msg) => r matches Option::Some(ResponseResult::Error(e))
                    && spec_is_invalid_params_error(e, msg@),
            },
{
    match method_fn(params) {
        Err(msg) => Some(ResponseResult::Error(error_JSON_RPC_InvalidParams(msg.as_str()))),
        Ok(None) => None,
        Ok(Some(svc)) => Some(ResponseResult::from_service_result(svc)),
    }
}

// ------------------------------------------------------------------
// Request handling
// ------------------------------------------------------------------

/// What the endpoint hands each inbound request to.
///
/// An implementation must resolve the completable it is given — exactly
/// once, which the move does — and hand back what the completion produced;
/// the contract holds it to the completion semantics, so an emitted
/// response always carries the request's id (or `Null` in the guard case).
/// `dispatch_rel` is the implementation's own dispatch relation: which
/// outcomes it admits for an invocation; `handle_request` is held to it, so
/// what reaches the wire is tied to the handler that was consulted.
pub trait RequestHandler {
    spec fn dispatch_rel(
        &self,
        method: Seq<char>,
        params: RequestParams,
        id: Option<RpcId>,
        r: Option<JsonRpcResponse>,
    ) -> bool;

    fn handle_request(
        &mut self,
        request_method: &str,
        request_params: RequestParams,
        completable: ResponseCompletable,
    ) -> (r: Option<JsonRpcResponse>)
        ensures
            exists|result: Option<ResponseResult>| spec_completion(completable.id, result, r),
            old(self).dispatch_rel(request_method@, request_params, completable.id, r),
    ;
}

/// Serializes one outbound message and submits it to the output agent as
/// one whole write task. Submitting to a shut-down agent is a programmer
/// error, so callers keep the agent running.
pub fn submit_write_task<W: MessageWriter>(
    output_agent: &mut OutputAgent<W>,
    rpc_message: JsonRpcMessage,
)
    requires
        !old(output_agent).spec_is_shutdown(),
    ensures
        !final(output_agent).spec_is_shutdown(),
        final(output_agent).spec_written() == old(output_agent).spec_written().push(
            spec_message_text(rpc_message),
        ),
{
    let text = rpc_message.serialize();
    let _ = output_agent.try_submit_task(text.as_str());
}

// ------------------------------------------------------------------
// The endpoint
// ------------------------------------------------------------------

/// A JSON-RPC server endpoint: the request handler and the output agent.
pub struct Endpoint<H: RequestHandler, W: MessageWriter> {
    pub request_handler: H,
    pub output_agent: OutputAgent<W>,
}

impl<H: RequestHandler, W: MessageWriter> Endpoint<H, W> {
    /// The messages the endpoint has written, in submission order.
    pub open spec fn spec_written(&self) -> Seq<Seq<char>> {
        self.output_agent.spec_written()
    }

    /// Whether the endpoint has been shut down.
    pub open spec fn spec_is_shutdown(&self) -> bool {
        self.output_agent.spec_is_shutdown()
    }

    /// Starts an endpoint over a writer made by the provider.
    pub fn start<F: FnOnce() -> W>(provider: F, request_handler: H) -> (r: Endpoint<H, W>)
        requires
            call_requires(provider, ()),
        ensures
            !r.spec_is_shutdown(),
            r.request_handler == request_handler,
            exists|w: W| call_ensures(provider, (), w) && r.spec_written() == w.written(),
    {
        let output_agent = OutputAgent::start_with_provider(provider);
        Self::start_with_output_agent(output_agent, request_handler)
    }

    /// Starts an endpoint over an already-running output agent.
    pub fn start_with_output_agent(output_agent: OutputAgent<W>, request_handler: H) -> (r:
        Endpoint<H, W>)
        ensures
            r.spec_is_shutdown() == output_agent.spec_is_shutdown(),
            r.spec_written() == output_agent.spec_written(),
            r.request_handler == request_handler,
    {
        Endpoint { request_handler, output_agent }
    }

    /// Whether the endpoint has been shut down.
    pub fn is_shutdown(&self) -> (r: bool)
        ensures
            r == self.spec_is_shutdown(),
    {
        self.output_agent.is_shutdown()
    }

    /// Shuts the endpoint down: terminal, and the output stream is complete.
    pub fn shutdown(&mut self)
        ensures
            final(self).spec_is_shutdown(),
            final(self).spec_written() == old(self).spec_written(),
            final(self).request_handler == old(self).request_handler,
    {
        self.output_agent.shutdown_and_join();
    }

    /// Hands one parsed request to the handler and submits whatever the
    /// completion produced: exactly one response, unless a notification
    /// completed quietly.
    pub fn handle_request(&mut self, request: JsonRpcRequest)
        requires
            !old(self).spec_is_shutdown(),
        ensures
            !final(self).spec_is_shutdown(),
            old(self).spec_written().is_prefix_of(final(self).spec_written()),
            exists|ro: Option<JsonRpcResponse>|
                #[trigger] spec_some_completion(request.id, ro) && old(
                    self,
                ).request_handler.dispatch_rel(request.method@, request.params, request.id, ro)
                    && final(self).spec_written() == (match ro {
                    Option::None => old(self).spec_written(),
                    Option::Some(resp) => old(self).spec_written().push(spec_response_text(resp)),
                }),
    {
        let completable = ResponseCompletable::new(request.id);
        let outcome = self.request_handler.handle_request(
            request.method.as_str(),
            request.params,
            completable,
        );
        proof {
            assert(spec_some_completion(request.id, outcome));
        }
        match outcome {
            Some(response) => {
                submit_write_task(&mut self.output_agent, JsonRpcMessage::Response(response));
            },
            None => {},
        }
        proof {
            assert(old(self).spec_written().is_prefix_of(self.spec_written())) by {
                assert(self.spec_written().subrange(0, old(self).spec_written().len() as int)
                    =~= old(self).spec_written());
            }
        }
    }

    /// Handles one inbound message: text that does not parse as a request
    /// is answered with the parse or invalid-request error under id `Null`;
    /// a parsed request goes to the handler, and what its completion
    /// produced is submitted.
    pub fn handle_message(&mut self, message: &str)
        requires
            !old(self).spec_is_shutdown(),
        ensures
            !final(self).spec_is_shutdown(),
            old(self).spec_written().is_prefix_of(final(self).spec_written()),
            match spec_parse_json(message@) {
                Err(diagnostic) => exists|e: RpcError|
                    spec_is_parse_error(e, diagnostic@) && final(self).spec_written()
                        == old(self).spec_written().push(
                        spec_response_text(
                            JsonRpcResponse {
                                id: RpcId::Null,
                                result_or_error: ResponseResult::Error(e),
                            },
                        ),
                    ),
                Ok(v) => match spec_parse_request_value(v) {
                    Err(detail) => exists|e: RpcError|
                        spec_is_invalid_request_error(e, detail) && final(self).spec_written()
                            == old(self).spec_written().push(
                            spec_response_text(
                                JsonRpcResponse {
                                    id: RpcId::Null,
                                    result_or_error: ResponseResult::Error(e),
                                },
                            ),
                        ),
                    Ok(req) => exists|ro: Option<JsonRpcResponse>|
                        #[trigger] spec_some_completion(req.id, ro) && old(
                            self,
                        ).request_handler.dispatch_rel(req.method@, req.params, req.id, ro)
                            && final(self).spec_written() == (match ro {
                            Option::None => old(self).spec_written(),
                            Option::Some(resp) => old(self).spec_written().push(
                                spec_response_text(resp),
                            ),
                        }),
                },
            },
    {
        match parse_jsonrpc_request(message) {
            Ok(rpc_request) => {
                self.handle_request(rpc_request);
            },
            Err(error) => {
                let response = JsonRpcResponse::new_error(RpcId::Null, error);
                submit_write_task(&mut self.output_agent, JsonRpcMessage::Response(response));
                proof {
                    assert(old(self).spec_written().is_prefix_of(self.spec_written())) by {
                        assert(self.spec_written().subrange(
                            0,
                            old(self).spec_written().len() as int,
                        ) =~= old(self).spec_written());
                    }
                }
            },
        }
    }

    /// Serializes a request and submits it for writing; client-side response
    /// correlation is not provided, so the future is a stub.
    pub fn do_send_request(
        &mut self,
        id: Option<RpcId>,
        method_name: &str,
        params: RequestParams,
    ) -> (r: Result<Future<ServiceResult<JsonValue, JsonValue>>, ErrorMessage>)
        requires
            !old(self).spec_is_shutdown(),
        ensures
            !final(self).spec_is_shutdown(),
            r is Ok,
            exists|req: JsonRpcRequest|
                req.id == id && req.method@ == method_name@ && req.params == params
                    && final(self).spec_written() == old(self).spec_written().push(
                    spec_request_text(req),
                ),
    {
        let rpc_request = JsonRpcRequest {
            id,
            method: String::from_str(method_name),
            params,
        };
        let message = JsonRpcMessage::Request(rpc_request);
        proof {
            assert(message matches JsonRpcMessage::Request(req) && req.id == id && req.method@
                == method_name@ && req.params == params);
        }
        submit_write_task(&mut self.output_agent, message);
        Ok(Future(None))
    }

    /// Sends a notification: a request without an id, so no response will
    /// ever come back for it.
    pub fn send_notification(&mut self, method_name: &str, params: RequestParams) -> (r: Result<
        (),
        ErrorMessage,
    >)
        requires
            !old(self).spec_is_shutdown(),
        ensures
            !final(self).spec_is_shutdown(),
            r is Ok,
            exists|req: JsonRpcRequest|
                req.id is None && req.method@ == method_name@ && req.params == params
                    && final(self).spec_written() == old(self).spec_written().push(
                    spec_request_text(req),
                ),
    {
        match self.do_send_request(None, method_name, params) {
            Ok(future) => {
                future.complete(Ok(JsonValue::Null));
                Ok(())
            },
            Err(e) => Err(e),
        }
    }
}

/// A stub future: client-request correlation is not yet provided, so it
/// holds no value and reports itself complete.
pub struct Future<T>(pub Option<T>);

impl<T> Future<T> {
    /// Whether the future has completed; the stub always has.
    pub fn is_completed(&self) -> (r: bool)
        ensures
            r,
    {
        true
    }

    /// Accepts a result; the stub discards it.
    pub fn complete(&self, _result: T) {
    }
}

// ------------------------------------------------------------------
// MapRequestHandler
// ------------------------------------------------------------------

/// A registered method body: computes the method's outcome on the given
/// params. `Err` is a params-decoding failure carrying the decoder's
/// message; `Ok` is the service result to put on the wire.
pub trait RpcMethodHandler {
    fn invoke_method(&mut self, params: RequestParams) -> Result<
        ServiceResult<JsonValue, JsonValue>,
        String,
    >;
}

/// How a registered method completes: a request (or raw handler) answers
/// with its result; a notification completes quietly on success.
#[derive(Clone, Copy, Debug, PartialEq, Eq, Structural)]
pub enum MethodKind {
    Request,
    Notification,
}

/// The registration at `name`, taking the earliest entry: the kind it was
/// registered under and the handler.
pub open spec fn spec_lookup_method<M>(
    entries: Seq<(String, MethodKind, M)>,
    name: Seq<char>,
) -> Option<(MethodKind, M)>
    decreases entries.len(),
{
    if entries.len() == 0 {
        Option::None
    } else if entries[0].0@ == name {
        Option::Some((entries[0].1, entries[0].2))
    } else {
        spec_lookup_method(entries.drop_first(), name)
    }
}

/// Whether `r` is how a request method's outcome `out` completes a request
/// with id `id`: a decoding failure becomes the invalid-params error, a
/// service result goes onto the wire.
pub open spec fn spec_request_invocation_completion(
    id: Option<RpcId>,
    out: Result<ServiceResult<JsonValue, JsonValue>, String>,
    r: Option<JsonRpcResponse>,
) -> bool {
    match out {
        Ok(svc) => spec_completion(id, Option::Some(spec_from_service_result(svc)), r),
        Err(msg) => exists|e: RpcError|
            spec_is_invalid_params_error(e, msg@) && spec_completion(
                id,
                Option::Some(ResponseResult::Error(e)),
                r,
            ),
    }
}

/// Whether `r` is how a notification method's outcome `out` completes: quiet
/// on success, the invalid-params error on a decoding failure.
pub open spec fn spec_notification_invocation_completion(
    id: Option<RpcId>,
    out: Result<ServiceResult<JsonValue, JsonValue>, String>,
    r: Option<JsonRpcResponse>,
) -> bool {
    match out {
        Ok(svc) => r is None,
        Err(msg) => exists|e: RpcError|
            spec_is_invalid_params_error(e, msg@) && spec_completion(
                id,
                Option::Some(ResponseResult::Error(e)),
                r,
            ),
    }
}

/// A dispatch table keyed by method name: routes each inbound request to
/// the handler its method was registered with; unknown methods complete
/// with the method-not-found error.
pub struct MapRequestHandler<M: RpcMethodHandler> {
    pub method_handlers: Vec<(String, MethodKind, M)>,
}

impl<M: RpcMethodHandler> MapRequestHandler<M> {
    /// An empty dispatch table.
    pub fn new() -> (r: MapRequestHandler<M>)
        ensures
            r.method_handlers@.len() == 0,
    {
        MapRequestHandler { method_handlers: Vec::new() }
    }

    fn add_entry(&mut self, method_name: &str, kind: MethodKind, method_handler: M)
        ensures
            spec_lookup_method(final(self).method_handlers@, method_name@) == Option::Some(
                (kind, method_handler),
            ),
            forall|other: Seq<char>|
                other != method_name@ ==> #[trigger] spec_lookup_method(
                    final(self).method_handlers@,
                    other,
                ) == spec_lookup_method(old(self).method_handlers@, other),
    {
        self.method_handlers.insert(0, (String::from_str(method_name), kind, method_handler));
        proof {
            assert(self.method_handlers@.drop_first() =~= old(self).method_handlers@);
        }
    }

    /// Registers a request method: its result becomes the response.
    pub fn add_request(&mut self, method_name: &str, method_handler: M)
        ensures
            spec_lookup_method(final(self).method_handlers@, method_name@) == Option::Some(
                (MethodKind::Request, method_handler),
            ),
            forall|other: Seq<char>|
                other != method_name@ ==> #[trigger] spec_lookup_method(
                    final(self).method_handlers@,
                    other,
                ) == spec_lookup_method(old(self).method_handlers@, other),
    {
        self.add_entry(method_name, MethodKind::Request, method_handler);
    }

    /// Registers a notification method: its result is discarded and nothing
    /// is written on success.
    pub fn add_notification(&mut self, method_name: &str, method_handler: M)
        ensures
            spec_lookup_method(final(self).method_handlers@, method_name@) == Option::Some(
                (MethodKind::Notification, method_handler),
            ),
            forall|other: Seq<char>|
                other != method_name@ ==> #[trigger] spec_lookup_method(
                    final(self).method_handlers@,
                    other,
                ) == spec_lookup_method(old(self).method_handlers@, other),
    {
        self.add_entry(method_name, MethodKind::Notification, method_handler);
    }

    /// Registers a raw handler on the request path: it computes the
    /// response payload itself (asynchronous completion belongs to the
    /// program around the library, which may implement [`RequestHandler`]
    /// directly).
    pub fn add_rpc_handler(&mut self, method_name: &str, method_handler: M)
        ensures
            spec_lookup_method(final(self).method_handlers@, method_name@) == Option::Some(
                (MethodKind::Request, method_handler),
            ),
            forall|other: Seq<char>|
                other != method_name@ ==> #[trigger] spec_lookup_method(
                    final(self).method_handlers@,
                    other,
                ) == spec_lookup_method(old(self).method_handlers@, other),
    {
        self.add_entry(method_name, MethodKind::Request, method_handler);
    }

    /// The index of the earliest entry registered under `method_name`.
    fn find_method_index(&self, method_name: &str) -> (r: Option<usize>)
        ensures
            match r {
                Option::None => spec_lookup_method(self.method_handlers@, method_name@) is None,
                Option::Some(i) => i < self.method_handlers@.len()
                    && self.method_handlers@[i as int].0@ == method_name@ && spec_lookup_method(
                    self.method_handlers@,
                    method_name@,
                ) == Option::Some(
                    (self.method_handlers@[i as int].1, self.method_handlers@[i as int].2),
                ),
            },
    {
        let ghost entries = self.method_handlers@;
        let n = self.method_handlers.len();
        let mut i: usize = 0;
        proof {
            assert(entries.skip(0) =~= entries);
        }
        while i < n
            invariant
                i <= n,
                n == self.method_handlers@.len(),
                entries == self.method_handlers@,
                spec_lookup_method(entries, method_name@) == spec_lookup_method(
                    entries.skip(i as int),
                    method_name@,
                ),
            decreases n - i,
        {
            let found = str_eq_ref(&self.method_handlers[i].0, method_name);
            proof {
                assert(entries.skip(i as int)[0] == entries[i as int]);
                assert(entries.skip(i as int).drop_first() =~= entries.skip(i + 1 as int));
            }
            if found {
                return Some(i);
            }
            i = i + 1;
        }
        None
    }

    /// Routes one invocation: the registered handler's outcome completes
    /// the completable under its registration kind; an unknown method
    /// completes with the method-not-found error.
    fn do_invoke_method(
        &mut self,
        method_name: &str,
        completable: ResponseCompletable,
        request_params: RequestParams,
    ) -> (r: Option<JsonRpcResponse>)
        ensures
            exists|result: Option<ResponseResult>| spec_completion(completable.id, result, r),
            final(self).method_handlers@.len() == old(self).method_handlers@.len(),
            forall|j: int|
                0 <= j < old(self).method_handlers@.len()
                    ==> #[trigger] final(self).method_handlers@[j].0
                    == old(self).method_handlers@[j].0
                    && final(self).method_handlers@[j].1 == old(self).method_handlers@[j].1,
            match spec_lookup_method(old(self).method_handlers@, method_name@) {
                Option::None => exists|e: RpcError|
                    spec_is_method_not_found_error(e) && spec_completion(
                        completable.id,
                        Option::Some(ResponseResult::Error(e)),
                        r,
                    ),
                Option::Some(entry) => match entry.0 {
                    MethodKind::Request => exists|
                        out: Result<ServiceResult<JsonValue, JsonValue>, String>,
                    | #[trigger] spec_request_invocation_completion(completable.id, out, r),
                    MethodKind::Notification => exists|
                        out: Result<ServiceResult<JsonValue, JsonValue>, String>,
                    | #[trigger] spec_notification_invocation_completion(completable.id, out, r),
                },
            },
    {
        let found = self.find_method_index(method_name);
        let i = match found {
            Some(i) => i,
            None => {
                let r = completable.complete_with_error(error_JSON_RPC_MethodNotFound());
                return r;
            },
        };
        let entry = self.method_handlers.remove(i);
        let (entry_name, kind, mut handler) = entry;
        let out = handler.invoke_method(request_params);
        self.method_handlers.insert(i, (entry_name, kind, handler));
        let r = match kind {
            MethodKind::Request => {
                match out {
                    Ok(svc) => {
                        let rr = completable.complete(
                            Some(ResponseResult::from_service_result(svc)),
                        );
                        proof {
                            assert(spec_request_invocation_completion(
                                completable.id,
                                Ok::<ServiceResult<JsonValue, JsonValue>, String>(svc),
                                rr,
                            ));
                        }
                        rr
                    },
                    Err(msg) => {
                        let rr = completable.complete_with_error(
                            error_JSON_RPC_InvalidParams(msg.as_str()),
                        );
                        proof {
                            assert(spec_request_invocation_completion(
                                completable.id,
                                Err::<ServiceResult<JsonValue, JsonValue>, String>(msg),
                                rr,
                            ));
                        }
                        rr
                    },
                }
            },
            MethodKind::Notification => {
                match out {
                    Ok(svc) => {
                        let rr = completable.complete(None);
                        proof {
                            assert(spec_notification_invocation_completion(
                                completable.id,
                                Ok::<ServiceResult<JsonValue, JsonValue>, String>(svc),
                                rr,
                            ));
                        }
                        rr
                    },
                    Err(msg) => {
                        let rr = completable.complete_with_error(
                            error_JSON_RPC_InvalidParams(msg.as_str()),
                        );
                        proof {
                            assert(spec_notification_invocation_completion(
                                completable.id,
                                Err::<ServiceResult<JsonValue, JsonValue>, String>(msg),
                                rr,
                            ));
                        }
                        rr
                    },
                }
            },
        };
        r
    }
}

/// Whether the `String` holds the same characters as the `&str`.
fn str_eq_ref(a: &String, b: &str) -> (r: bool)
    ensures
        r == (a@ == b@),
{
    crate::json::str_eq(a.as_str(), b)
}

impl<M: RpcMethodHandler> RequestHandler for MapRequestHandler<M> {
    /// The table's dispatch relation: an unregistered method completes with
    /// the method-not-found error; a registered one completes under its
    /// registration kind with some outcome of its handler.
    open spec fn dispatch_rel(
        &self,
        method: Seq<char>,
        params: RequestParams,
        id: Option<RpcId>,
        r: Option<JsonRpcResponse>,
    ) -> bool {
        match spec_lookup_method(self.method_handlers@, method) {
            Option::None => exists|e: RpcError|
                spec_is_method_not_found_error(e) && spec_completion(
                    id,
                    Option::Some(ResponseResult::Error(e)),
                    r,
                ),
            Option::Some(entry) => match entry.0 {
                MethodKind::Request => exists|
                    out: Result<ServiceResult<JsonValue, JsonValue>, String>,
                | #[trigger] spec_request_invocation_completion(id, out, r),
                MethodKind::Notification => exists|
                    out: Result<ServiceResult<JsonValue, JsonValue>, String>,
                | #[trigger] spec_notification_invocation_completion(id, out, r),
            },
        }
    }

    fn handle_request(
        &mut self,
        request_method: &str,
        request_params: RequestParams,
        completable: ResponseCompletable,
    ) -> (r: Option<JsonRpcResponse>)
        ensures
            final(self).method_handlers@.len() == old(self).method_handlers@.len(),
            forall|j: int|
                0 <= j < old(self).method_handlers@.len()
                    ==> #[trigger] final(self).method_handlers@[j].0
                    == old(self).method_handlers@[j].0
                    && final(self).method_handlers@[j].1 == old(self).method_handlers@[j].1,
            match spec_lookup_method(old(self).method_handlers@, request_method@) {
                Option::None => exists|e: RpcError|
                    spec_is_method_not_found_error(e) && spec_completion(
                        completable.id,
                        Option::Some(ResponseResult::Error(e)),
                        r,
                    ),
                Option::Some(entry) => match entry.0 {
                    MethodKind::Request => exists|
                        out: Result<ServiceResult<JsonValue, JsonValue>, String>,
                    | #[trigger] spec_request_invocation_completion(completable.id, out, r),
                    MethodKind::Notification => exists|
                        out: Result<ServiceResult<JsonValue, JsonValue>, String>,
                    | #[trigger] spec_notification_invocation_completion(completable.id, out, r),
                },
            },
    {
        self.do_invoke_method(request_method, completable, request_params)
    }
}

// ------------------------------------------------------------------
// The read loop
// ------------------------------------------------------------------

/// A prefix of a prefix is a prefix.
proof fn lemma_prefix_transitive(a: Seq<Seq<char>>, b: Seq<Seq<char>>, c: Seq<Seq<char>>)
    requires
        a.is_prefix_of(b),
        b.is_prefix_of(c),
    ensures
        a.is_prefix_of(c),
{
    assert forall|i: int| 0 <= i < a.len() implies c.subrange(0, a.len() as int)[i] == a[i] by {
        assert(a[i] == b.subrange(0, a.len() as int)[i]);
        assert(b[i] == c.subrange(0, b.len() as int)[i]);
    }
    assert(c.subrange(0, a.len() as int) =~= a);
}

/// Reads messages and hands each to the endpoint until the reader fails;
/// the first read error shuts the endpoint down and is returned. Nothing
/// already written is lost: the messages written before the loop stand, in
/// order, at the front of the final output trace.
pub fn run_message_read_loop<H: RequestHandler, W: MessageWriter, R: MessageReader>(
    endpoint: &mut Endpoint<H, W>,
    input: &mut R,
) -> (r: Result<(), ErrorMessage>)
    requires
        !old(endpoint).spec_is_shutdown(),
    ensures
        final(endpoint).spec_is_shutdown(),
        old(endpoint).spec_written().is_prefix_of(final(endpoint).spec_written()),
        r is Err,
{
    proof {
        assert(old(endpoint).spec_written().subrange(
            0,
            old(endpoint).spec_written().len() as int,
        ) =~= old(endpoint).spec_written());
    }
    loop
        invariant
            !endpoint.spec_is_shutdown(),
            old(endpoint).spec_written().is_prefix_of(endpoint.spec_written()),
        decreases input.remaining(),
    {
        let message = match input.read_next() {
            Ok(m) => m,
            Err(error) => {
                endpoint.shutdown();
                return Err(error);
            },
        };
        let ghost written_before = endpoint.spec_written();
        endpoint.handle_message(message.as_str());
        proof {
            lemma_prefix_transitive(
                old(endpoint).spec_written(),
                written_before,
                endpoint.spec_written(),
            );
        }
    }
}

// ------------------------------------------------------------------
// The completion laws
// ------------------------------------------------------------------

/// Exactly one response is produced per completion, unless the completion
/// carries no result (a notification that was handled quietly): a response
/// is emitted if and only if a result was supplied.
pub proof fn lemma_exactly_one_response(
    id: Option<RpcId>,
    result: Option<ResponseResult>,
    r: Option<JsonRpcResponse>,
)
    requires
        spec_completion(id, result, r),
    ensures
        r is Some <==> result is Some,
{
}

/// An emitted response always answers under the inbound id: the request's
/// own id when it had one, and `Null` when no valid id was available.
pub proof fn lemma_response_id_matches(
    id: Option<RpcId>,
    result: Option<ResponseResult>,
    r: Option<JsonRpcResponse>,
)
    requires
        spec_completion(id, result, r),
        r is Some,
    ensures
        match id {
            Option::Some(i) => r->Some_0.id == i,
            Option::None => r->Some_0.id == RpcId::Null,
        },
{
}

} // verus!
