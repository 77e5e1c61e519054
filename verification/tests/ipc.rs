use serde_json::Value;
use utsh::ipc::{
    client_line_step, client_step, dispatch, message_request, message_step, notification,
    server_request, ClientStep, IpcClientError, RpcError, RpcRequest, RpcResponse, WireMessage,
    ERROR_INTERNAL, ERROR_METHOD_NOT_FOUND, JSONRPC_VERSION,
};

#[test]
fn errors_and_messages() {
    let e = RpcError::method_not_found("no_such");
    assert_eq!(e.code, ERROR_METHOD_NOT_FOUND);
    assert_eq!(e.message, "method not found: no_such");
    let i = RpcError::internal("boom");
    assert_eq!(i.code, ERROR_INTERNAL);
    assert_eq!(i.message, "internal error: boom");
}

#[test]
fn requests_and_notifications() {
    let r = RpcRequest::new_request(1, "plugin_install".to_string(), Value::Null);
    assert!(!r.is_notification());
    assert_eq!(r.jsonrpc, JSONRPC_VERSION);
    let n = notification("config_changed", Value::Null);
    assert!(n.is_notification());
    assert_eq!(n.method, "config_changed");
}

#[test]
fn dispatch_answers_requests_only() {
    assert!(dispatch(None, "echo", Some(Ok(Value::Null))).is_none());
    let ok = dispatch(Some(7), "echo", Some(Ok(Value::Bool(true)))).unwrap();
    assert_eq!(ok.id, 7);
    assert_eq!(ok.result, Some(Value::Bool(true)));
    let missing = dispatch(Some(8), "no_such", None).unwrap();
    assert_eq!(missing.error.unwrap().code, ERROR_METHOD_NOT_FOUND);
    let failed = dispatch(Some(9), "x", Some(Err(RpcError::internal("e")))).unwrap();
    assert!(failed.result.is_none());
    let r = RpcResponse::ok(1, Value::Null);
    assert!(r.error.is_none());
}

#[test]
fn client_steps() {
    assert!(matches!(client_step(3, Some(2), None, None), ClientStep::Skip));
    assert!(matches!(client_step(3, None, None, None), ClientStep::Skip));
    match client_step(3, Some(3), Some((None, None)), None) {
        ClientStep::Failed(IpcClientError::Remote { code, message }) => {
            assert_eq!(code, -1);
            assert_eq!(message, "unknown");
        }
        _ => panic!("expected a remote error"),
    }
    match client_step(3, Some(3), None, Some(Value::Bool(false))) {
        ClientStep::Answer(v) => assert_eq!(v, Some(Value::Bool(false))),
        _ => panic!("expected an answer"),
    }
}

#[test]
fn server_reads_request_lines() {
    let (id, method, params) =
        server_request("  {\"jsonrpc\":\"2.0\",\"id\":7,\"method\":\"echo\",\"params\":{\"x\":1}}\n").unwrap();
    assert_eq!(id, 7);
    assert_eq!(method, "echo");
    assert_eq!(params.unwrap()["x"].as_i64(), Some(1));
    // a notification, a blank line and a line that is not JSON get no answer
    assert!(server_request("{\"jsonrpc\":\"2.0\",\"method\":\"progress_update\"}").is_none());
    assert!(server_request("   ").is_none());
    assert!(server_request("not json").is_none());
    // a request without a method or parameters
    let (id, method, params) = server_request("{\"id\":3}").unwrap();
    assert_eq!(id, 3);
    assert_eq!(method, "");
    assert!(params.is_none());
    // an id that is not an unsigned integer makes a notification
    assert!(server_request("{\"id\":-1,\"method\":\"m\"}").is_none());
}

#[test]
fn client_reads_response_lines() {
    match client_line_step(5, "{\"jsonrpc\":\"2.0\",\"id\":5,\"result\":[1,2]}") {
        ClientStep::Answer(Some(v)) => assert_eq!(v[1].as_i64(), Some(2)),
        _ => panic!("expected an answer"),
    }
    match client_line_step(5, "{\"id\":5,\"error\":{\"code\":-32601,\"message\":\"method not found: x\"}}") {
        ClientStep::Failed(IpcClientError::Remote { code, message }) => {
            assert_eq!(code, ERROR_METHOD_NOT_FOUND);
            assert_eq!(message, "method not found: x");
        }
        _ => panic!("expected a remote error"),
    }
    match client_line_step(5, "{\"id\":5,\"error\":{}}") {
        ClientStep::Failed(IpcClientError::Remote { code, message }) => {
            assert_eq!(code, -1);
            assert_eq!(message, "unknown");
        }
        _ => panic!("expected a remote error"),
    }
    assert!(matches!(client_line_step(5, "{\"id\":4,\"result\":1}"), ClientStep::Skip));
    assert!(matches!(client_line_step(5, "{\"method\":\"progress_update\"}"), ClientStep::Skip));
    assert!(matches!(client_line_step(5, "{\"id\":5}"), ClientStep::Answer(None)));
    assert!(matches!(
        client_line_step(5, "garbage"),
        ClientStep::Failed(IpcClientError::Protocol(_))
    ));
}

#[test]
fn message_decisions() {
    let m = WireMessage {
        id: Some(2),
        method: None,
        has_error: false,
        error_code: None,
        error_message: None,
        params: Some(Value::Bool(true)),
        result: None,
    };
    let (id, method, params) = message_request(m).unwrap();
    assert_eq!((id, method.as_str(), params), (2, "", Some(Value::Bool(true))));
    let e = WireMessage {
        id: Some(2),
        method: None,
        has_error: true,
        error_code: Some(-32603),
        error_message: None,
        params: None,
        result: Some(Value::Null),
    };
    match message_step(2, e) {
        ClientStep::Failed(IpcClientError::Remote { code, message }) => {
            assert_eq!(code, ERROR_INTERNAL);
            assert_eq!(message, "unknown");
        }
        _ => panic!("expected a remote error"),
    }
}
