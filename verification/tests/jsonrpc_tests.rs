use copilot_sdk::error::CopilotError;
use copilot_sdk::json::{JsonNumber, JsonValue};
use copilot_sdk::jsonrpc::{
    classify_message, method_not_found, params_or_null, respond_to_request, take_reader, JsonRpcError,
    JsonRpcId, JsonRpcRequest, JsonRpcResponse, MessageKind, ReadEvent, ReadStep, RpcState, WaitOutcome,
    CONNECTION_CLOSED_CODE,
};
use copilot_sdk::strmap::StrMap;
use std::time::Duration;

fn object(members: Vec<(&str, JsonValue)>) -> JsonValue {
    let mut m = StrMap::new();
    for (k, v) in members {
        m.insert(k.to_string(), v);
    }
    JsonValue::Object(m)
}

fn num(n: u64) -> JsonValue {
    JsonValue::Number(JsonNumber::PosInt(n))
}

#[test]
fn test_json_rpc_id_from_i64() {
    let id: JsonRpcId = 42i64.into();
    assert_eq!(id, JsonRpcId::Num(42));
}

#[test]
fn test_json_rpc_id_from_string() {
    let id: JsonRpcId = "test-id".into();
    assert_eq!(id, JsonRpcId::Str("test-id".to_string()));
}

#[test]
fn test_json_rpc_error_constants() {
    assert_eq!(JsonRpcError::PARSE_ERROR, -32700);
    assert_eq!(JsonRpcError::INVALID_REQUEST, -32600);
    assert_eq!(JsonRpcError::METHOD_NOT_FOUND, -32601);
    assert_eq!(JsonRpcError::INVALID_PARAMS, -32602);
    assert_eq!(JsonRpcError::INTERNAL_ERROR, -32603);
}

#[test]
fn test_request_is_notification() {
    let request = JsonRpcRequest::notification("method", None);
    assert!(request.is_notification());

    let request = JsonRpcRequest::new("method", None, Some(JsonRpcId::Num(1)));
    assert!(!request.is_notification());
}

#[test]
fn request_carries_version_method_params_and_id() {
    let params = object(vec![("key", JsonValue::Str("value".to_string()))]);
    let request = JsonRpcRequest::new("test_method", Some(params.clone()), Some(JsonRpcId::Num(1)));
    assert_eq!(request.jsonrpc, "2.0");
    assert_eq!(request.method, "test_method");
    assert_eq!(request.params, Some(params));
    assert_eq!(request.id, Some(JsonRpcId::Num(1)));
}

#[test]
fn json_rpc_id_from_owned_string() {
    let id: JsonRpcId = String::from("abc").into();
    assert_eq!(id, JsonRpcId::Str("abc".to_string()));
}

#[test]
fn responses_success_and_error() {
    let ok = JsonRpcResponse::success(JsonRpcId::Num(1), object(vec![("result", JsonValue::Str("ok".into()))]));
    assert_eq!(ok.jsonrpc, "2.0");
    assert_eq!(ok.id, Some(JsonRpcId::Num(1)));
    assert!(!ok.is_error());
    assert!(ok.error.is_none());

    let err = JsonRpcResponse::error(JsonRpcId::Num(1), JsonRpcError::new(-32600, "Invalid Request"));
    assert!(err.is_error());
    assert!(err.result.is_none());
    let e = err.error.unwrap();
    assert_eq!(e.code, -32600);
    assert_eq!(e.message, "Invalid Request");
    assert!(e.data.is_none());

    let with = JsonRpcError::with_data(1, "m", JsonValue::Bool(true));
    assert_eq!(with.data, Some(JsonValue::Bool(true)));
}

#[test]
fn classify_response_call_and_other() {
    let response = object(vec![("jsonrpc", JsonValue::Str("2.0".into())), ("id", num(3)), ("result", JsonValue::Null)]);
    assert_eq!(classify_message(&response), MessageKind::Response);

    let error_response = object(vec![("id", num(3)), ("error", object(vec![]))]);
    assert_eq!(classify_message(&error_response), MessageKind::Response);

    // A null id is no answer; with no method either, the message is dropped.
    let null_id = object(vec![("id", JsonValue::Null), ("result", num(1))]);
    assert_eq!(classify_message(&null_id), MessageKind::Ignored);

    // A method makes it a call, even with an id and a result.
    let call = object(vec![("id", num(3)), ("result", num(1)), ("method", JsonValue::Str("x".into()))]);
    assert_eq!(classify_message(&call), MessageKind::Call);

    let notification = object(vec![("method", JsonValue::Str("session.event".into()))]);
    assert_eq!(classify_message(&notification), MessageKind::Call);

    // An id without result or error is no answer.
    let bare = object(vec![("id", num(3))]);
    assert_eq!(classify_message(&bare), MessageKind::Ignored);

    assert_eq!(classify_message(&JsonValue::Array(vec![])), MessageKind::Ignored);
}

#[test]
fn params_default_to_null() {
    assert_eq!(params_or_null(None), JsonValue::Null);
    assert_eq!(params_or_null(Some(num(7))), num(7));
}

#[test]
fn request_without_handler_gets_method_not_found() {
    let e = method_not_found("foo.bar");
    assert_eq!(e.code, JsonRpcError::METHOD_NOT_FOUND);
    assert_eq!(e.message, "Method not found: foo.bar");

    let r = respond_to_request(Some(JsonRpcId::Str("a".into())), "foo.bar", None).unwrap();
    assert_eq!(r.id, Some(JsonRpcId::Str("a".into())));
    assert!(r.result.is_none());
    let e = r.error.unwrap();
    assert_eq!(e.code, -32601);
    assert_eq!(e.message, "Method not found: foo.bar");
}

#[test]
fn request_with_handler_gets_its_answer() {
    let r = respond_to_request(Some(JsonRpcId::Num(5)), "m", Some(Ok(num(1)))).unwrap();
    assert_eq!(r.id, Some(JsonRpcId::Num(5)));
    assert_eq!(r.result, Some(num(1)));
    assert!(r.error.is_none());

    let r = respond_to_request(Some(JsonRpcId::Num(5)), "m", Some(Err(JsonRpcError::new(-1, "bad")))).unwrap();
    assert!(r.result.is_none());
    assert_eq!(r.error.unwrap().message, "bad");

    assert!(respond_to_request(None, "m", Some(Ok(num(1)))).is_none());
}

#[test]
fn requests_get_increasing_ids_and_answers_reach_their_callers() {
    let mut st: RpcState<&str> = RpcState::new();
    assert!(!st.is_running());
    assert!(!st.start());
    assert!(st.start());
    assert!(st.is_running());

    let r1 = st.begin_request("first", None, "caller-1");
    let r2 = st.begin_request("second", Some(num(2)), "caller-2");
    assert_eq!(r1.id, Some(JsonRpcId::Num(1)));
    assert_eq!(r2.id, Some(JsonRpcId::Num(2)));
    assert_eq!(r2.method, "second");
    assert_eq!(st.pending_len(), 2);

    // The answer to request 2 goes to caller 2, and only once.
    let d = st.handle_response(JsonRpcResponse::success(JsonRpcId::Num(2), num(20))).unwrap();
    assert_eq!(d.id, 2);
    assert_eq!(d.sender, "caller-2");
    assert_eq!(d.outcome.unwrap(), num(20));
    assert!(!st.is_pending(2));
    assert!(st.is_pending(1));
    assert!(st.handle_response(JsonRpcResponse::success(JsonRpcId::Num(2), num(20))).is_none());

    // An answer with a string id, or with no pending request, is dropped.
    assert!(st.handle_response(JsonRpcResponse::success(JsonRpcId::Str("1".into()), num(1))).is_none());
    assert!(st.handle_response(JsonRpcResponse::success(JsonRpcId::Num(99), num(1))).is_none());
    assert_eq!(st.pending_len(), 1);

    // An error answer goes to the caller as the error.
    let d = st.handle_response(JsonRpcResponse::error(JsonRpcId::Num(1), JsonRpcError::new(7, "no"))).unwrap();
    assert_eq!(d.sender, "caller-1");
    let e = d.outcome.unwrap_err();
    assert_eq!(e.code, 7);
    assert_eq!(e.message, "no");
    assert_eq!(st.pending_len(), 0);
}

#[test]
fn answer_without_result_is_null() {
    let mut st: RpcState<u8> = RpcState::new();
    let r = st.begin_request("m", None, 1);
    let id = match r.id {
        Some(JsonRpcId::Num(n)) => n,
        _ => panic!("numeric id expected"),
    };
    let response = JsonRpcResponse { jsonrpc: "2.0".into(), id: Some(JsonRpcId::Num(id)), result: None, error: None };
    let d = st.handle_response(response).unwrap();
    assert_eq!(d.outcome.unwrap(), JsonValue::Null);
}

#[test]
fn shut_down_fails_every_pending_request_once() {
    let mut st: RpcState<u32> = RpcState::new();
    st.start();
    for caller in 0..5u32 {
        st.begin_request("m", None, caller);
    }
    let failed = st.shut_down();
    assert!(!st.is_running());
    assert_eq!(st.pending_len(), 0);
    assert_eq!(failed.len(), 5);
    let mut callers: Vec<u32> = failed.iter().map(|d| d.sender).collect();
    callers.sort();
    assert_eq!(callers, vec![0, 1, 2, 3, 4]);
    for d in &failed {
        let e = d.outcome.as_ref().unwrap_err();
        assert_eq!(e.code, CONNECTION_CLOSED_CODE);
        assert_eq!(e.code, -32801);
        assert_eq!(e.message, "Connection closed");
        assert_eq!(d.sender as i64 + 1, d.id);
    }
    assert!(st.shut_down().is_empty());
}

#[test]
fn finishing_a_request() {
    let mut st: RpcState<u8> = RpcState::new();
    st.begin_request("a", None, 1);
    st.begin_request("b", None, 2);
    st.begin_request("c", None, 3);

    assert_eq!(st.finish_request(1, WaitOutcome::Reply(Ok(num(4))), Duration::from_secs(1)).unwrap(), num(4));

    match st.finish_request(1, WaitOutcome::Reply(Err(JsonRpcError::with_data(-5, "boom", num(9)))), Duration::from_secs(1)) {
        Err(CopilotError::JsonRpc { code, message, data }) => {
            assert_eq!(code, -5);
            assert_eq!(message, "boom");
            assert_eq!(data, Some(num(9)));
        },
        other => panic!("unexpected {:?}", other),
    }

    assert!(st.is_pending(2));
    assert!(matches!(st.finish_request(2, WaitOutcome::ChannelClosed, Duration::from_secs(1)), Err(CopilotError::ConnectionClosed)));
    assert!(!st.is_pending(2));

    match st.finish_request(3, WaitOutcome::TimedOut, Duration::from_millis(250)) {
        Err(CopilotError::Timeout(t)) => assert_eq!(t, Duration::from_millis(250)),
        other => panic!("unexpected {:?}", other),
    }
    assert!(!st.is_pending(3));

    st.begin_request("d", None, 4);
    assert_eq!(st.abandon_request(4), Some(4));
    assert_eq!(st.abandon_request(4), None);
}

#[test]
fn reader_can_be_taken_once() {
    let mut slot = Some(17u8);
    assert_eq!(take_reader(&mut slot).unwrap(), 17);
    match take_reader(&mut slot) {
        Err(CopilotError::InvalidConfig(m)) => assert_eq!(m, "Reader already taken or client already started"),
        other => panic!("unexpected {:?}", other),
    }
}

#[test]
fn read_loop_steps() {
    let mut st: RpcState<u8> = RpcState::new();
    st.start();
    st.begin_request("a", None, 7);
    st.begin_request("b", None, 8);

    assert!(matches!(st.after_read(ReadEvent::Message), ReadStep::Dispatch));
    assert!(matches!(st.after_read(ReadEvent::Failed), ReadStep::ReadOn));
    assert!(st.is_running());
    assert_eq!(st.pending_len(), 2);

    match st.after_read(ReadEvent::Closed) {
        ReadStep::End(failed) => {
            assert_eq!(failed.len(), 2);
            let mut callers: Vec<u8> = failed.iter().map(|d| d.sender).collect();
            callers.sort();
            assert_eq!(callers, vec![7, 8]);
            for d in &failed {
                assert_eq!(d.outcome.as_ref().unwrap_err().code, -32801);
            }
        },
        _ => panic!("a closed connection ends the loop"),
    }
    assert!(!st.is_running());
    assert_eq!(st.pending_len(), 0);

    match st.after_read(ReadEvent::Failed) {
        ReadStep::End(failed) => assert!(failed.is_empty()),
        _ => panic!("a failed read ends the loop of a stopped client"),
    }
}

fn text(s: &str) -> JsonValue {
    JsonValue::Str(s.to_string())
}

#[test]
fn test_json_rpc_request_serialization() {
    let request = JsonRpcRequest::new("test_method", Some(object(vec![("key", text("value"))])), Some(JsonRpcId::Num(1)));

    let json = request.into_json();
    assert_eq!(json.get("jsonrpc"), Some(&text("2.0")));
    assert_eq!(json.get("method"), Some(&text("test_method")));
    assert_eq!(json.get("params").unwrap().get("key"), Some(&text("value")));
    assert_eq!(json.get("id"), Some(&num(1)));
}

#[test]
fn test_json_rpc_notification_serialization() {
    let request = JsonRpcRequest::notification("notify_method", Some(JsonValue::Array(vec![num(1), num(2), num(3)])));

    let json = request.into_json();
    assert_eq!(json.get("jsonrpc"), Some(&text("2.0")));
    assert_eq!(json.get("method"), Some(&text("notify_method")));
    assert!(json.get("id").is_none());
}

#[test]
fn test_json_rpc_response_success() {
    let response = JsonRpcResponse::success(JsonRpcId::Num(1), object(vec![("result", text("ok"))]));

    let json = response.into_json();
    assert_eq!(json.get("jsonrpc"), Some(&text("2.0")));
    assert_eq!(json.get("id"), Some(&num(1)));
    assert_eq!(json.get("result").unwrap().get("result"), Some(&text("ok")));
    assert!(json.get("error").is_none());
}

#[test]
fn test_json_rpc_response_error() {
    let response = JsonRpcResponse::error(JsonRpcId::Num(1), JsonRpcError::new(-32600, "Invalid Request"));

    let json = response.into_json();
    assert_eq!(json.get("jsonrpc"), Some(&text("2.0")));
    assert_eq!(json.get("id"), Some(&num(1)));
    assert_eq!(json.get("error").unwrap().get("code"), Some(&JsonValue::Number(JsonNumber::NegInt(-32600))));
    assert_eq!(json.get("error").unwrap().get("message"), Some(&text("Invalid Request")));
}

#[test]
fn notification_fields() {
    let params = JsonValue::Array(vec![num(1), num(2), num(3)]);
    let request = JsonRpcRequest::notification("notify_method", Some(params.clone()));
    assert_eq!(request.jsonrpc, "2.0");
    assert_eq!(request.method, "notify_method");
    assert_eq!(request.params, Some(params.clone()));
    assert!(request.id.is_none());
    assert!(request.is_notification());

    let json = request.into_json();
    assert_eq!(json.get("params"), Some(&params));
    let without = JsonRpcRequest::notification("m", None).into_json();
    assert!(without.get("params").is_none());
    assert!(without.get("id").is_none());
}

#[test]
fn wire_ids_and_error_data() {
    let json = JsonRpcRequest::new("m", None, Some(JsonRpcId::Str("abc".to_string()))).into_json();
    assert_eq!(json.get("id"), Some(&text("abc")));
    let json = JsonRpcRequest::new("m", None, Some(JsonRpcId::Num(-7))).into_json();
    assert_eq!(json.get("id"), Some(&JsonValue::Number(JsonNumber::NegInt(-7))));
    let e = JsonRpcError::with_data(5, "bad", text("why")).into_json();
    assert_eq!(e.get("code"), Some(&num(5)));
    assert_eq!(e.get("data"), Some(&text("why")));
    assert!(JsonRpcError::new(5, "bad").into_json().get("data").is_none());
}
