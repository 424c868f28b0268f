use bedcode_mobile::handlers::{AuthEvent, AuthStage};
use bedcode_mobile::handlers::{AuthHandler, FileServiceHandler, SyncHandler, TerminalHandler};
use bedcode_mobile::message::{
    Message, RawPayload, TerminalAction, TerminalPayload, ACK_CODE_AUTH_FAILED, ACK_CODE_FAILURE,
    ACK_CODE_INVALID_REQUEST, ACK_CODE_SESSION_NOT_FOUND, ACK_CODE_SUCCESS, ACK_CODE_TIMEOUT,
};

fn raw(json: &str) -> RawPayload {
    RawPayload { json: json.to_string() }
}

#[test]
fn test_output_constructor_fields() {
    let msg = Message::output("sess-1", b"hello", true, 42);
    assert_eq!(msg.message_type(), Some("terminal"));
    assert!(msg.message_id().is_some_and(|id| !id.is_empty()));
    assert!(!msg.expect_response());
    assert_eq!(msg.token(), "");
    match msg {
        Message::Terminal {
            session_id,
            payload:
                TerminalPayload {
                    action: TerminalAction::Output { data, is_waiting, index, end_index, start_offset, end_offset },
                },
            ..
        } => {
            assert_eq!(session_id, "sess-1");
            assert_eq!(data, "aGVsbG8=");
            assert!(is_waiting);
            assert_eq!(index, 42);
            assert_eq!(end_index, None);
            assert_eq!(start_offset, None);
            assert_eq!(end_offset, None);
        }
        _ => panic!("expected terminal output message"),
    }
}

fn output_data(msg: Message) -> String {
    match msg {
        Message::Terminal { payload: TerminalPayload { action: TerminalAction::Output { data, .. } }, .. } => data,
        _ => panic!("expected output"),
    }
}

#[test]
fn test_output_base64_encoding() {
    assert_eq!(output_data(Message::output("s", b"hello world", false, 0)), "aGVsbG8gd29ybGQ=");
    assert_eq!(output_data(Message::output("s", b"", false, 0)), "");
    assert_eq!(output_data(Message::output("s", &[0x00, 0x01, 0x02, 0xff], false, 0)), "AAEC/w==");
}

#[test]
fn test_output_from_base64_passthrough() {
    let msg = Message::output_from_base64("s", "QUJDRA==", false, 7, Some(9));
    match msg {
        Message::Terminal {
            payload:
                TerminalPayload {
                    action: TerminalAction::Output { data, is_waiting, index, end_index, start_offset, end_offset },
                },
            ..
        } => {
            assert_eq!(data, "QUJDRA==");
            assert!(!is_waiting);
            assert_eq!(index, 7);
            assert_eq!(end_index, Some(9));
            assert_eq!(start_offset, None);
            assert_eq!(end_offset, None);
        }
        _ => panic!(),
    }
    let msg = Message::output_from_base64("s", "QUJDRA==", true, 1, None);
    match msg {
        Message::Terminal { payload: TerminalPayload { action: TerminalAction::Output { end_index, .. } }, .. } => {
            assert_eq!(end_index, None)
        }
        _ => panic!(),
    }
}

#[test]
fn test_input_constructor() {
    let msg = Message::input("sess-1", "ls", Some("ctrl+c"));
    assert_eq!(msg.message_type(), Some("terminal"));
    assert!(!msg.expect_response());
    match msg {
        Message::Terminal {
            session_id,
            payload: TerminalPayload { action: TerminalAction::Input { data, special_key } },
            ..
        } => {
            assert_eq!(session_id, "sess-1");
            assert_eq!(data, "ls");
            assert_eq!(special_key.as_deref(), Some("ctrl+c"));
        }
        _ => panic!(),
    }
    let msg = Message::input("sess-1", "echo hi", None);
    match msg {
        Message::Terminal { payload: TerminalPayload { action: TerminalAction::Input { special_key, .. } }, .. } => {
            assert_eq!(special_key, None)
        }
        _ => panic!(),
    }
}

#[test]
fn test_input_with_response() {
    let msg = Message::input_with_response("s", "y", None);
    assert!(msg.expect_response());
    match msg {
        Message::Terminal { payload: TerminalPayload { action: TerminalAction::Input { data, .. } }, .. } => {
            assert_eq!(data, "y")
        }
        _ => panic!(),
    }
}

#[test]
fn test_subscribe_start_seq() {
    let msg = Message::subscribe("s", Some(100));
    assert!(!msg.expect_response());
    match msg {
        Message::Terminal { payload: TerminalPayload { action: TerminalAction::Subscribe { start_seq } }, .. } => {
            assert_eq!(start_seq, Some(100))
        }
        _ => panic!(),
    }
    let msg = Message::subscribe("s", None);
    match msg {
        Message::Terminal { payload: TerminalPayload { action: TerminalAction::Subscribe { start_seq } }, .. } => {
            assert_eq!(start_seq, None)
        }
        _ => panic!(),
    }
}

#[test]
fn test_subscribe_with_response() {
    let msg = Message::subscribe_with_response("s", Some(5));
    assert!(msg.expect_response());
    match msg {
        Message::Terminal { payload: TerminalPayload { action: TerminalAction::Subscribe { start_seq } }, .. } => {
            assert_eq!(start_seq, Some(5))
        }
        _ => panic!(),
    }
}

#[test]
fn test_subscribe_response_with_request_id() {
    let msg = Message::subscribe_response_with_request_id("s", 10, 20, 3, "req-1");
    assert_eq!(msg.message_id(), Some("req-1"));
    assert!(!msg.expect_response());
    match msg {
        Message::Terminal {
            payload:
                TerminalPayload {
                    action: TerminalAction::SubscribeResponse { min_seq, max_seq, history_count, mode, min_offset, max_offset },
                },
            ..
        } => {
            assert_eq!(min_seq, 10);
            assert_eq!(max_seq, 20);
            assert_eq!(history_count, 3);
            assert_eq!(mode, None);
            assert_eq!(min_offset, None);
            assert_eq!(max_offset, None);
        }
        _ => panic!(),
    }
}

#[test]
fn test_subscribe_response_auto_id() {
    let msg = Message::subscribe_response("s", 1, 2, 0);
    assert!(msg.message_id().is_some_and(|id| !id.is_empty()));
    match msg {
        Message::Terminal {
            payload: TerminalPayload { action: TerminalAction::SubscribeResponse { min_seq, max_seq, history_count, .. } },
            ..
        } => {
            assert_eq!(min_seq, 1);
            assert_eq!(max_seq, 2);
            assert_eq!(history_count, 0);
        }
        _ => panic!(),
    }
}

#[test]
fn test_unsubscribe_variants() {
    let msg = Message::unsubscribe("s");
    assert!(!msg.expect_response());
    assert!(matches!(msg, Message::Terminal { payload: TerminalPayload { action: TerminalAction::Unsubscribe }, .. }));
    let msg = Message::unsubscribe_with_response("s");
    assert!(msg.expect_response());
    assert!(matches!(msg, Message::Terminal { payload: TerminalPayload { action: TerminalAction::Unsubscribe }, .. }));
    let msg = Message::unsubscribe_response("s");
    assert!(!msg.expect_response());
    assert!(msg.message_id().is_some_and(|id| !id.is_empty()));
    assert!(matches!(
        msg,
        Message::Terminal { payload: TerminalPayload { action: TerminalAction::UnsubscribeResponse }, .. }
    ));
    let msg = Message::unsubscribe_response_with_request_id("s", "req-2");
    assert_eq!(msg.message_id(), Some("req-2"));
    assert!(matches!(
        msg,
        Message::Terminal { payload: TerminalPayload { action: TerminalAction::UnsubscribeResponse }, .. }
    ));
}

#[test]
fn test_session_control_variants() {
    let msg = Message::session_control(raw(r#"{"type":"list_sessions"}"#), Some("s1"));
    assert_eq!(msg.message_type(), Some("session_control"));
    assert!(!msg.expect_response());
    match msg {
        Message::SessionControl { session_id, payload, .. } => {
            assert_eq!(session_id.as_deref(), Some("s1"));
            assert_eq!(payload.json, r#"{"type":"list_sessions"}"#);
        }
        _ => panic!(),
    }
    let msg = Message::session_control(raw(r#"{"type":"stop_session","session_id":"s9"}"#), None);
    match msg {
        Message::SessionControl { session_id, .. } => assert_eq!(session_id, None),
        _ => panic!(),
    }
    let msg = Message::session_control_with_response(raw("{}"), None);
    assert!(msg.expect_response());
}

#[test]
fn test_session_config_variants() {
    let msg = Message::session_config(raw(r#"{"type":"list_session_configs"}"#), Some("s1"));
    assert_eq!(msg.message_type(), Some("session_config"));
    assert!(!msg.expect_response());
    match msg {
        Message::SessionConfig { session_id, payload, .. } => {
            assert_eq!(session_id.as_deref(), Some("s1"));
            assert_eq!(payload.json, r#"{"type":"list_session_configs"}"#);
        }
        _ => panic!(),
    }
    let msg = Message::session_config_with_response(raw(r#"{"type":"list_quick_actions"}"#), None);
    assert!(msg.expect_response());
}

#[test]
fn test_auth_constructor() {
    let payload = raw(r#"{"stage":"verify_code","device_id":"dev-1"}"#);
    let msg = Message::auth(Some("s1".to_string()), payload.clone());
    assert_eq!(msg.message_type(), Some("auth"));
    assert!(!msg.expect_response());
    assert!(msg.message_id().is_some_and(|id| !id.is_empty()));
    match msg {
        Message::Auth { session_id, payload: got, .. } => {
            assert_eq!(session_id.as_deref(), Some("s1"));
            assert_eq!(got, payload);
        }
        _ => panic!(),
    }
    let msg = Message::auth(None, payload);
    match msg {
        Message::Auth { session_id, .. } => assert_eq!(session_id, None),
        _ => panic!(),
    }
}

#[test]
fn test_error_constructors() {
    let msg = Message::error("ERR_TIMEOUT", "operation timed out");
    assert_eq!(msg.message_type(), Some("error"));
    assert_eq!(msg.message_id(), None);
    assert!(!msg.expect_response());
    match msg {
        Message::Error { code, message, .. } => {
            assert_eq!(code, "ERR_TIMEOUT");
            assert_eq!(message, "operation timed out");
        }
        _ => panic!(),
    }
    let msg = Message::error_with_id("req-9", "ERR", "boom");
    assert_eq!(msg.message_id(), Some("req-9"));
    match msg {
        Message::Error { code, message, .. } => {
            assert_eq!(code, "ERR");
            assert_eq!(message, "boom");
        }
        _ => panic!(),
    }
}

#[test]
fn test_server_closed_constructor() {
    let msg = Message::server_closed("host exiting", true);
    assert_eq!(msg.message_type(), Some("server_closed"));
    assert_eq!(msg.message_id(), None);
    assert!(!msg.expect_response());
    match msg {
        Message::ServerClosed { reason, will_reconnect, token } => {
            assert_eq!(reason, "host exiting");
            assert!(will_reconnect);
            assert_eq!(token, "");
        }
        _ => panic!(),
    }
}

#[test]
fn test_client_disconnected_constructor() {
    let msg = Message::client_disconnected("phone", "user quit");
    assert_eq!(msg.message_type(), Some("client_disconnected"));
    assert_eq!(msg.message_id(), None);
    assert!(!msg.expect_response());
    match msg {
        Message::ClientDisconnected { device_name, reason, .. } => {
            assert_eq!(device_name, "phone");
            assert_eq!(reason, "user quit");
        }
        _ => panic!(),
    }
}

#[test]
fn test_session_event_constructor() {
    let session = raw(r#"{"id":"s1","name":"dev","status":"running"}"#);
    let msg = Message::session_event("created", session.clone(), "phone");
    assert_eq!(msg.message_type(), Some("session_event"));
    assert_eq!(msg.message_id(), None);
    assert!(!msg.expect_response());
    match msg {
        Message::SessionEvent { event_type, session: got, device_name, .. } => {
            assert_eq!(event_type, "created");
            assert_eq!(got, session);
            assert_eq!(device_name, "phone");
        }
        _ => panic!(),
    }
}

#[test]
fn test_ack_constructors() {
    let msg = Message::ack("req-1");
    assert_eq!(msg.message_type(), Some("ack"));
    assert_eq!(msg.message_id(), None);
    assert!(!msg.expect_response());
    match msg {
        Message::Ack { request_id, code, message, .. } => {
            assert_eq!(request_id, "req-1");
            assert_eq!(code, ACK_CODE_SUCCESS);
            assert_eq!(message, None);
        }
        _ => panic!(),
    }
    let msg = Message::ack_failure("req-1", ACK_CODE_TIMEOUT, "timed out");
    match msg {
        Message::Ack { request_id, code, message, .. } => {
            assert_eq!(request_id, "req-1");
            assert_eq!(code, ACK_CODE_TIMEOUT);
            assert_eq!(message.as_deref(), Some("timed out"));
        }
        _ => panic!(),
    }
}

#[test]
fn test_ack_code_constants() {
    assert_eq!(ACK_CODE_SUCCESS, 0);
    assert_eq!(ACK_CODE_FAILURE, 1);
    assert_eq!(ACK_CODE_AUTH_FAILED, 1001);
    assert_eq!(ACK_CODE_SESSION_NOT_FOUND, 1002);
    assert_eq!(ACK_CODE_INVALID_REQUEST, 1003);
    assert_eq!(ACK_CODE_TIMEOUT, 1004);
}

#[test]
fn test_sync_data_constructor() {
    let payload = raw(r#"{"type":"session_removed","session_id":"s9","session_name":"dev"}"#);
    let msg = Message::sync_data(payload.clone());
    assert_eq!(msg.message_type(), Some("sync_data"));
    assert_eq!(msg.message_id(), None);
    assert!(!msg.expect_response());
    match msg {
        Message::SyncData { payload: got, .. } => assert_eq!(got, payload),
        _ => panic!(),
    }
}

#[test]
fn test_file_service_constructor() {
    let payload = raw(r#"{"type":"announce","port":41234,"token":"file-tok","device_name":"phone","mounts":[]}"#);
    let msg = Message::file_service(payload.clone());
    assert_eq!(msg.message_type(), Some("file_service"));
    assert!(msg.message_id().is_some_and(|id| !id.is_empty()));
    assert!(!msg.expect_response());
    match msg {
        Message::FileService { payload: got, .. } => assert_eq!(got, payload),
        _ => panic!(),
    }
}

#[test]
fn test_message_type_all_variants() {
    let cases = vec![
        (Message::input("s", "ls", None), Some("terminal")),
        (
            Message::Auth {
                message_id: "m".into(),
                expect_response: false,
                timestamp: 0,
                session_id: None,
                token: String::new(),
                payload: raw("{}"),
            },
            Some("auth"),
        ),
        (
            Message::SessionControl {
                message_id: "m".into(),
                expect_response: false,
                timestamp: 0,
                session_id: None,
                token: String::new(),
                payload: raw("{}"),
            },
            Some("session_control"),
        ),
        (
            Message::SessionConfig {
                message_id: "m".into(),
                expect_response: false,
                timestamp: 0,
                session_id: None,
                token: String::new(),
                payload: raw("{}"),
            },
            Some("session_config"),
        ),
        (
            Message::Error {
                message_id: None,
                expect_response: false,
                timestamp: 0,
                token: String::new(),
                code: "E".into(),
                message: "m".into(),
            },
            Some("error"),
        ),
        (Message::server_closed("r", false), Some("server_closed")),
        (Message::client_disconnected("d", "r"), Some("client_disconnected")),
        (Message::session_event("created", raw("{}"), "d"), Some("session_event")),
        (Message::ack("r"), Some("ack")),
        (Message::sync_data(raw("{}")), Some("sync_data")),
        (Message::file_service(raw("{}")), Some("file_service")),
    ];
    for (msg, expected) in cases {
        assert_eq!(msg.message_type(), expected);
    }
}

#[test]
fn test_message_id_none_variants() {
    assert_eq!(Message::server_closed("r", false).message_id(), None);
    assert_eq!(Message::client_disconnected("d", "r").message_id(), None);
    assert_eq!(Message::session_event("created", raw("{}"), "d").message_id(), None);
    assert_eq!(Message::ack("r").message_id(), None);
    assert_eq!(Message::sync_data(raw("{}")).message_id(), None);
}

#[test]
fn test_expect_response_none_variants() {
    assert!(!Message::server_closed("r", false).expect_response());
    assert!(!Message::client_disconnected("d", "r").expect_response());
    assert!(!Message::session_event("created", raw("{}"), "d").expect_response());
    assert!(!Message::ack("r").expect_response());
    assert!(!Message::sync_data(raw("{}")).expect_response());
}

#[test]
fn test_message_id_is_uuid_v4() {
    let m1 = Message::input("s", "a", None);
    let m2 = Message::input("s", "a", None);
    let id1 = m1.message_id().unwrap().to_string();
    assert_eq!(id1.len(), 36);
    assert_eq!(id1.chars().filter(|&c| c == '-').count(), 4);
    assert_eq!(id1.chars().nth(14), Some('4'));
    assert_ne!(m1.message_id(), m2.message_id());
}

#[test]
fn test_token_accessor_and_with_token() {
    let msg = Message::input("s", "ls", None).with_token("tok-1");
    assert_eq!(msg.token(), "tok-1");
    let msg = Message::server_closed("r", false).with_token("tok-2");
    assert_eq!(msg.token(), "tok-2");
    let msg = Message::ack("r").with_token("tok-3");
    assert_eq!(msg.token(), "tok-3");
    assert_eq!(Message::sync_data(raw("{}")).token(), "");
}

#[test]
fn test_with_request_id_supported_variants() {
    for msg in [
        Message::input("s", "ls", None),
        Message::auth(None, raw("{}")),
        Message::session_control(raw("{}"), None),
        Message::session_config(raw("{}"), None),
    ] {
        let id = msg.message_id().unwrap().to_string();
        let rewritten = msg.with_request_id("rid-1");
        assert_eq!(rewritten.message_id(), Some("rid-1"));
        assert_ne!(rewritten.message_id(), Some(id.as_str()));
    }
    let msg = Message::error("E", "m").with_request_id("rid-2");
    assert_eq!(msg.message_id(), Some("rid-2"));
}

#[test]
fn test_with_request_id_unsupported_returns_unchanged() {
    let msg = Message::ack("req-1").with_request_id("rid-x");
    match msg {
        Message::Ack { request_id, .. } => assert_eq!(request_id, "req-1"),
        _ => panic!(),
    }
    let msg = Message::server_closed("r", false).with_request_id("rid-x");
    assert_eq!(msg.message_id(), None);
}

#[test]
fn test_request_id_correlation_with_ack() {
    let req = Message::input_with_response("s", "y", None).with_request_id("req-abc");
    let ack = Message::ack("req-abc");
    match ack {
        Message::Ack { request_id, .. } => assert_eq!(request_id, req.message_id().unwrap()),
        _ => panic!(),
    }
    assert_eq!(Message::subscribe_response_with_request_id("s", 0, 1, 0, "req-abc").message_id(), Some("req-abc"));
    assert_eq!(Message::error_with_id("req-abc", "E", "m").message_id(), Some("req-abc"));
}

#[test]
fn with_token_keeps_identity() {
    let msg = Message::subscribe_with_response("s", Some(3));
    let id = msg.message_id().unwrap().to_string();
    let t = msg.with_token("abc");
    assert_eq!(t.message_id(), Some(id.as_str()));
    assert!(t.expect_response());
    assert_eq!(t.token(), "abc");
}

#[test]
fn terminal_handler_forwards_output_only() {
    let h = TerminalHandler;
    assert_eq!(h.name(), "TerminalHandler");
    let ev = h.handle(Message::output_from_base64("sess", "QQ==", true, 3, Some(5))).unwrap();
    assert_eq!(ev.session_id, "sess");
    assert_eq!(ev.data, "QQ==");
    assert!(ev.is_waiting);
    assert_eq!(ev.index, 3);
    assert_eq!(ev.end_index, Some(5));
    assert!(h.handle(Message::subscribe_response("s", 1, 2, 0)).is_none());
    assert!(h.handle(Message::unsubscribe_response("s")).is_none());
    assert!(h.handle(Message::ack("r")).is_none());
    assert_eq!(AuthHandler.name(), "AuthHandler");
    assert_eq!(SyncHandler.name(), "SyncHandler");
    assert_eq!(FileServiceHandler.name(), "FileServiceHandler");
}

#[test]
fn test_constructor_timestamp_near_now() {
    let before = chrono::Utc::now().timestamp_millis();
    let msg = Message::output("s", b"x", false, 0);
    let after = chrono::Utc::now().timestamp_millis();
    let Message::Terminal { timestamp, .. } = msg else {
        panic!()
    };
    assert!(timestamp >= before, "timestamp {timestamp} < before {before}");
    assert!(timestamp <= after, "timestamp {timestamp} > after {after}");
}

#[test]
fn batch_notification_texts_by_language() {
    let t = bedcode_mobile::notify::batch_texts(true, "Desk", 3, 2_621_440, "2.5 MB");
    assert_eq!(t.title, "File transfer request");
    assert_eq!(t.body, "Desk wants to send you 3 file(s) (2.5 MB)");
    assert_eq!(t.accept, "Accept all");
    assert_eq!(t.reject, "Reject all");
    let t = bedcode_mobile::notify::batch_texts(false, "Desk", 1, 0, "0 B");
    assert_eq!(t.title, "文件传输请求");
    assert_eq!(t.body, "Desk 想向你发送 1 个文件");
    assert_eq!(t.accept, "接受全部");
    assert_eq!(t.reject, "拒绝全部");
}

#[test]
fn auth_handler_decides_success_and_failure() {
    let h = AuthHandler;
    assert_eq!(
        h.handle(AuthStage::Authenticated, Some("jwt".to_string()), None),
        Some(AuthEvent::Success { session_token: "jwt".to_string() })
    );
    assert_eq!(h.handle(AuthStage::Authenticated, None, None), None);
    assert_eq!(
        h.handle(AuthStage::Failed, None, None),
        Some(AuthEvent::Failed { reason: "Authentication failed".to_string() })
    );
    assert_eq!(
        h.handle(AuthStage::Failed, None, Some("bad code".to_string())),
        Some(AuthEvent::Failed { reason: "bad code".to_string() })
    );
    assert_eq!(h.handle(AuthStage::Other, Some("jwt".to_string()), None), None);
}
