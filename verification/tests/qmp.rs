use openutm::qemu::qmp::{
    classify, decode_line, decode_message, encode_command, Delivery, Handshake, QmpClient,
    QmpCommandKind, QmpEvent, QmpMessage, WireFields,
};
use openutm::Error;
use std::sync::{Arc, Mutex};

fn ready_client() -> QmpClient {
    let mut client = QmpClient::new("/tmp/qemu.sock".to_string());
    client.receive(b"{\"QMP\": {\"version\": {}, \"capabilities\": []}}\r\n");
    let request = client.begin_command(QmpCommandKind::QmpCapabilities).unwrap();
    assert_eq!(request.id, 1);
    client.receive(b"{\"return\": {}, \"id\": 1}\r\n");
    assert_eq!(client.handshake(), Handshake::Ready);
    client
}

#[test]
fn test_qmp_client_creation() {
    let client = QmpClient::new("/tmp/qemu.sock".to_string());
    assert_eq!(client.socket_path, "/tmp/qemu.sock");
}

#[test]
fn test_event_types() {
    let event_types = vec!["SHUTDOWN", "STOP", "RESUME", "ERROR", "DEVICE_ADDED"];

    for event_type in event_types {
        assert!(!event_type.is_empty());
    }
}

#[test]
fn test_error_codes() {
    let error_codes = vec!["ECONNREFUSED", "ENOENT", "EACCES", "EPIPE", "ECONNRESET"];

    for code in error_codes {
        assert!(!code.is_empty());
    }
}

#[test]
fn test_socket_path_validation() {
    let valid_path = "/tmp/qemu.sock";
    assert!(valid_path.starts_with('/'));
    assert!(valid_path.contains("sock"));
}

#[test]
fn test_multiple_event_handlers() {
    let handlers: Arc<Mutex<Vec<String>>> = Arc::new(Mutex::new(vec![]));

    let h1 = handlers.clone();
    let h1_closure = move |_event: String| {
        h1.lock().unwrap().push("handler1".to_string());
    };

    let h2 = handlers.clone();
    let h2_closure = move |_event: String| {
        h2.lock().unwrap().push("handler2".to_string());
    };

    h1_closure("SHUTDOWN".to_string());
    h2_closure("SHUTDOWN".to_string());

    assert_eq!(handlers.lock().unwrap().len(), 2);
}

#[test]
fn test_connection_state_transitions() {
    let states = vec!["disconnected", "connecting", "connected", "disconnecting"];

    assert_eq!(states[0], "disconnected");
    assert_eq!(states[states.len() - 1], "disconnecting");
    assert!(states.len() == 4);
}

#[test]
fn test_socket_error_handling() {
    let error_messages = vec![
        "Connection refused",
        "Socket disconnected",
        "Write failed",
        "QMP command timeout",
    ];

    for msg in error_messages {
        assert!(!msg.is_empty());
    }
}

#[test]
fn test_pending_commands_tracking() {
    let pending = Arc::new(Mutex::new(std::collections::HashMap::new()));

    pending.lock().unwrap().insert(1, "cmd1");
    pending.lock().unwrap().insert(2, "cmd2");

    assert_eq!(pending.lock().unwrap().len(), 2);
    assert!(pending.lock().unwrap().contains_key(&1));

    pending.lock().unwrap().remove(&1);
    assert_eq!(pending.lock().unwrap().len(), 1);

    let mut client = ready_client();
    let first = client.begin_command(QmpCommandKind::QueryStatus).unwrap();
    let second = client.begin_command(QmpCommandKind::QueryStatus).unwrap();
    assert_eq!(client.pending_count(), 2);
    assert!(client.is_pending(first.id));
    assert!(client.cancel(first.id));
    assert_eq!(client.pending_count(), 1);
    assert!(client.is_pending(second.id));
}

#[test]
fn test_message_buffer_handling() {
    let mut buffer = String::new();
    buffer.push_str(r#"{"id":1,"return":"ok"}"#);
    buffer.push('\n');
    buffer.push_str(r#"{"id":2"#);

    let lines: Vec<&str> = buffer.lines().collect();
    assert_eq!(lines.len(), 2);

    let mut client = QmpClient::new("/tmp/qemu.sock".to_string());
    let complete = client.feed(buffer.as_bytes());
    assert_eq!(complete, vec![br#"{"id":1,"return":"ok"}"#.to_vec()]);
    let rest = client.feed(b",\"return\":{}}\n");
    assert_eq!(rest, vec![br#"{"id":2,"return":{}}"#.to_vec()]);
}

#[test]
fn test_qmp_capabilities_command() {
    let line = encode_command(QmpCommandKind::QmpCapabilities, 1);
    let cmd: serde_json::Value = serde_json::from_str(&line).unwrap();

    assert_eq!(cmd["execute"], "qmp_capabilities");
    assert_eq!(cmd["id"], 1);
}

#[test]
fn test_query_status_command() {
    let line = encode_command(QmpCommandKind::QueryStatus, 2);
    let cmd: serde_json::Value = serde_json::from_str(&line).unwrap();

    assert_eq!(cmd["execute"], "query-status");
}

#[test]
fn test_system_powerdown_command() {
    let line = encode_command(QmpCommandKind::SystemPowerdown, 3);
    let cmd: serde_json::Value = serde_json::from_str(&line).unwrap();

    assert_eq!(cmd["execute"], "system_powerdown");
}

#[test]
fn test_stop_command() {
    let line = encode_command(QmpCommandKind::Stop, 4);
    let cmd: serde_json::Value = serde_json::from_str(&line).unwrap();

    assert_eq!(cmd["execute"], "stop");
}

#[test]
fn test_cont_command() {
    let line = encode_command(QmpCommandKind::Cont, 5);
    let cmd: serde_json::Value = serde_json::from_str(&line).unwrap();

    assert_eq!(cmd["execute"], "cont");
}

#[test]
fn test_quit_command() {
    let line = encode_command(QmpCommandKind::Quit, 6);
    let cmd: serde_json::Value = serde_json::from_str(&line).unwrap();

    assert_eq!(cmd["execute"], "quit");
}

#[test]
fn test_message_id_tracking() {
    let mut client = ready_client();
    let cmd1 = client.begin_command(QmpCommandKind::QueryStatus).unwrap();
    let cmd2 = client.begin_command(QmpCommandKind::QueryStatus).unwrap();

    assert_ne!(cmd1.id, cmd2.id);
    assert_eq!(cmd1.id, 2);
    assert_eq!(cmd2.id, 3);
}

#[test]
fn test_command_serialization() {
    let serialized = encode_command(QmpCommandKind::QueryStatus, 1);
    assert!(serialized.contains("\"execute\":\"query-status\""));
    assert!(serialized.contains("\"id\":1"));
    assert_eq!(serialized, "{\"execute\":\"query-status\",\"arguments\":{},\"id\":1}\n");
}

#[test]
fn test_successful_response_parsing() {
    let response = decode_message(
        r#"{"return": {"running": true, "singlestep": false, "status": "running"}, "id": 1}"#,
    )
    .unwrap();
    match response {
        QmpMessage::Return { id, value } => {
            assert_eq!(id, Some(1));
            let value: serde_json::Value = serde_json::from_str(&value).unwrap();
            assert!(value["running"].as_bool().unwrap());
            assert_eq!(value["status"], "running");
        }
        other => panic!("not an answer: {:?}", other),
    }
}

#[test]
fn test_error_response_parsing() {
    let response = decode_message(
        r#"{"error": {"class": "GenericError", "desc": "VM is not running"}, "id": 1}"#,
    )
    .unwrap();
    match response {
        QmpMessage::Failure { id, reason } => {
            assert_eq!(id, Some(1));
            assert!(reason.contains("running"));
            assert_eq!(reason, "VM is not running");
        }
        other => panic!("not a refusal: {:?}", other),
    }
}

#[test]
fn test_event_message_parsing() {
    let event = decode_message(
        r#"{"event": "SHUTDOWN", "data": {"guest": true}, "timestamp": {"seconds": 1234567890, "microseconds": 0}}"#,
    )
    .unwrap();
    match event {
        QmpMessage::Event(QmpEvent { name, data }) => {
            assert_eq!(name, "SHUTDOWN");
            assert_eq!(data.as_deref(), Some(r#"{"guest":true}"#));
        }
        other => panic!("not an event: {:?}", other),
    }
}

#[test]
fn test_qmp_response_distinguish() {
    let response = decode_message(r#"{"return": {"status": "running"}, "id": 1}"#).unwrap();
    let event = decode_message(r#"{"event": "SHUTDOWN", "data": {}}"#).unwrap();

    assert!(matches!(response, QmpMessage::Return { .. }));
    assert!(!matches!(response, QmpMessage::Event(_)));
    assert!(matches!(event, QmpMessage::Event(_)));
    assert!(!matches!(event, QmpMessage::Return { .. }));
}

#[test]
fn test_qmp_handshake_structure() {
    let greeting = decode_message(
        r#"{"QMP": {"version": {"qemu": "7.0.0", "package": "7.0.0"}, "capabilities": ["oob"]}}"#,
    )
    .unwrap();
    match greeting {
        QmpMessage::Greeting { banner } => {
            let banner: serde_json::Value = serde_json::from_str(&banner).unwrap();
            assert!(banner["version"]["qemu"].is_string());
            assert!(banner["capabilities"].is_array());
        }
        other => panic!("not a greeting: {:?}", other),
    }
}

#[test]
fn test_response_matching_by_id() {
    let mut client = ready_client();
    let mut last = 0;
    while last < 42 {
        last = client.begin_command(QmpCommandKind::QueryStatus).unwrap().id;
    }
    let cmd_id = 42;
    let deliveries = client.receive(b"{\"return\": {\"running\": true}, \"id\": 42}\n");
    assert_eq!(deliveries.len(), 1);
    match &deliveries[0] {
        Delivery::Completed { id, value } => {
            assert_eq!(*id, cmd_id);
            assert_eq!(value, r#"{"running":true}"#);
        }
        other => panic!("not completed: {:?}", other),
    }
    assert!(!client.is_pending(42));
    assert!(client.is_pending(41));
}

#[test]
fn test_qmp_capabilities_response() {
    let response = decode_message(r#"{"return": {}, "id": 1}"#).unwrap();
    match response {
        QmpMessage::Return { id, value } => {
            assert_eq!(value, "{}");
            assert_eq!(id, Some(1));
        }
        other => panic!("not an answer: {:?}", other),
    }
}

#[test]
fn test_json_parsing_errors() {
    let invalid_json = "{ invalid }";
    let result = decode_message(invalid_json);
    assert!(result.is_err());
    match result.unwrap_err() {
        Error::ProtocolError(text) => {
            assert!(text.starts_with("malformed message: "));
            assert_ne!(text, "malformed message: { invalid }");
        }
        other => panic!("wrong error: {:?}", other),
    }
}

#[test]
fn fields_decide_the_shape_of_a_message() {
    let blank = || WireFields {
        problem: None,
        id: None,
        ret: None,
        error: None,
        error_desc: None,
        event: None,
        event_name: None,
        data: None,
        greeting: None,
    };
    let mut answer = blank();
    answer.ret = Some("1".to_string());
    answer.error = Some("{}".to_string());
    answer.event = Some("\"X\"".to_string());
    answer.id = Some(9);
    assert!(matches!(
        classify(answer).unwrap(),
        QmpMessage::Return { id: Some(9), value } if value == "1"
    ));

    let mut refusal = blank();
    refusal.error = Some("{\"class\":\"C\"}".to_string());
    refusal.event = Some("\"X\"".to_string());
    assert!(matches!(
        classify(refusal).unwrap(),
        QmpMessage::Failure { id: None, reason } if reason == "{\"class\":\"C\"}"
    ));

    let mut nameless = blank();
    nameless.event = Some("7".to_string());
    assert!(matches!(
        classify(nameless).unwrap_err(),
        Error::ProtocolError(text) if text == "event without a name"
    ));

    assert!(matches!(
        classify(blank()).unwrap_err(),
        Error::ProtocolError(text) if text == "message of unknown shape"
    ));

    let mut broken = blank();
    broken.problem = Some("expected value".to_string());
    broken.ret = Some("1".to_string());
    assert!(matches!(
        classify(broken).unwrap_err(),
        Error::ProtocolError(text) if text == "malformed message: expected value"
    ));
}

#[test]
fn lines_that_are_not_utf8_are_protocol_errors() {
    assert!(matches!(
        decode_line(&[0xff, 0xfe]).unwrap_err(),
        Error::ProtocolError(text) if text == "message is not UTF-8"
    ));
    assert!(matches!(
        decode_line("{\"event\": \"é\"}".as_bytes()).unwrap(),
        QmpMessage::Event(QmpEvent { name, data: None }) if name == "é"
    ));
}

#[test]
fn commands_need_the_handshake() {
    let mut client = QmpClient::new("s".to_string());
    assert!(matches!(
        client.begin_command(QmpCommandKind::QmpCapabilities).unwrap_err(),
        Error::ProtocolError(text) if text == "no greeting received"
    ));
    assert!(matches!(
        client.begin_command(QmpCommandKind::Stop).unwrap_err(),
        Error::ProtocolError(text) if text == "capabilities not negotiated"
    ));
    let greeted = client.receive(b"{\"QMP\": {}}\n");
    assert!(matches!(greeted[..], [Delivery::Greeted]));
    assert_eq!(client.handshake(), Handshake::Greeted);
    assert!(matches!(
        client.begin_command(QmpCommandKind::Stop).unwrap_err(),
        Error::ProtocolError(text) if text == "capabilities not negotiated"
    ));
    let negotiate = client.begin_command(QmpCommandKind::QmpCapabilities).unwrap();
    assert_eq!(negotiate.id, 1);
    assert_eq!(negotiate.line, "{\"execute\":\"qmp_capabilities\",\"arguments\":{},\"id\":1}\n");
    assert_eq!(client.handshake(), Handshake::Negotiating);
    assert!(matches!(
        client.begin_command(QmpCommandKind::QmpCapabilities).unwrap_err(),
        Error::ProtocolError(text) if text == "capabilities already negotiated"
    ));
    assert!(matches!(
        client.receive(b"{\"QMP\": {}}\n")[..],
        [Delivery::Rejected(Error::ProtocolError(_))]
    ));
    let done = client.receive(b"{\"return\": {}, \"id\": 1}\n");
    assert!(matches!(&done[..], [Delivery::Completed { id: 1, value }] if value == "{}"));
    assert_eq!(client.handshake(), Handshake::Ready);
    assert_eq!(client.begin_command(QmpCommandKind::Stop).unwrap().id, 2);
}

#[test]
fn refused_negotiation_starts_over() {
    let mut client = QmpClient::new("s".to_string());
    client.receive(b"{\"QMP\": {}}\n");
    client.begin_command(QmpCommandKind::QmpCapabilities).unwrap();
    let refused = client.receive(b"{\"error\": {\"class\": \"E\", \"desc\": \"no\"}, \"id\": 1}\n");
    assert!(matches!(
        &refused[..],
        [Delivery::Failed { id: 1, error: Error::ProtocolError(text) }] if text == "no"
    ));
    assert_eq!(client.handshake(), Handshake::Greeted);
    assert_eq!(client.begin_command(QmpCommandKind::QmpCapabilities).unwrap().id, 2);
}

#[test]
fn answers_are_matched_by_number_not_by_order() {
    let mut client = ready_client();
    let a = client.begin_command(QmpCommandKind::QueryStatus).unwrap().id;
    let b = client.begin_command(QmpCommandKind::Stop).unwrap().id;
    let c = client.begin_command(QmpCommandKind::Cont).unwrap().id;
    assert_eq!((a, b, c), (2, 3, 4));
    let deliveries = client.receive(
        b"{\"return\": \"c\", \"id\": 4}\n{\"event\": \"STOP\"}\n{\"error\": {\"desc\": \"b\"}, \"id\": 3}\n{\"return\": 1, \"id\": 99}\n{\"return\": 1}\nnot json\n\n{}\n",
    );
    assert_eq!(deliveries.len(), 8);
    assert!(matches!(&deliveries[0], Delivery::Completed { id: 4, value } if value == "\"c\""));
    assert!(matches!(&deliveries[1], Delivery::Notified));
    assert!(matches!(
        &deliveries[2],
        Delivery::Failed { id: 3, error: Error::ProtocolError(text) } if text == "b"
    ));
    for dropped in &deliveries[3..5] {
        assert!(matches!(
            dropped,
            Delivery::Rejected(Error::ProtocolError(text)) if text == "answer matches no waiting command"
        ));
    }
    assert!(matches!(
        &deliveries[5],
        Delivery::Rejected(Error::ProtocolError(text)) if text.starts_with("malformed message: ")
    ));
    assert!(matches!(
        &deliveries[6],
        Delivery::Rejected(Error::ProtocolError(text)) if text.starts_with("malformed message: ")
    ));
    assert!(matches!(
        &deliveries[7],
        Delivery::Rejected(Error::ProtocolError(text)) if text == "message of unknown shape"
    ));
    assert!(client.is_pending(2));
    assert_eq!(client.pending_count(), 1);
    assert_eq!(client.event_count(), 1);
}

#[test]
fn events_come_out_in_the_order_of_arrival() {
    let mut client = QmpClient::new("s".to_string());
    client.receive(b"{\"event\": \"STOP\"}\n{\"event\": \"RES");
    assert_eq!(client.event_count(), 1);
    client.receive(b"UME\", \"data\": {\"a\": 1}}\n{\"event\": \"SHUTDOWN\"}\n");
    assert_eq!(client.event_count(), 3);
    assert_eq!(client.next_event().unwrap().name, "STOP");
    let second = client.next_event().unwrap();
    assert_eq!(second.name, "RESUME");
    assert_eq!(second.data.as_deref(), Some("{\"a\":1}"));
    assert_eq!(client.next_event().unwrap().name, "SHUTDOWN");
    assert!(client.next_event().is_none());
}

#[test]
fn chunking_does_not_change_what_is_received() {
    let stream: &[u8] = b"{\"QMP\": {}}\r\n{\"event\": \"A\"}\r\n{\"event\": \"B\"}\r\n{\"ev";
    let mut whole = QmpClient::new("s".to_string());
    let all = whole.feed(stream);
    for cut in 0..=stream.len() {
        let mut parts = QmpClient::new("s".to_string());
        let mut lines = parts.feed(&stream[..cut]);
        lines.extend(parts.feed(&stream[cut..]));
        assert_eq!(lines, all);
    }
    assert_eq!(all.len(), 3);
    assert_eq!(all[1], b"{\"event\": \"A\"}\r".to_vec());
}

#[test]
fn cancelling_and_expiring_touch_one_waiter_only() {
    let mut client = ready_client();
    let a = client.begin_command(QmpCommandKind::QueryStatus).unwrap().id;
    let b = client.begin_command(QmpCommandKind::QueryStatus).unwrap().id;
    assert!(client.cancel(a));
    assert!(!client.cancel(a));
    assert!(client.is_pending(b));
    assert!(matches!(client.expire(b), Some(Error::Timeout(text)) if text == "command 3"));
    assert!(client.expire(b).is_none());
    assert_eq!(client.pending_count(), 0);
    assert_eq!(client.handshake(), Handshake::Ready);
    assert!(!client.is_closed());
    assert!(matches!(
        client.receive(b"{\"return\": {}, \"id\": 3}\n")[..],
        [Delivery::Rejected(_)]
    ));
}

#[test]
fn disconnection_fails_every_waiter() {
    let mut client = ready_client();
    client.begin_command(QmpCommandKind::QueryStatus).unwrap();
    client.begin_command(QmpCommandKind::Stop).unwrap();
    client.receive(b"{\"event\": \"STOP\"}\n");
    assert_eq!(client.disconnect(), vec![2, 3]);
    assert!(client.is_closed());
    assert_eq!(client.pending_count(), 0);
    assert!(matches!(
        client.begin_command(QmpCommandKind::Cont).unwrap_err(),
        Error::ConnectionLost
    ));
    assert!(matches!(
        client.receive(b"{\"event\": \"RESUME\"}\n")[..],
        [Delivery::Rejected(Error::ConnectionLost)]
    ));
    assert_eq!(client.event_count(), 1);
    assert_eq!(client.disconnect(), Vec::<u64>::new());
}

#[test]
fn command_names_on_the_wire() {
    assert_eq!(QmpCommandKind::QmpCapabilities.as_str(), "qmp_capabilities");
    assert_eq!(QmpCommandKind::QueryStatus.as_str(), "query-status");
    assert_eq!(QmpCommandKind::Stop.as_str(), "stop");
    assert_eq!(QmpCommandKind::Cont.as_str(), "cont");
    assert_eq!(QmpCommandKind::SystemPowerdown.as_str(), "system_powerdown");
    assert_eq!(QmpCommandKind::Quit.as_str(), "quit");
    assert_eq!(
        encode_command(QmpCommandKind::Quit, u64::MAX),
        "{\"execute\":\"quit\",\"arguments\":{},\"id\":18446744073709551615}\n"
    );
}
