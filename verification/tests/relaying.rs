use hook_relay::json::Json;
use hook_relay::relay::{
    prepare_event, receive, send_outcome, server_step, Delivery, Dropped, NotDelivered,
    SendOutcome, ServerAction, ServerEvent, ServerState, CONNECT_TIMEOUT_SECS, EVENT_NAME, HOST,
    PORT,
};

fn text(value: &str) -> Json {
    Json::String(value.to_string())
}

fn object(members: Vec<(&str, Json)>) -> Json {
    Json::Object(members.into_iter().map(|(key, value)| (key.to_string(), value)).collect())
}

#[test]
fn the_relay_listens_on_its_fixed_loopback_port() {
    assert_eq!(HOST, "127.0.0.1");
    assert_eq!(PORT, 19876);
    assert_eq!(EVENT_NAME, "pet-event");
    assert_eq!(CONNECT_TIMEOUT_SECS, 1);
}

#[test]
fn an_event_is_published_once_with_its_payload() {
    let delivery = receive(Ok(b"{\"tool\":\"bash\"}".to_vec()));
    assert_eq!(delivery, Delivery::Publish(object(vec![("tool", text("bash"))])));
}

#[test]
fn the_payload_is_the_document_that_the_bytes_hold() {
    let source = " {\"session\": \"s1\", \"input\": {\"args\": [1, 2, 3], \"ok\": true}} \n";
    let delivery = receive(Ok(source.as_bytes().to_vec()));
    assert_eq!(delivery, Delivery::Publish(Json::parse(source).unwrap()));
    assert_eq!(receive(Ok(b"7".to_vec())), Delivery::Publish(Json::parse("7").unwrap()));
    assert_eq!(receive(Ok(b"null".to_vec())), Delivery::Publish(Json::Null));
}

#[test]
fn what_is_not_json_is_dropped() {
    let delivery = receive(Ok(b"not json".to_vec()));
    assert_eq!(
        delivery,
        Delivery::Drop(Dropped::Malformed("expected ident at line 1 column 2".to_string()))
    );
    for broken in ["{", "{\"tool\":", "{\"a\":1}{\"b\":2}", " ", "\n", "\u{feff}{}"] {
        let delivery = receive(Ok(broken.as_bytes().to_vec()));
        assert!(matches!(delivery, Delivery::Drop(Dropped::Malformed(_))));
    }
    assert!(matches!(receive(Ok(vec![0xff])), Delivery::Drop(Dropped::Malformed(_))));
}

#[test]
fn an_empty_connection_is_dropped_silently() {
    let delivery = receive(Ok(vec![]));
    assert_eq!(delivery, Delivery::Drop(Dropped::Empty));
    assert_eq!(Dropped::Empty.log_line(), None);
}

#[test]
fn a_read_error_is_dropped_and_logged() {
    let delivery = receive(Err("connection reset".to_string()));
    assert_eq!(delivery, Delivery::Drop(Dropped::ReadFailed("connection reset".to_string())));
    assert_eq!(
        Dropped::ReadFailed("connection reset".to_string()).log_line(),
        Some("Read error: connection reset".to_string())
    );
    assert_eq!(
        Dropped::Malformed("expected value".to_string()).log_line(),
        Some("JSON parse error: expected value".to_string())
    );
}

#[test]
fn each_connection_gets_its_own_payload_in_any_order() {
    let sources: Vec<String> = (0..20).map(|i| format!("{{\"n\": {}, \"tag\": \"c{}\"}}", i, i)).collect();
    let forward: Vec<Delivery> =
        sources.iter().map(|source| receive(Ok(source.as_bytes().to_vec()))).collect();
    let mut backward: Vec<Delivery> =
        sources.iter().rev().map(|source| receive(Ok(source.as_bytes().to_vec()))).collect();
    backward.reverse();
    assert_eq!(forward, backward);
    for (i, delivery) in forward.iter().enumerate() {
        assert_eq!(*delivery, Delivery::Publish(Json::parse(&sources[i]).unwrap()));
        for other in forward.iter().skip(i + 1) {
            assert_ne!(delivery, other);
        }
    }
}

#[test]
fn the_listener_starts_by_the_outcome_of_the_bind() {
    assert_eq!(
        server_step(ServerState::Starting, &ServerEvent::Bound),
        (ServerState::Listening, ServerAction::Accept)
    );
    assert_eq!(
        server_step(ServerState::Starting, &ServerEvent::BindFailed("in use".to_string())),
        (ServerState::Stopped, ServerAction::Stop)
    );
    assert_eq!(
        server_step(ServerState::Starting, &ServerEvent::Accepted),
        (ServerState::Starting, ServerAction::Bind)
    );
    assert_eq!(
        server_step(ServerState::Starting, &ServerEvent::AcceptFailed("x".to_string())),
        (ServerState::Starting, ServerAction::Bind)
    );
}

#[test]
fn the_listener_goes_on_after_every_accept() {
    assert_eq!(
        server_step(ServerState::Listening, &ServerEvent::Accepted),
        (ServerState::Listening, ServerAction::Serve)
    );
    assert_eq!(
        server_step(ServerState::Listening, &ServerEvent::AcceptFailed("too many files".to_string())),
        (ServerState::Listening, ServerAction::Accept)
    );
    assert_eq!(
        server_step(ServerState::Listening, &ServerEvent::Bound),
        (ServerState::Listening, ServerAction::Accept)
    );
    assert_eq!(
        server_step(ServerState::Listening, &ServerEvent::BindFailed("x".to_string())),
        (ServerState::Listening, ServerAction::Accept)
    );
    let mut state = ServerState::Starting;
    let events = [
        ServerEvent::Bound,
        ServerEvent::AcceptFailed("a".to_string()),
        ServerEvent::Accepted,
        ServerEvent::AcceptFailed("b".to_string()),
        ServerEvent::AcceptFailed("c".to_string()),
        ServerEvent::Accepted,
    ];
    for event in &events {
        let (next, action) = server_step(state, event);
        assert_eq!(next, ServerState::Listening);
        assert_ne!(action, ServerAction::Stop);
        state = next;
    }
}

#[test]
fn a_stopped_listener_stays_stopped() {
    for event in [
        ServerEvent::Bound,
        ServerEvent::BindFailed("x".to_string()),
        ServerEvent::Accepted,
        ServerEvent::AcceptFailed("x".to_string()),
    ] {
        assert_eq!(
            server_step(ServerState::Stopped, &event),
            (ServerState::Stopped, ServerAction::Stop)
        );
    }
}

#[test]
fn the_listener_logs_binds_and_failed_accepts() {
    assert_eq!(ServerEvent::Bound.log_line(), Some("Listening on 127.0.0.1:19876".to_string()));
    assert_eq!(
        ServerEvent::BindFailed("address in use".to_string()).log_line(),
        Some("Port 19876 already in use: address in use".to_string())
    );
    assert_eq!(ServerEvent::Accepted.log_line(), None);
    assert_eq!(
        ServerEvent::AcceptFailed("too many files".to_string()).log_line(),
        Some("Accept error: too many files".to_string())
    );
    assert_eq!(
        ServerEvent::Bound.log_line().unwrap(),
        format!("Listening on {}:{}", HOST, PORT)
    );
}

#[test]
fn a_sender_sends_an_event_as_it_is() {
    let bytes = b" {\"tool\" : \"bash\"}\n".to_vec();
    assert_eq!(prepare_event(Ok(bytes.clone())), Ok(bytes));
}

#[test]
fn a_sender_sends_nothing_else() {
    assert_eq!(prepare_event(Err("broken pipe".to_string())), Err(NotDelivered::ReadFailed));
    assert_eq!(prepare_event(Ok(vec![])), Err(NotDelivered::Empty));
    assert_eq!(prepare_event(Ok(b"not json".to_vec())), Err(NotDelivered::Malformed));
    assert_eq!(prepare_event(Ok(b"{\"tool\":".to_vec())), Err(NotDelivered::Malformed));
    assert_eq!(prepare_event(Ok(vec![0xc3, 0x28])), Err(NotDelivered::Malformed));
}

#[test]
fn a_send_is_delivered_when_connected_and_written() {
    assert_eq!(send_outcome(true, true), SendOutcome::Delivered);
    assert_eq!(send_outcome(true, false), SendOutcome::NotDelivered(NotDelivered::WriteFailed));
    assert_eq!(send_outcome(false, false), SendOutcome::NotDelivered(NotDelivered::Unreachable));
    assert_eq!(send_outcome(false, true), SendOutcome::NotDelivered(NotDelivered::Unreachable));
}
