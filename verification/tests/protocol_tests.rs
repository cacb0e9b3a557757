use agent_studio::Action;
use agent_studio::ConnState;
use agent_studio::Inbound;
use agent_studio::step;

fn text(t: &str) -> Inbound {
    Inbound::Text(t.to_string())
}

#[test]
fn subscribe_command_is_acknowledged() {
    let (state, actions) = step(
        ConnState::Open,
        text("{\"type\":\"subscribe\",\"session_id\":\"s1\"}"),
    );
    assert_eq!(state, ConnState::Active);
    assert_eq!(actions.len(), 2);
    match &actions[0] {
        Action::Subscribe { session_id } => assert_eq!(session_id, "s1"),
        other => panic!("expected a subscription, got {:?}", other),
    }
    match &actions[1] {
        Action::Send(txt) => {
            assert_eq!(txt, "{\"event\":\"subscribed\",\"data\":{\"session_id\":\"s1\"}}")
        }
        other => panic!("expected an event, got {:?}", other),
    }
}

#[test]
fn ping_is_answered_with_a_pong() {
    let (state, actions) = step(ConnState::Open, text("{\"type\":\"ping\"}"));
    assert_eq!(state, ConnState::Open);
    assert_eq!(actions.len(), 1);
    assert!(matches!(actions[0], Action::Pong));
}

#[test]
fn unknown_type_earns_one_error_and_the_connection_survives() {
    let (state, actions) = step(ConnState::Open, text("{\"type\":\"frobnicate\"}"));
    assert_eq!(state, ConnState::Open);
    assert_eq!(actions.len(), 1);
    match &actions[0] {
        Action::Send(txt) => assert_eq!(
            txt,
            "{\"event\":\"error\",\"data\":{\"message\":\"Invalid message: unknown type\"}}"
        ),
        other => panic!("expected an error event, got {:?}", other),
    }
    let (state2, actions2) = step(state, text("{\"type\":\"ping\"}"));
    assert_eq!(state2, ConnState::Open);
    assert!(matches!(actions2[0], Action::Pong));
}

#[test]
fn malformed_text_earns_exactly_one_error() {
    let (state, actions) = step(ConnState::Active, text("this is not a protocol message"));
    assert_eq!(state, ConnState::Active);
    assert_eq!(actions.len(), 1);
    match &actions[0] {
        Action::Send(txt) => assert_eq!(
            txt,
            "{\"event\":\"error\",\"data\":{\"message\":\"Invalid message: expected a JSON object of string fields\"}}"
        ),
        other => panic!("expected an error event, got {:?}", other),
    }
    let (state2, actions2) = step(
        state,
        text("{\"type\":\"subscribe\",\"session_id\":\"s2\"}"),
    );
    assert_eq!(state2, ConnState::Active);
    assert_eq!(actions2.len(), 2);
}

#[test]
fn missing_session_id_is_its_own_rejection() {
    let (_state, actions) = step(ConnState::Open, text("{\"type\":\"subscribe\"}"));
    assert_eq!(actions.len(), 1);
    match &actions[0] {
        Action::Send(txt) => assert_eq!(
            txt,
            "{\"event\":\"error\",\"data\":{\"message\":\"Invalid message: missing field session_id\"}}"
        ),
        other => panic!("expected an error event, got {:?}", other),
    }
}

#[test]
fn missing_type_is_its_own_rejection() {
    let (_state, actions) = step(ConnState::Open, text("{\"session_id\":\"s1\"}"));
    assert_eq!(actions.len(), 1);
    match &actions[0] {
        Action::Send(txt) => assert_eq!(
            txt,
            "{\"event\":\"error\",\"data\":{\"message\":\"Invalid message: missing field type\"}}"
        ),
        other => panic!("expected an error event, got {:?}", other),
    }
}

#[test]
fn whitespace_field_order_and_extra_fields_are_tolerated() {
    let (state, actions) = step(
        ConnState::Open,
        text("  { \"session_id\" : \"s1\" ,\n\t\"extra\" : \"ignored\" , \"type\" : \"subscribe\" }  "),
    );
    assert_eq!(state, ConnState::Active);
    assert_eq!(actions.len(), 2);
    match &actions[0] {
        Action::Subscribe { session_id } => assert_eq!(session_id, "s1"),
        other => panic!("expected a subscription, got {:?}", other),
    }
}

#[test]
fn empty_object_is_missing_type() {
    let (_state, actions) = step(ConnState::Open, text("{}"));
    assert_eq!(actions.len(), 1);
    match &actions[0] {
        Action::Send(txt) => assert!(txt.contains("missing field type")),
        other => panic!("expected an error event, got {:?}", other),
    }
}

#[test]
fn close_moves_to_closed_and_asks_for_cleanup() {
    let (state, actions) = step(ConnState::Active, Inbound::Close);
    assert_eq!(state, ConnState::Closed);
    assert_eq!(actions.len(), 1);
    assert!(matches!(actions[0], Action::Cleanup));
}

#[test]
fn transport_failure_also_closes() {
    let (state, actions) = step(ConnState::Open, Inbound::Failure);
    assert_eq!(state, ConnState::Closed);
    assert!(matches!(actions[0], Action::Cleanup));
}

#[test]
fn closed_is_terminal() {
    let (state, actions) = step(ConnState::Closed, text("{\"type\":\"ping\"}"));
    assert_eq!(state, ConnState::Closed);
    assert!(actions.is_empty());
}

#[test]
fn non_text_frames_are_ignored() {
    let (state, actions) = step(ConnState::Active, Inbound::Frame);
    assert_eq!(state, ConnState::Active);
    assert!(actions.is_empty());
}
