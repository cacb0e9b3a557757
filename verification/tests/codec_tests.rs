use agent_studio::WsEvent;
use agent_studio::json_escape_str;
use agent_studio::render_event;

#[test]
fn step_update_frames_the_payload_verbatim() {
    let ev = WsEvent::StepUpdate("{\"step_id\":\"st1\",\"status\":\"running\"}".to_string());
    assert_eq!(
        render_event(&ev),
        "{\"event\":\"step_update\",\"data\":{\"step_id\":\"st1\",\"status\":\"running\"}}"
    );
}

#[test]
fn session_complete_names_the_session() {
    let ev = WsEvent::SessionComplete { session_id: "s1".to_string() };
    assert_eq!(
        render_event(&ev),
        "{\"event\":\"session_complete\",\"data\":{\"session_id\":\"s1\"}}"
    );
}

#[test]
fn subscribed_names_the_session() {
    let ev = WsEvent::Subscribed { session_id: "s1".to_string() };
    assert_eq!(
        render_event(&ev),
        "{\"event\":\"subscribed\",\"data\":{\"session_id\":\"s1\"}}"
    );
}

#[test]
fn error_carries_the_message() {
    let ev = WsEvent::Error { message: "boom".to_string() };
    assert_eq!(
        render_event(&ev),
        "{\"event\":\"error\",\"data\":{\"message\":\"boom\"}}"
    );
}

#[test]
fn event_strings_are_escaped() {
    let ev = WsEvent::Error { message: "say \"hi\"\\\n".to_string() };
    assert_eq!(
        render_event(&ev),
        "{\"event\":\"error\",\"data\":{\"message\":\"say \\\"hi\\\"\\\\\\n\"}}"
    );
}

#[test]
fn escaping_rewrites_specials_and_keeps_the_rest() {
    assert_eq!(json_escape_str("plain text"), "plain text");
    assert_eq!(json_escape_str("a\"b"), "a\\\"b");
    assert_eq!(json_escape_str("a\\b"), "a\\\\b");
    assert_eq!(json_escape_str("a\nb\tc\rd"), "a\\nb\\tc\\rd");
    assert_eq!(json_escape_str("\u{1}"), "\\u0001");
    assert_eq!(json_escape_str("\u{1f}"), "\\u001f");
    assert_eq!(json_escape_str(""), "");
}
