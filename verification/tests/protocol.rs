use jcode_app_core::json::JsonValue;
use jcode_app_core::protocol::{
    is_broadcast_event, judge_event, judge_line, latest_assistant_comm_report, read_event_line, HistoryMessage,
    LineOutcome, Request,
};

fn number(n: u64) -> JsonValue {
    JsonValue::Number { text: n.to_string(), whole: Some(n) }
}

fn event(kind: &str, id: Option<u64>, message: Option<&str>) -> JsonValue {
    let mut members = vec![("type".to_string(), JsonValue::Text(kind.to_string()))];
    if let Some(id) = id {
        members.push(("id".to_string(), number(id)));
    }
    if let Some(message) = message {
        members.push(("message".to_string(), JsonValue::Text(message.to_string())));
    }
    JsonValue::Object(members)
}

fn fail(message: &str) -> LineOutcome {
    LineOutcome::Fail(message.to_string())
}

#[test]
fn answers_are_delivered() {
    assert_eq!(judge_event(&event("comm_spawn_response", Some(1), None), 1), LineOutcome::Deliver);
    let nameless = JsonValue::Object(vec![("id".to_string(), number(1))]);
    assert_eq!(judge_event(&nameless, 1), LineOutcome::Deliver);
}

#[test]
fn acks_broadcasts_and_foreign_events_are_skipped() {
    assert_eq!(judge_event(&event("ack", Some(1), None), 1), LineOutcome::Skip);
    assert_eq!(judge_event(&event("swarm_status", Some(1), None), 1), LineOutcome::Skip);
    assert_eq!(judge_event(&event("interrupted", Some(1), None), 1), LineOutcome::Skip);
    assert_eq!(judge_event(&event("comm_spawn_response", Some(2), None), 1), LineOutcome::Skip);
    assert_eq!(judge_event(&event("error", None, Some("boom")), 1), LineOutcome::Skip);
}

#[test]
fn errors_end_the_request() {
    assert_eq!(judge_event(&event("error", Some(1), Some("boom")), 1), fail("boom"));
    assert_eq!(judge_event(&event("error", Some(1), None), 1), fail("unknown error"));
}

#[test]
fn lines_are_read_as_json() {
    assert_eq!(
        read_event_line("  {\"type\": \"comm_stop_response\", \"id\": 1}\r\n", 1),
        LineOutcome::Deliver
    );
    assert_eq!(read_event_line("{\"type\":\"ack\",\"id\":1}\n", 1), LineOutcome::Skip);
    assert_eq!(read_event_line("{\"type\":\"done\",\"id\":-1}\n", 1), LineOutcome::Skip);
    assert_eq!(read_event_line("{\"type\":\"done\",\"id\":\"1\"}\n", 1), LineOutcome::Skip);
    assert_eq!(read_event_line("[1]\n", 1), LineOutcome::Skip);
    assert_eq!(
        read_event_line("{\"type\":\"error\",\"id\":1,\"message\":\"a\\nb\"}\n", 1),
        fail("a\nb")
    );
}

#[test]
fn closed_connections_and_broken_lines_fail() {
    assert_eq!(read_event_line("", 1), fail("Connection closed before receiving response"));
    assert_eq!(
        read_event_line("{\n", 1),
        fail("EOF while parsing an object at line 1 column 1")
    );
    assert_eq!(
        read_event_line("\n", 1),
        fail("EOF while parsing a value at line 1 column 0")
    );
}

#[test]
fn lines_are_judged_by_what_was_read() {
    let answer = || Ok(event("done", Some(4), None));
    assert_eq!(judge_line("x\n", answer(), 4), LineOutcome::Deliver);
    assert_eq!(judge_line("x\n", answer(), 5), LineOutcome::Skip);
    assert_eq!(judge_line("x\n", Err("bad".to_string()), 4), fail("bad"));
    assert_eq!(judge_line("", answer(), 4), fail("Connection closed before receiving response"));
}

#[test]
fn broadcast_types_are_known() {
    let kinds = [
        "swarm_status",
        "swarm_plan",
        "swarm_plan_proposal",
        "swarm_event",
        "notification",
        "soft_interrupt_injected",
        "session",
        "session_id",
        "history",
        "mcp_status",
        "memory_injected",
        "compaction",
        "connection_type",
        "connection_phase",
        "status_detail",
        "upstream_provider",
        "reloading",
        "reload_progress",
        "available_models_updated",
        "side_panel_state",
        "transcript",
        "interrupted",
    ];
    for kind in kinds {
        assert!(is_broadcast_event(kind));
    }
    assert!(!is_broadcast_event("error"));
    assert!(!is_broadcast_event(""));
    assert!(!is_broadcast_event("swarm"));
}

#[test]
fn last_assistant_message_is_found() {
    let message = |role: &str, content: &str| HistoryMessage {
        role: role.to_string(),
        content: content.to_string(),
    };
    let messages =
        vec![message("assistant", "one"), message("assistant", "two"), message("user", "three")];
    assert_eq!(latest_assistant_comm_report(&messages).as_deref(), Some("two"));
    assert_eq!(latest_assistant_comm_report(&vec![message("user", "x")]), None);
    assert_eq!(latest_assistant_comm_report(&vec![]), None);
}

#[test]
fn requests_give_their_id() {
    let stop = Request::CommStop {
        id: 9,
        session_id: "s".to_string(),
        target_session: "t".to_string(),
        force: None,
    };
    assert_eq!(stop.id(), 9);
}
