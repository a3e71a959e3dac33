use codex_talon::command::{TalonCommand, TalonRequest};
use codex_talon::pipeline::{json_to_text, simulate, text_to_json};
use codex_talon::respjson::{response_to_json, state_from_json, status_to_string};
use codex_talon::response::{TalonResponseStatus, PROTOCOL_VERSION};
use codex_talon::state::TalonEditorState;
use codex_talon::status::StatusSummaryCell;

fn state_with(buffer: &str, cursor: usize) -> TalonEditorState {
    TalonEditorState {
        buffer: buffer.to_string(),
        cursor,
        is_task_running: true,
        task_summary: Some("working".to_string()),
        session_id: None,
        cwd: Some("/tmp".to_string()),
    }
}

#[test]
fn response_round_trips_through_serde_json_field_for_field() {
    let initial = state_with("old", 1);
    let req = TalonRequest {
        commands: vec![TalonCommand::SetBuffer { text: "new text".to_string(), cursor: Some(2) }],
    };
    let resp = simulate(initial, &req, 1234);
    let text = json_to_text(&response_to_json(&resp)).unwrap();
    let v: serde_json::Value = serde_json::from_str(&text).unwrap();
    assert_eq!(v.get("version").unwrap().as_u64().unwrap(), PROTOCOL_VERSION);
    assert_eq!(v.get("status").unwrap().as_str().unwrap(), "ok");
    assert_eq!(v.get("timestamp_ms").unwrap().as_u64().unwrap(), 1234);
    let st = v.get("state").unwrap();
    assert_eq!(st.get("buffer").unwrap().as_str().unwrap(), "new text");
    assert_eq!(st.get("cursor").unwrap().as_u64().unwrap(), 2);
    assert_eq!(st.get("is_task_running").unwrap().as_bool().unwrap(), true);
    assert_eq!(st.get("task_summary").unwrap().as_str().unwrap(), "working");
    assert!(st.get("session_id").is_none());
    assert_eq!(st.get("cwd").unwrap().as_str().unwrap(), "/tmp");
    let applied = v.get("applied").unwrap().as_array().unwrap();
    assert_eq!(applied.len(), 1);
    assert_eq!(applied[0].as_str().unwrap(), "set_buffer");
    assert!(v.get("error").is_none());
}

#[test]
fn empty_applied_and_absent_error_are_omitted_from_the_document() {
    let resp = simulate(state_with("b", 0), &TalonRequest { commands: Vec::new() }, 9);
    let text = json_to_text(&response_to_json(&resp)).unwrap();
    let v: serde_json::Value = serde_json::from_str(&text).unwrap();
    assert!(v.get("applied").is_none());
    assert!(v.get("error").is_none());
    assert_eq!(v.get("status").unwrap().as_str().unwrap(), "no_request");
}

#[test]
fn status_words_match_the_wire_contract() {
    assert_eq!(status_to_string(&TalonResponseStatus::Success), "ok");
    assert_eq!(status_to_string(&TalonResponseStatus::NoRequest), "no_request");
    assert_eq!(status_to_string(&TalonResponseStatus::Error), "error");
}

#[test]
fn state_parses_from_json_with_defaults() {
    let j = text_to_json("{}").unwrap();
    let st = state_from_json(&j).unwrap();
    assert_eq!(st.buffer, "");
    assert_eq!(st.cursor, 0);
    assert!(!st.is_task_running);
    assert!(st.task_summary.is_none());
    assert!(st.session_id.is_none());
    assert!(st.cwd.is_none());
}

#[test]
fn state_parses_given_members_and_keeps_the_raw_cursor() {
    let j = text_to_json(r#"{"buffer":"hi","cursor":9,"task_summary":null}"#).unwrap();
    let st = state_from_json(&j).unwrap();
    assert_eq!(st.buffer, "hi");
    assert_eq!(st.cursor, 9);
    assert!(st.task_summary.is_none());
}

#[test]
fn state_with_wrongly_typed_member_is_rejected() {
    let j = text_to_json(r#"{"buffer":5}"#).unwrap();
    assert!(state_from_json(&j).is_err());
    let j2 = text_to_json(r#"{"is_task_running":"yes"}"#).unwrap();
    assert!(state_from_json(&j2).is_err());
}

#[test]
fn json_text_is_real_json() {
    let req = TalonRequest { commands: vec![TalonCommand::GetState] };
    let text = json_to_text(&codex_talon::codec::request_to_json(&req)).unwrap();
    assert!(serde_json::from_str::<serde_json::Value>(&text).is_ok());
    assert_ne!(text, "get_state");
}

#[test]
fn floats_have_no_place_in_the_protocol() {
    assert!(text_to_json(r#"{"cursor":1.5}"#).is_none());
}

#[test]
fn default_state_is_empty() {
    let st = TalonEditorState::default();
    assert_eq!(st.buffer, "");
    assert_eq!(st.cursor, 0);
    assert!(!st.is_task_running);
}

#[test]
fn status_summary_cell_holds_what_was_set() {
    let mut cell = StatusSummaryCell::new();
    assert!(cell.status_summary().is_none());
    cell.set_status_summary(Some("busy".to_string()));
    assert_eq!(cell.status_summary().unwrap(), "busy");
    cell.set_status_summary(None);
    assert!(cell.status_summary().is_none());
}
