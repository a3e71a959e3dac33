use codex_talon::codec::{request_from_json, request_to_json, ParseError};
use codex_talon::command::{label_of, TalonCommand, TalonRequest};
use codex_talon::pipeline::{
    handle_request_text, json_to_text, now_timestamp_ms, request_file_name, response_file_name,
    simulate, talon_dir_name, text_to_json,
};
use codex_talon::response::{TalonResponseStatus, PROTOCOL_VERSION};
use codex_talon::state::{clamp_cursor, TalonEditorState};

fn state_with(buffer: &str, cursor: usize) -> TalonEditorState {
    TalonEditorState {
        buffer: buffer.to_string(),
        cursor,
        is_task_running: false,
        task_summary: None,
        session_id: None,
        cwd: None,
    }
}

#[test]
fn empty_command_list_yields_no_request_and_unchanged_state() {
    let initial = state_with("abc", 2);
    let req = TalonRequest { commands: Vec::new() };
    let resp = simulate(initial, &req, 7);
    assert!(matches!(resp.status, TalonResponseStatus::NoRequest));
    assert_eq!(resp.state.buffer, "abc");
    assert_eq!(resp.state.cursor, 2);
    assert!(resp.applied.is_empty());
    assert!(resp.error.is_none());
    assert_eq!(resp.version, PROTOCOL_VERSION);
    assert_eq!(resp.timestamp_ms, 7);
}

#[test]
fn set_cursor_is_clamped_to_buffer_length() {
    let initial = state_with("hello", 0);
    let req = TalonRequest { commands: vec![TalonCommand::SetCursor { cursor: 10_000 }] };
    let resp = simulate(initial, &req, 0);
    assert_eq!(resp.state.cursor, 5);
    assert!(matches!(resp.status, TalonResponseStatus::Success));
}

#[test]
fn set_buffer_without_cursor_places_cursor_at_end() {
    let initial = state_with("", 0);
    let req = TalonRequest {
        commands: vec![TalonCommand::SetBuffer { text: "hello".to_string(), cursor: None }],
    };
    let resp = simulate(initial, &req, 0);
    assert_eq!(resp.state.buffer, "hello");
    assert_eq!(resp.state.cursor, 5);
}

#[test]
fn set_buffer_cursor_is_a_byte_offset() {
    let initial = state_with("", 0);
    let req = TalonRequest {
        commands: vec![TalonCommand::SetBuffer { text: "h\u{e9}llo".to_string(), cursor: None }],
    };
    let resp = simulate(initial, &req, 0);
    assert_eq!(resp.state.cursor, 6);
}

#[test]
fn commands_apply_strictly_in_order() {
    let initial = state_with("", 0);
    let req = TalonRequest {
        commands: vec![
            TalonCommand::SetBuffer { text: "ab".to_string(), cursor: None },
            TalonCommand::SetCursor { cursor: 0 },
        ],
    };
    let resp = simulate(initial, &req, 0);
    assert_eq!(resp.state.cursor, 0);
    assert_eq!(resp.state.buffer, "ab");
    assert_eq!(resp.applied, vec!["set_buffer".to_string(), "set_cursor".to_string()]);
}

#[test]
fn one_label_per_command_in_input_order() {
    let initial = state_with("x", 1);
    let req = TalonRequest {
        commands: vec![
            TalonCommand::GetState,
            TalonCommand::Notify { message: "hi".to_string() },
            TalonCommand::EditPreviousMessage { steps_back: 2 },
            TalonCommand::HistoryPrevious,
            TalonCommand::HistoryNext,
        ],
    };
    let resp = simulate(initial, &req, 0);
    assert_eq!(
        resp.applied,
        vec![
            "get_state".to_string(),
            "notify".to_string(),
            "edit_previous_message".to_string(),
            "history_previous".to_string(),
            "history_next".to_string(),
        ]
    );
    assert_eq!(resp.state.buffer, "x");
    assert_eq!(resp.state.cursor, 1);
}

#[test]
fn label_of_matches_wire_tags() {
    assert_eq!(label_of(&TalonCommand::GetState), "get_state");
    assert_eq!(label_of(&TalonCommand::SetCursor { cursor: 0 }), "set_cursor");
}

#[test]
fn clamp_cursor_pulls_cursor_into_the_buffer() {
    let mut st = state_with("ab", 99);
    clamp_cursor(&mut st);
    assert_eq!(st.cursor, 2);
}

#[test]
fn missing_request_file_yields_no_request() {
    let mut st = state_with("keep", 4);
    let resp = handle_request_text(&mut st, None, 3);
    assert!(matches!(resp.status, TalonResponseStatus::NoRequest));
    assert!(resp.applied.is_empty());
    assert!(resp.error.is_none());
    assert_eq!(resp.state.buffer, "keep");
    assert_eq!(st.buffer, "keep");
    assert_eq!(st.cursor, 4);
}

#[test]
fn blank_request_text_yields_no_request() {
    let mut st = state_with("keep", 2);
    let text = " \t\n ".to_string();
    let resp = handle_request_text(&mut st, Some(&text), 3);
    assert!(matches!(resp.status, TalonResponseStatus::NoRequest));
    assert!(resp.error.is_none());
}

#[test]
fn unicode_whitespace_also_counts_as_blank() {
    let mut st = state_with("keep", 2);
    let text = "\u{00A0}\u{2003}\u{0B}".to_string();
    let resp = handle_request_text(&mut st, Some(&text), 3);
    assert!(matches!(resp.status, TalonResponseStatus::NoRequest));
    assert!(resp.error.is_none());
}

#[test]
fn unknown_command_tag_yields_error_with_message_and_unchanged_state() {
    let mut st = state_with("before", 3);
    let text = r#"{"commands":[{"type":"bogus_tag"}]}"#.to_string();
    let resp = handle_request_text(&mut st, Some(&text), 3);
    assert!(matches!(resp.status, TalonResponseStatus::Error));
    assert!(resp.error.is_some());
    assert_eq!(resp.state.buffer, "before");
    assert_eq!(resp.state.cursor, 3);
    assert_eq!(st.buffer, "before");
    assert_eq!(st.cursor, 3);
    assert!(resp.applied.is_empty());
}

#[test]
fn unknown_tag_after_valid_command_still_fails_whole_request() {
    let mut st = state_with("before", 0);
    let text =
        r#"{"commands":[{"type":"set_buffer","text":"x"},{"type":"nonsense"}]}"#.to_string();
    let resp = handle_request_text(&mut st, Some(&text), 0);
    assert!(matches!(resp.status, TalonResponseStatus::Error));
    assert_eq!(st.buffer, "before");
}

#[test]
fn malformed_json_yields_error() {
    let mut st = state_with("", 0);
    let text = "{not json".to_string();
    let resp = handle_request_text(&mut st, Some(&text), 0);
    assert!(matches!(resp.status, TalonResponseStatus::Error));
    assert!(resp.error.is_some());
}

#[test]
fn request_without_commands_member_is_an_empty_batch() {
    let mut st = state_with("keep", 1);
    let text = "{}".to_string();
    let resp = handle_request_text(&mut st, Some(&text), 0);
    assert!(matches!(resp.status, TalonResponseStatus::NoRequest));
    assert_eq!(st.buffer, "keep");
}

#[test]
fn request_text_applies_commands() {
    let mut st = state_with("", 0);
    let text =
        r#"{"commands":[{"type":"set_buffer","text":"hi there","cursor":2}]}"#.to_string();
    let resp = handle_request_text(&mut st, Some(&text), 0);
    assert!(matches!(resp.status, TalonResponseStatus::Success));
    assert_eq!(st.buffer, "hi there");
    assert_eq!(st.cursor, 2);
    assert_eq!(resp.applied, vec!["set_buffer".to_string()]);
}

#[test]
fn set_buffer_null_cursor_means_end_of_text() {
    let mut st = state_with("", 0);
    let text = r#"{"commands":[{"type":"set_buffer","text":"abc","cursor":null}]}"#.to_string();
    let resp = handle_request_text(&mut st, Some(&text), 0);
    assert!(matches!(resp.status, TalonResponseStatus::Success));
    assert_eq!(st.cursor, 3);
}

#[test]
fn set_cursor_null_is_a_parse_failure() {
    let mut st = state_with("abc", 1);
    let text = r#"{"commands":[{"type":"set_cursor","cursor":null}]}"#.to_string();
    let resp = handle_request_text(&mut st, Some(&text), 0);
    assert!(matches!(resp.status, TalonResponseStatus::Error));
    assert_eq!(st.cursor, 1);
}

#[test]
fn set_buffer_without_text_is_a_parse_failure() {
    let mut st = state_with("abc", 1);
    let text = r#"{"commands":[{"type":"set_buffer"}]}"#.to_string();
    let resp = handle_request_text(&mut st, Some(&text), 0);
    assert!(matches!(resp.status, TalonResponseStatus::Error));
    assert_eq!(st.buffer, "abc");
}

#[test]
fn edit_previous_message_defaults_steps_back_to_zero() {
    let j = text_to_json(r#"{"type":"edit_previous_message"}"#).unwrap();
    let cmd = codex_talon::codec::command_from_json(&j).unwrap();
    assert!(matches!(cmd, TalonCommand::EditPreviousMessage { steps_back: 0 }));
}

#[test]
fn command_that_is_not_an_object_is_rejected() {
    let j = text_to_json(r#"{"commands":[5]}"#).unwrap();
    let err = request_from_json(&j).unwrap_err();
    assert_eq!(err, ParseError::CommandNotObject);
}

#[test]
fn commands_member_that_is_not_an_array_is_rejected() {
    let j = text_to_json(r#"{"commands":5}"#).unwrap();
    let err = request_from_json(&j).unwrap_err();
    assert_eq!(err, ParseError::CommandsNotArray);
}

#[test]
fn request_root_that_is_not_an_object_is_rejected() {
    let j = text_to_json("[1,2]").unwrap();
    let err = request_from_json(&j).unwrap_err();
    assert_eq!(err, ParseError::RootNotObject);
}

#[test]
fn command_without_tag_is_rejected() {
    let j = text_to_json(r#"{"commands":[{"text":"x"}]}"#).unwrap();
    let err = request_from_json(&j).unwrap_err();
    assert_eq!(err, ParseError::MissingCommandTag);
}

#[test]
fn unknown_tag_is_rejected_as_such() {
    let j = text_to_json(r#"{"commands":[{"type":"zap"}]}"#).unwrap();
    let err = request_from_json(&j).unwrap_err();
    assert_eq!(err, ParseError::UnknownCommandTag);
}

#[test]
fn parse_error_messages_are_descriptive() {
    assert_eq!(ParseError::MalformedJson.message(), "failed to parse request JSON");
    assert_eq!(ParseError::UnknownCommandTag.message(), "unknown command type");
}

#[test]
fn request_survives_a_trip_through_the_wire() {
    let req = TalonRequest {
        commands: vec![
            TalonCommand::SetBuffer { text: "hello".to_string(), cursor: Some(3) },
            TalonCommand::Notify { message: "m".to_string() },
        ],
    };
    let text = json_to_text(&request_to_json(&req)).unwrap();
    let back = request_from_json(&text_to_json(&text).unwrap()).unwrap();
    assert_eq!(back.commands.len(), 2);
    assert!(
        matches!(&back.commands[0], TalonCommand::SetBuffer { text, cursor: Some(3) } if text == "hello")
    );
    assert!(matches!(&back.commands[1], TalonCommand::Notify { message } if message == "m"));
}

#[test]
fn sender_request_has_the_documented_shape() {
    let req = TalonRequest { commands: vec![TalonCommand::SetCursor { cursor: 4 }] };
    let text = json_to_text(&request_to_json(&req)).unwrap();
    let v: serde_json::Value = serde_json::from_str(&text).unwrap();
    let cmds = v.get("commands").unwrap().as_array().unwrap();
    assert_eq!(cmds.len(), 1);
    assert_eq!(cmds[0].get("type").unwrap().as_str().unwrap(), "set_cursor");
    assert_eq!(cmds[0].get("cursor").unwrap().as_u64().unwrap(), 4);
}

#[test]
fn sender_omits_an_absent_cursor() {
    let req = TalonRequest {
        commands: vec![TalonCommand::SetBuffer { text: "t".to_string(), cursor: None }],
    };
    let text = json_to_text(&request_to_json(&req)).unwrap();
    let v: serde_json::Value = serde_json::from_str(&text).unwrap();
    let cmd = &v.get("commands").unwrap().as_array().unwrap()[0];
    assert!(cmd.get("cursor").is_none());
    assert_eq!(cmd.get("text").unwrap().as_str().unwrap(), "t");
}

#[test]
fn timestamps_come_from_a_real_clock() {
    let ts = now_timestamp_ms();
    assert!(ts > 1_600_000_000_000);
}

#[test]
fn protocol_file_names_are_fixed() {
    assert_eq!(talon_dir_name(), ".codex-talon");
    assert_eq!(request_file_name(), "request.json");
    assert_eq!(response_file_name(), "response.json");
}
