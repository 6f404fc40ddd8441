use codex_island_core::hooks::parse_hook_event_value;
use codex_island_core::models::{SessionIngestionMode, SessionStatus};
use codex_island_core::hook_config::{hook_config_mergeable, merge_managed_hook_command, Json};
use codex_island_core::hooks::managed_hook_command;

#[test]
fn parses_waiting_hook_event_into_session_event() {
    let event = parse_hook_event_value(
        r#"{
            "session_id": "thread-123",
            "cwd": "/tmp/alpha",
            "tty": "/dev/ttys001",
            "terminal_name": "iTerm.app",
            "event": "Stop",
            "status": "waiting_for_input",
            "pid": 101,
            "prompt": "Continue?",
            "timestamp": 2000
        }"#,
    )
    .expect("event");

    assert_eq!(event.status, SessionStatus::WaitingInput);
    assert_eq!(event.prompt_text.as_deref(), Some("Continue?"));
    assert_eq!(SessionIngestionMode::Hooks.as_str(), "hooks");
}


fn member<'a>(value: &'a Json, key: &str) -> &'a Json {
    match value {
        Json::Object(fields) => &fields.iter().find(|(k, _)| k == key).expect("member").1,
        _ => panic!("not an object"),
    }
}

fn item(value: &Json, index: usize) -> &Json {
    match value {
        Json::Array(items) => &items[index],
        _ => panic!("not an array"),
    }
}

fn items(value: &Json) -> &Vec<Json> {
    match value {
        Json::Array(items) => items,
        _ => panic!("not an array"),
    }
}

fn text(value: &Json) -> &str {
    match value {
        Json::Text(t) => t,
        _ => panic!("not text"),
    }
}

fn object(fields: Vec<(&str, Json)>) -> Json {
    Json::Object(fields.into_iter().map(|(k, v)| (k.to_string(), v)).collect())
}

#[test]
fn merges_managed_hook_command_without_removing_existing_hooks() {
    let current = object(vec![(
        "hooks",
        object(vec![(
            "SessionStart",
            Json::Array(vec![object(vec![(
                "hooks",
                Json::Array(vec![object(vec![
                    ("type", Json::Text("command".into())),
                    ("command", Json::Text("echo existing".into())),
                    ("timeout", Json::Number("5".into())),
                ])]),
            )])]),
        )]),
    )]);
    assert!(hook_config_mergeable(&current));
    let merged = merge_managed_hook_command(current, "python3 ~/.codex/hooks/codex-island-state.py");

    let commands = items(member(item(member(member(&merged, "hooks"), "SessionStart"), 0), "hooks"));
    assert_eq!(commands.len(), 2);
    assert_eq!(text(member(&commands[0], "command")), "echo existing");
    assert_eq!(
        text(member(&commands[1], "command")),
        "python3 ~/.codex/hooks/codex-island-state.py"
    );
    assert_eq!(SessionIngestionMode::Hooks.as_str(), "hooks");
}

#[test]
fn registers_the_hook_once_for_every_event() {
    let merged = merge_managed_hook_command(Json::Text("junk".into()), managed_hook_command());
    let again = merge_managed_hook_command(merged, managed_hook_command());
    for event in ["SessionStart", "UserPromptSubmit", "PreToolUse", "PostToolUse", "Stop"] {
        let commands = items(member(item(member(member(&again, "hooks"), event), 0), "hooks"));
        assert_eq!(commands.len(), 1);
        assert_eq!(text(member(&commands[0], "command")), managed_hook_command());
        assert_eq!(text(member(&commands[0], "type")), "command");
    }
}

#[test]
fn refuses_a_first_group_without_a_hook_list() {
    let current = object(vec![(
        "hooks",
        object(vec![("Stop", Json::Array(vec![object(vec![("name", Json::Null)])]))]),
    )]);
    assert!(!hook_config_mergeable(&current));
}
