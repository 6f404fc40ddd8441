use codex_island_core::bridge::parse_command;
use codex_island_core::discovery::{
    desktop_state_for_thread_at, escalation_actions, infer_interaction_hint, infer_terminal_prompt,
    pending_escalation_prompt, resolve_desktop_attention, PendingInput, ThreadRow,
};
use codex_island_core::focus::{applescript_string, frame_ipc_payload, ipc_frame_len};
use codex_island_core::hook_config::{hook_config_mergeable, merge_managed_hook_command, Json};
use codex_island_core::hooks::{events_since, parse_hook_event_at};
use codex_island_core::models::{
    CodexSession, DiscoveryObservation, PromptSource, SessionEvent, SessionIngestionMode,
    SessionSource, SessionStatus, SubmitTarget, TerminalApp,
};
use codex_island_core::focus::{focus_plan, FocusPlan};
use codex_island_core::state::CoreState;
use codex_island_core::discovery::cli_state_from_thread;
use codex_island_core::session_store::{pending_notifications, SessionStore};
use codex_island_core::window::{expanded_height, fullscreen_overlay_level, ExpandedView};

fn observation(pid: i32, tty: &str, hint: Option<&str>, seen_at: i64) -> DiscoveryObservation {
    DiscoveryObservation {
        pid,
        parent_pid: Some(1),
        tty: Some(tty.into()),
        cwd: Some("/tmp/alpha".into()),
        terminal_app: Some(TerminalApp::Terminal),
        title: "Agent".into(),
        project_name: Some("alpha".into()),
        source: SessionSource::Cli,
        activity_label: Some("Working".into()),
        interaction_hint: hint.map(String::from),
        prompt_actions: vec![],
        prompt_source: None,
        submit_target: None,
        seen_at_unix_ms: seen_at,
    }
}

#[test]
fn polling_the_same_processes_twice_changes_nothing() {
    let mut store = SessionStore::new();
    let polled = vec![
        observation(10, "/dev/ttys001", None, 1_000),
        observation(20, "/dev/ttys002", Some("Continue?"), 1_000),
    ];
    assert!(store.ingest_observations_at(polled.clone(), 5_000));
    let before = store.sessions();
    assert!(!store.ingest_observations_at(polled, 5_000));
    let after = store.sessions();
    assert_eq!(before.len(), after.len());
    for (a, b) in before.iter().zip(after.iter()) {
        assert!(a.same_as(b));
    }
}

#[test]
fn attention_is_notified_once() {
    let mut store = SessionStore::new();
    store.ingest_observations_at(vec![observation(20, "/dev/ttys002", Some("Continue?"), 1_000)], 5_000);
    assert_eq!(pending_notifications(&store.sessions()).len(), 1);
    store.mark_notifications_sent(6_000);
    assert!(pending_notifications(&store.sessions()).is_empty());
}

#[test]
fn frame_header_announces_payload_length() {
    let payload = b"{\"type\":\"request\"}".to_vec();
    let frame = frame_ipc_payload(&payload);
    assert_eq!(frame.len(), payload.len() + 4);
    assert_eq!(&frame[..4], &[18, 0, 0, 0]);
    assert_eq!(ipc_frame_len([frame[0], frame[1], frame[2], frame[3]]), payload.len());
    assert_eq!(&frame[4..], &payload[..]);

    let large = vec![b'x'; 70_000];
    let frame = frame_ipc_payload(&large);
    assert_eq!(ipc_frame_len([frame[0], frame[1], frame[2], frame[3]]), 70_000);
}

#[test]
fn expanded_island_height_is_bounded_and_grows_with_sessions() {
    let mut last = 0;
    for count in 0..20 {
        let height = expanded_height(ExpandedView::List, count);
        assert!(height <= 360);
        assert!(height >= last);
        last = height;
    }
    assert_eq!(expanded_height(ExpandedView::List, 1_000), 360);
    assert!(expanded_height(ExpandedView::Detail, 1_000) <= 360);
}

#[test]
fn overlay_level_dominates_every_level() {
    for (status, saver, shielding) in [(25, 1000, 120), (-5, -9, -20), (7, 7, 7)] {
        let level = fullscreen_overlay_level(status, saver, shielding);
        assert!(level >= status && level >= saver && level > shielding);
    }
}

#[test]
fn applescript_strings_are_single_lines() {
    let escaped = applescript_string("one\rtwo\r\nthree\nfour \"q\" \\");
    assert!(!escaped.contains('\n') && !escaped.contains('\r'));
    assert_eq!(
        escaped,
        "\"one\" & return & \"two\" & return & \"three\" & return & \"four \\\"q\\\" \\\\\""
    );
}

#[test]
fn refused_command_lines_end_with_usage() {
    for args in [
        vec!["native-bridge".to_string()],
        vec!["native-bridge".to_string(), "frobnicate".to_string()],
        vec!["native-bridge".to_string(), "submit-session-reply".to_string()],
    ] {
        let error = parse_command(&args).unwrap_err();
        assert!(error.ends_with("native-bridge submit-session-reply <session_id> <reply>"));
    }
    let error = parse_command(&["x".to_string(), "frobnicate".to_string()]).unwrap_err();
    assert!(error.starts_with("unknown command: frobnicate\nusage:"));
}

#[test]
fn rollout_attention_survives_desktop_resolution() {
    let pending = PendingInput {
        prompt: "Proceed?".into(),
        actions: vec![],
        source: PromptSource::Thread,
        submit_target: None,
    };
    let resolved = resolve_desktop_attention("thread-9", Some(pending.clone()), Some("12".into()))
        .expect("attention");
    assert_eq!(resolved.prompt, pending.prompt);
    assert_eq!(resolved.actions, pending.actions);
    assert!(resolved.submit_target.is_none());
}

#[test]
fn desktop_state_always_names_a_reply_target() {
    let thread = ThreadRow {
        thread_id: "thread-7".into(),
        rollout_path: "/tmp/r".into(),
        cwd: "/tmp/project/".into(),
        title: "T".into(),
        created_at: 0,
        updated_at: 100,
    };
    let state = desktop_state_for_thread_at(thread, None, None, 120_000).expect("state");
    assert_eq!(state.submit_target, Some(SubmitTarget::ThreadId("thread-7".into())));
    assert_eq!(state.activity_label.as_deref(), Some("Working"));
    assert_eq!(state.project_name.as_deref(), Some("project"));
}

#[test]
fn pending_escalations_offer_the_escalation_answers() {
    let lines = [
        r#"{"payload":{"type":"function_call","call_id":"a","arguments":"{\"sandbox_permissions\":\"require_escalated\"}"}}"#,
    ];
    let pending = pending_escalation_prompt(&lines).expect("pending");
    assert_eq!(pending.actions, escalation_actions());
    assert_eq!(pending.prompt, "Approval required");
    assert_eq!(pending.source, PromptSource::Thread);
}

#[test]
fn numbered_answers_reply_with_their_number() {
    let pending = infer_terminal_prompt("10. Ten\n2 . Two\nx. No\n3.\nPress Enter to continue\n")
        .expect("prompt");
    assert_eq!(pending.actions.len(), 2);
    for action in &pending.actions {
        assert_eq!(action.reply, action.id);
    }
    assert_eq!(pending.actions[0].id, "10");
    assert_eq!(pending.actions[1].id, "2");
    assert_eq!(pending.actions[1].label, "Two");
}

#[test]
fn interaction_hint_is_the_last_confirmation_before_prompts() {
    assert_eq!(
        infer_interaction_hint("Allow access?\nApprove edits? (y/n)\n$\n%").as_deref(),
        Some("Approve edits? (y/n)")
    );
    assert!(infer_interaction_hint("Approve edits? (y/n)\nrunning\n").is_none());
}

#[test]
fn cached_events_are_fresh() {
    let lines = vec![
        r#"{"session_id":"a","status":"idle","timestamp":10000}"#.to_string(),
        r#"{"session_id":"b","status":"idle","timestamp":95000}"#.to_string(),
        r#"{"session_id":"c","status":"idle"}"#.to_string(),
        "not json".to_string(),
    ];
    let events = events_since(&lines, 100_000);
    let ids = events.iter().map(|e| e.session_id.as_str()).collect::<Vec<_>>();
    assert_eq!(ids, vec!["b", "c"]);
    assert!(events.iter().all(|e| e.happened_at_unix_ms >= 70_000));
}

#[test]
fn hook_events_target_their_thread() {
    let event = parse_hook_event_at(r#"{"session_id":"t-1","status":"processing","tool":"shell"}"#, 7)
        .expect("event");
    assert_eq!(event.submit_target, Some(SubmitTarget::ThreadId("t-1".into())));
    assert_eq!(event.thread_id.as_deref(), Some("t-1"));
    assert_eq!(event.activity_label.as_deref(), Some("Running shell"));
    assert_eq!(event.happened_at_unix_ms, 7);
}

fn json_eq(a: &Json, b: &Json) -> bool {
    match (a, b) {
        (Json::Null, Json::Null) => true,
        (Json::Bool(x), Json::Bool(y)) => x == y,
        (Json::Number(x), Json::Number(y)) => x == y,
        (Json::Text(x), Json::Text(y)) => x == y,
        (Json::Array(x), Json::Array(y)) => {
            x.len() == y.len() && x.iter().zip(y.iter()).all(|(p, q)| json_eq(p, q))
        }
        (Json::Object(x), Json::Object(y)) => {
            x.len() == y.len()
                && x.iter().zip(y.iter()).all(|(p, q)| p.0 == q.0 && json_eq(&p.1, &q.1))
        }
        _ => false,
    }
}

fn hook_list(config: &Json, event: &str) -> Vec<String> {
    let Json::Object(root) = config else { panic!("not an object") };
    let Some((_, Json::Object(hooks))) = root.iter().find(|(k, _)| k == "hooks") else {
        panic!("no hooks")
    };
    let Some((_, Json::Array(groups))) = hooks.iter().find(|(k, _)| k == event) else {
        panic!("no event")
    };
    let Json::Object(first) = &groups[0] else { panic!("no group") };
    let Some((_, Json::Array(list))) = first.iter().find(|(k, _)| k == "hooks") else {
        panic!("no list")
    };
    list.iter()
        .map(|hook| match hook {
            Json::Object(fields) => match fields.iter().find(|(k, _)| k == "command") {
                Some((_, Json::Text(t))) => t.clone(),
                _ => String::new(),
            },
            _ => String::new(),
        })
        .collect()
}

fn existing_config() -> Json {
    let hook = |command: &str| {
        Json::Object(vec![
            ("type".into(), Json::Text("command".into())),
            ("command".into(), Json::Text(command.into())),
        ])
    };
    let group = |commands: Vec<Json>| Json::Object(vec![("hooks".into(), Json::Array(commands))]);
    Json::Object(vec![
        ("theme".into(), Json::Text("dark".into())),
        (
            "hooks".into(),
            Json::Object(vec![
                ("Stop".into(), Json::Array(vec![group(vec![hook("echo a"), hook("echo b")])])),
                ("PreToolUse".into(), Json::Array(vec![group(vec![hook("island")])])),
                ("Custom".into(), Json::Array(vec![])),
            ]),
        ),
    ])
}

#[test]
fn merging_keeps_existing_hooks_in_place() {
    let config = existing_config();
    assert!(hook_config_mergeable(&config));
    let merged = merge_managed_hook_command(existing_config(), "island");
    assert_eq!(hook_list(&merged, "Stop"), vec!["echo a", "echo b", "island"]);
    assert_eq!(hook_list(&merged, "PreToolUse"), vec!["island"]);
    assert_eq!(hook_list(&merged, "SessionStart"), vec!["island"]);
    assert_eq!(hook_list(&merged, "UserPromptSubmit"), vec!["island"]);
    assert_eq!(hook_list(&merged, "PostToolUse"), vec!["island"]);
}

#[test]
fn merging_twice_changes_nothing() {
    let once = merge_managed_hook_command(existing_config(), "island");
    assert!(hook_config_mergeable(&once));
    let twice = merge_managed_hook_command(merge_managed_hook_command(existing_config(), "island"), "island");
    assert!(json_eq(&once, &twice));
    assert!(!json_eq(&once, &existing_config()));
}

fn waiting_event(tty: &str, at: i64) -> SessionEvent {
    SessionEvent {
        session_id: "thread-9".into(),
        thread_id: Some("thread-9".into()),
        source: SessionSource::Cli,
        pid: Some(10),
        cwd: Some("/tmp/alpha".into()),
        tty: Some(tty.into()),
        terminal_app: Some(TerminalApp::Terminal),
        title: Some("Agent".into()),
        project_name: Some("alpha".into()),
        activity_label: Some("Waiting".into()),
        prompt_text: Some("Allow?".into()),
        user_prompt: None,
        prompt_actions: vec![],
        prompt_source: Some(PromptSource::Thread),
        submit_target: None,
        status: SessionStatus::WaitingInput,
        transcript_path: None,
        happened_at_unix_ms: at,
    }
}

#[test]
fn a_recent_hook_event_keeps_its_status_against_a_poll() {
    let mut store = SessionStore::new();
    store.ingest_event_at(waiting_event("/dev/ttys001", 100_000), 100_000);
    let mut seen = observation(10, "/dev/ttys001", None, 130_000);
    seen.submit_target = Some(SubmitTarget::ThreadId("thread-9".into()));
    let changed = store.ingest_observations_at(vec![seen], 130_000);
    let session = store.get("cli:/dev/ttys001").expect("session");
    assert_eq!(session.status, SessionStatus::WaitingInput);
    assert!(session.needs_attention);
    assert_eq!(session.last_snapshot.as_deref(), Some("Allow?"));
    assert!(changed);

    let later = observation(10, "/dev/ttys001", None, 200_000);
    store.ingest_observations_at(vec![later], 200_000);
    let session = store.get("cli:/dev/ttys001").expect("session");
    assert_eq!(session.status, SessionStatus::Running);
    assert!(!session.needs_attention);
}

#[test]
fn the_last_observation_sets_the_status() {
    let mut store = SessionStore::new();
    let first = observation(10, "/dev/ttys001", None, 1_000);
    let last = observation(10, "/dev/ttys001", Some("Continue?"), 2_000);
    store.ingest_observations_at(vec![first, last], 5_000);
    let session = store.get("cli:/dev/ttys001").expect("session");
    assert_eq!(session.status, SessionStatus::WaitingInput);
    assert!(session.needs_attention);
    assert_eq!(session.last_snapshot.as_deref(), Some("Continue?"));
    assert_eq!(session.ingestion_mode, SessionIngestionMode::Fallback);
}

#[test]
fn snapshot_lists_each_session_once_in_display_order() {
    let mut state = CoreState::default();
    state.store.ingest_observations_at(
        vec![
            observation(10, "/dev/ttys001", None, 1_000),
            observation(20, "/dev/ttys002", Some("Continue?"), 3_000),
            observation(30, "/dev/ttys003", None, 2_000),
        ],
        5_000,
    );
    let snapshot = state.snapshot_at(5_000);
    let ids: Vec<&str> = snapshot.sessions.iter().map(|s| s.session_id.as_str()).collect();
    assert_eq!(ids, vec!["cli:/dev/ttys002", "cli:/dev/ttys003", "cli:/dev/ttys001"]);
    assert_eq!(snapshot.summary.total, 3);
    assert_eq!(snapshot.summary.waiting, 1);
    assert_eq!(snapshot.summary.running, 2);
}

#[test]
fn focusing_desktop_or_editor_sessions_skips_the_project_directory() {
    let mut store = SessionStore::new();
    let mut desktop = observation(40, "/dev/ttys009", None, 1_000);
    desktop.source = SessionSource::Desktop;
    desktop.tty = None;
    let mut editor = observation(50, "/dev/ttys010", None, 1_000);
    editor.terminal_app = Some(TerminalApp::Unsupported("VS Code".into()));
    editor.cwd = None;
    store.ingest_observations_at(vec![desktop, editor], 5_000);
    let desktop: CodexSession = store.get("desktop:40").expect("desktop");
    let editor: CodexSession = store.get("cli:/dev/ttys010").expect("editor");
    assert!(matches!(focus_plan(&desktop), FocusPlan::Desktop));
    assert!(matches!(focus_plan(&editor), FocusPlan::Application(name) if name == "VS Code"));
}

#[test]
fn cli_sessions_always_have_an_active_status_line() {
    let state = cli_state_from_thread(Some("$ ls\nfoo"), None, None, 0).expect("state");
    assert_eq!(state.activity_label.as_deref(), Some("Idle"));
    assert!(state.interaction_hint.is_none());
    assert!(state.prompt_source.is_none());
}
