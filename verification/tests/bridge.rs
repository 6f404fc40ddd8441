use codex_island_core::bridge::{
    focusable_session_from_monitor, parse_command, snapshot_from_monitor, CliCommand,
    SessionMonitor,
};
use codex_island_core::models::{DiscoveryObservation, SessionSource, TerminalApp};

#[derive(Default)]
struct StaticMonitor {
    observations: Vec<DiscoveryObservation>,
}

impl SessionMonitor for StaticMonitor {
    fn poll(&self) -> Vec<DiscoveryObservation> {
        self.observations.clone()
    }
}

#[test]
fn parses_get_sessions_command() {
    let args: Vec<String> = vec!["native-bridge".into(), "get-sessions".into()];

    assert!(matches!(parse_command(&args), Ok(CliCommand::GetSessions)));
}

#[test]
fn snapshot_from_monitor_keeps_waiting_state() {
    let monitor = StaticMonitor {
        observations: vec![DiscoveryObservation {
            pid: 101,
            parent_pid: Some(100),
            tty: Some("/dev/ttys001".into()),
            cwd: Some("/tmp/alpha".into()),
            terminal_app: Some(TerminalApp::Terminal),
            title: "Agent".into(),
            project_name: Some("alpha".into()),
            source: SessionSource::Cli,
            activity_label: Some("Working".into()),
            interaction_hint: Some("Continue with file access approval?".into()),
            prompt_actions: vec![],
            prompt_source: None,
            submit_target: None,
            seen_at_unix_ms: 1_000,
        }],
    };

    let snapshot = snapshot_from_monitor(&monitor);
    assert_eq!(snapshot.summary.waiting, 1);
    assert_eq!(
        snapshot.sessions[0].prompt_text.as_deref(),
        Some("Continue with file access approval?")
    );
}

#[test]
fn focus_session_errors_when_missing_session_is_requested() {
    let monitor = StaticMonitor::default();
    let error = focusable_session_from_monitor(&monitor, "missing-session").unwrap_err();

    assert!(error.contains("missing-session"));
}

#[test]
fn parses_submit_session_reply_command() {
    let args: Vec<String> = vec![
        "native-bridge".into(),
        "submit-session-reply".into(),
        "session-1".into(),
        "hello".into(),
    ];

    assert!(matches!(
        parse_command(&args),
        Ok(CliCommand::SubmitSessionReply { session_id, reply })
            if session_id == "session-1" && reply == "hello"
    ));
}

#[test]
fn submit_session_reply_errors_when_missing_session_is_requested() {
    let monitor = StaticMonitor::default();
    let error = focusable_session_from_monitor(&monitor, "missing-session").unwrap_err();

    assert!(error.contains("missing-session"));
}

#[test]
fn missing_command_reports_usage() {
    let args: Vec<String> = vec!["native-bridge".into()];
    let error = parse_command(&args).unwrap_err();

    assert!(error.contains("missing command"));
    assert!(error.contains("get-sessions"));
}

#[test]
fn missing_focus_session_id_reports_usage() {
    let args: Vec<String> = vec!["native-bridge".into(), "focus-session".into()];
    let error = parse_command(&args).unwrap_err();

    assert!(error.contains("focus-session requires a session id"));
    assert!(error.contains("native-bridge focus-session <session_id>"));
}

#[test]
fn missing_submit_session_reply_text_reports_usage() {
    let args: Vec<String> = vec![
        "native-bridge".into(),
        "submit-session-reply".into(),
        "session-1".into(),
    ];
    let error = parse_command(&args).unwrap_err();

    assert!(error.contains("submit-session-reply requires reply text"));
    assert!(error.contains("native-bridge submit-session-reply <session_id> <reply>"));
}
