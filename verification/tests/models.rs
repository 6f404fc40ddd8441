use codex_island_core::models::{
    CodexSession, DiscoveryObservation, PromptAction, PromptSource, SessionIngestionMode,
    SessionSource, SessionStatus, SessionViewModel, SubmitTarget, TerminalApp,
};
use codex_island_core::session_store::SessionStore;

fn now_ms() -> i64 {
    chrono::Utc::now().timestamp_millis()
}

#[test]
fn creates_running_session_for_new_observation() {
    let mut store = SessionStore::default();

    let changed = store.ingest(vec![DiscoveryObservation {
        pid: 101,
        parent_pid: Some(100),
        tty: Some("/dev/ttys001".into()),
        cwd: Some("/tmp/alpha".into()),
        terminal_app: Some(TerminalApp::Terminal),
        title: "Agent A".into(),
        project_name: Some("alpha".into()),
        source: SessionSource::Cli,
        activity_label: Some("Planning changes".into()),
        interaction_hint: None,
        prompt_actions: vec![],
        prompt_source: None,
        seen_at_unix_ms: 1_000,
        submit_target: None,
    }]);

    let sessions = store.sessions();
    assert!(changed);
    assert_eq!(sessions.len(), 1);
    assert_eq!(sessions[0].status, SessionStatus::Running);
    assert!(!sessions[0].needs_attention);
    assert_eq!(sessions[0].session_id, "cli:/dev/ttys001");
}

#[test]
fn promotes_session_to_waiting_input_and_only_marks_changed_once() {
    let mut store = SessionStore::default();
    let base = DiscoveryObservation {
        pid: 101,
        parent_pid: Some(100),
        tty: Some("/dev/ttys001".into()),
        cwd: Some("/tmp/alpha".into()),
        terminal_app: Some(TerminalApp::Terminal),
        title: "Agent A".into(),
        project_name: Some("alpha".into()),
        source: SessionSource::Cli,
        activity_label: Some("Planning changes".into()),
        interaction_hint: None,
        prompt_actions: vec![],
        prompt_source: None,
        seen_at_unix_ms: 1_000,
        submit_target: None,
    };

    store.ingest(vec![base.clone()]);

    let first_wait = store.ingest(vec![DiscoveryObservation {
        interaction_hint: Some("confirm".into()),
        seen_at_unix_ms: 2_000,
        submit_target: None,
        ..base.clone()
    }]);
    let second_wait = store.ingest(vec![DiscoveryObservation {
        interaction_hint: Some("confirm".into()),
        seen_at_unix_ms: 2_500,
        submit_target: None,
        ..base
    }]);

    let sessions = store.sessions();
    assert!(first_wait);
    assert!(!second_wait);
    assert_eq!(sessions[0].status, SessionStatus::WaitingInput);
    assert!(sessions[0].needs_attention);
}

#[test]
fn removes_missing_sessions_immediately() {
    let mut store = SessionStore::default();

    store.ingest(vec![DiscoveryObservation {
        pid: 101,
        parent_pid: Some(100),
        tty: Some("/dev/ttys001".into()),
        cwd: Some("/tmp/alpha".into()),
        terminal_app: Some(TerminalApp::ITerm),
        title: "Agent A".into(),
        project_name: Some("alpha".into()),
        source: SessionSource::Cli,
        activity_label: Some("Planning changes".into()),
        interaction_hint: None,
        prompt_actions: vec![],
        prompt_source: None,
        seen_at_unix_ms: 1_000,
        submit_target: None,
    }]);

    let changed = store.ingest(vec![]);
    let sessions = store.sessions();

    assert!(changed);
    assert!(sessions.is_empty());
}

fn waiting_session(
    session_id: &str,
    source: SessionSource,
    pid: i32,
    tty: Option<&str>,
    terminal_app: Option<TerminalApp>,
    title: &str,
    submit_target: Option<SubmitTarget>,
) -> CodexSession {
    CodexSession {
        session_id: session_id.into(),
        source,
        pid,
        parent_pid: Some(100),
        tty: tty.map(String::from),
        cwd: Some("/tmp/alpha".into()),
        terminal_app,
        title: title.into(),
        project_name: Some("alpha".into()),
        status: SessionStatus::WaitingInput,
        ingestion_mode: SessionIngestionMode::Fallback,
        needs_attention: true,
        last_activity_at: now_ms(),
        activity_label: Some("Approval required".into()),
        last_snapshot: Some("Continue?".into()),
        latest_user_prompt: None,
        prompt_actions: vec![],
        prompt_source: Some(PromptSource::Thread),
        submit_target,
        notification_sent_at: None,
        last_event_at: None,
        last_observation_at: None,
        transcript_path: None,
        status_history: vec![],
        conversation_history: vec![],
    }
}

#[test]
fn only_terminal_and_iterm_sessions_are_replyable() {
    let cli_without_target = waiting_session(
        "cli:/dev/ttys001",
        SessionSource::Cli,
        101,
        Some("/dev/ttys001"),
        Some(TerminalApp::Terminal),
        "CLI",
        None,
    );
    let cli_with_target = waiting_session(
        "cli:/dev/ttys002",
        SessionSource::Cli,
        102,
        Some("/dev/ttys002"),
        Some(TerminalApp::Unsupported("VS Code".into())),
        "CLI",
        Some(SubmitTarget::ThreadId("thread-123".into())),
    );
    let desktop_with_target = waiting_session(
        "desktop:1",
        SessionSource::Desktop,
        202,
        None,
        None,
        "Desktop",
        Some(SubmitTarget::ThreadId("desktop-thread".into())),
    );
    let vscode = waiting_session(
        "cli:/dev/ttys002",
        SessionSource::Cli,
        103,
        Some("/dev/ttys002"),
        Some(TerminalApp::Unsupported("VS Code".into())),
        "VS Code",
        None,
    );

    assert!(!SessionViewModel::from_session(&cli_without_target).can_reply);
    assert!(SessionViewModel::from_session(&cli_with_target).can_reply);
    assert!(SessionViewModel::from_session(&desktop_with_target).can_reply);
    assert!(!SessionViewModel::from_session(&vscode).can_reply);
}

#[test]
fn sorts_waiting_sessions_ahead_of_running() {
    let mut store = SessionStore::default();

    store.ingest(vec![
        DiscoveryObservation {
            pid: 201,
            parent_pid: Some(100),
            tty: Some("/dev/ttys001".into()),
            cwd: Some("/tmp/alpha".into()),
            terminal_app: Some(TerminalApp::Terminal),
            title: "Running".into(),
            project_name: Some("alpha".into()),
            source: SessionSource::Cli,
            activity_label: Some("Applying patch".into()),
            interaction_hint: None,
            prompt_actions: vec![],
            prompt_source: None,
            seen_at_unix_ms: 1_000,
            submit_target: None,
        },
        DiscoveryObservation {
            pid: 301,
            parent_pid: Some(100),
            tty: Some("/dev/ttys002".into()),
            cwd: Some("/tmp/beta".into()),
            terminal_app: Some(TerminalApp::Terminal),
            title: "Waiting".into(),
            project_name: Some("beta".into()),
            source: SessionSource::Cli,
            activity_label: Some("Continue? [Y/n]".into()),
            interaction_hint: Some("continue?".into()),
            prompt_actions: vec![],
            prompt_source: Some(PromptSource::Terminal),
            seen_at_unix_ms: 1_100,
            submit_target: None,
        },
    ]);

    let sessions = store.sessions();
    assert_eq!(sessions[0].title, "Waiting");
    assert_eq!(sessions[1].title, "Running");
}

#[test]
fn merges_cli_processes_sharing_same_tty_into_one_session() {
    let mut store = SessionStore::default();

    let first = DiscoveryObservation {
        pid: 84269,
        parent_pid: Some(84260),
        tty: Some("/dev/ttys019".into()),
        cwd: Some("/Users/cong/Desktop/AI相关/codex-island".into()),
        terminal_app: Some(TerminalApp::ITerm),
        title: "node codex wrapper".into(),
        project_name: Some("codex-island".into()),
        source: SessionSource::Cli,
        activity_label: Some("Starting".into()),
        interaction_hint: None,
        prompt_actions: vec![],
        prompt_source: None,
        seen_at_unix_ms: 1_000,
        submit_target: None,
    };
    let second = DiscoveryObservation {
        pid: 84275,
        parent_pid: Some(84269),
        tty: Some("/dev/ttys019".into()),
        cwd: Some("/Users/cong/Desktop/AI相关/codex-island".into()),
        terminal_app: Some(TerminalApp::ITerm),
        title: "native codex".into(),
        project_name: Some("codex-island".into()),
        source: SessionSource::Cli,
        activity_label: Some("Applying patch".into()),
        interaction_hint: None,
        prompt_actions: vec![],
        prompt_source: None,
        seen_at_unix_ms: 1_100,
        submit_target: None,
    };

    store.ingest(vec![first, second]);

    let sessions = store.sessions();
    assert_eq!(sessions.len(), 1);
    assert_eq!(sessions[0].session_id, "cli:/dev/ttys019");
    assert_eq!(sessions[0].pid, 84275);
    assert_eq!(sessions[0].title, "native codex");
}

#[test]
fn creates_session_with_submit_target_from_observation() {
    let mut store = SessionStore::default();

    store.ingest(vec![DiscoveryObservation {
        pid: 202,
        parent_pid: Some(201),
        tty: Some("/dev/ttys002".into()),
        cwd: Some("/tmp/beta".into()),
        terminal_app: Some(TerminalApp::Terminal),
        title: "Desktop".into(),
        project_name: Some("beta".into()),
        source: SessionSource::Desktop,
        activity_label: Some("Approval required".into()),
        interaction_hint: Some("continue?".into()),
        prompt_actions: vec![],
        prompt_source: Some(PromptSource::Thread),
        seen_at_unix_ms: 1_000,
        submit_target: Some(SubmitTarget::ThreadId("thread-123".into())),
    }]);

    let session = store.sessions().into_iter().next().unwrap();
    assert_eq!(
        session.submit_target,
        Some(SubmitTarget::ThreadId("thread-123".into()))
    );
    assert!(SessionViewModel::from_session(&session).can_reply);
}

#[test]
fn exposes_prompt_actions_in_view_model() {
    let session = CodexSession {
        session_id: "desktop:1".into(),
        source: SessionSource::Desktop,
        pid: 202,
        parent_pid: None,
        tty: None,
        cwd: Some("/tmp/alpha".into()),
        terminal_app: None,
        title: "Desktop".into(),
        project_name: Some("alpha".into()),
        status: SessionStatus::WaitingInput,
        ingestion_mode: SessionIngestionMode::Fallback,
        needs_attention: true,
        last_activity_at: now_ms(),
        activity_label: Some("Approval required".into()),
        last_snapshot: Some("是否运行此命令？".into()),
        latest_user_prompt: None,
        prompt_actions: vec![
            PromptAction {
                id: "1".into(),
                label: "是".into(),
                reply: "1".into(),
            },
            PromptAction {
                id: "2".into(),
                label: "否".into(),
                reply: "2".into(),
            },
        ],
        prompt_source: Some(PromptSource::Terminal),
        submit_target: Some(SubmitTarget::ThreadId("desktop-thread".into())),
        notification_sent_at: None,
        last_event_at: None,
        last_observation_at: None,
        transcript_path: None,
        status_history: vec![],
        conversation_history: vec![],
    };

    let view = SessionViewModel::from_session(&session);
    assert_eq!(view.action_options.len(), 2);
    assert_eq!(view.action_options[0].reply, "1");
}

#[test]
fn refresh_updates_submit_target_in_existing_session() {
    let mut store = SessionStore::default();

    let base = DiscoveryObservation {
        pid: 202,
        parent_pid: Some(201),
        tty: Some("/dev/ttys002".into()),
        cwd: Some("/tmp/beta".into()),
        terminal_app: Some(TerminalApp::Terminal),
        title: "Desktop".into(),
        project_name: Some("beta".into()),
        source: SessionSource::Desktop,
        activity_label: Some("Approval required".into()),
        interaction_hint: Some("continue?".into()),
        prompt_actions: vec![],
        prompt_source: Some(PromptSource::Thread),
        seen_at_unix_ms: 1_000,
        submit_target: None,
    };

    store.ingest(vec![base.clone()]);
    store.ingest(vec![DiscoveryObservation {
        seen_at_unix_ms: 2_000,
        submit_target: Some(SubmitTarget::ThreadId("thread-456".into())),
        ..base
    }]);

    let session = store.sessions().into_iter().next().unwrap();
    assert_eq!(
        session.submit_target,
        Some(SubmitTarget::ThreadId("thread-456".into()))
    );
    assert!(SessionViewModel::from_session(&session).can_reply);
}
