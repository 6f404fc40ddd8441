use std::cell::RefCell;

use codex_island_core::focus::{
    applescript_app_name, applescript_string, focus_plan, iterm_focus_script,
    named_application_focus_script, submit_session_reply_with_transport, terminal_focus_script,
    check_submit_responses, FocusPlan, LocalCodexSubmitTransport, LocalSubmitProbe, RpcProgress,
    RpcResponses, SubmitError, SubmitPlan, SubmitTransport,
};
use codex_island_core::models::{
    CodexSession, SessionIngestionMode, SessionSource, SessionStatus, SubmitTarget, TerminalApp,
};

#[derive(Default)]
struct FailingTransport;

impl SubmitTransport for FailingTransport {
    fn submit(&self, _target: &SubmitTarget, _text: &str) -> Result<(), SubmitError> {
        unreachable!("transport should not be called for unsupported targets");
    }
}

#[derive(Default)]
struct RecordingTransport {
    calls: RefCell<Vec<(String, String)>>,
}

impl RecordingTransport {
    fn calls(&self) -> Vec<(String, String)> {
        self.calls.borrow().clone()
    }
}

impl SubmitTransport for RecordingTransport {
    fn submit(&self, target: &SubmitTarget, text: &str) -> Result<(), SubmitError> {
        match target {
            SubmitTarget::ThreadId(thread_id) => {
                self.calls
                    .borrow_mut()
                    .push((thread_id.clone(), text.to_string()));
                Ok(())
            }
            SubmitTarget::DesktopCommandApproval { .. } => Ok(()),
        }
    }
}

fn now_ms() -> i64 {
    chrono::Utc::now().timestamp_millis()
}

fn session(
    session_id: &str,
    source: SessionSource,
    pid: i32,
    parent_pid: Option<i32>,
    tty: Option<&str>,
    cwd: Option<&str>,
    terminal_app: Option<TerminalApp>,
    title: &str,
    project_name: &str,
    last_snapshot: &str,
    submit_target: Option<SubmitTarget>,
) -> CodexSession {
    CodexSession {
        session_id: session_id.into(),
        source,
        pid,
        parent_pid,
        tty: tty.map(String::from),
        cwd: cwd.map(String::from),
        terminal_app,
        title: title.into(),
        project_name: Some(project_name.into()),
        status: SessionStatus::WaitingInput,
        ingestion_mode: SessionIngestionMode::Fallback,
        needs_attention: true,
        last_activity_at: now_ms(),
        activity_label: Some("Needs input".into()),
        last_snapshot: Some(last_snapshot.into()),
        latest_user_prompt: None,
        prompt_actions: vec![],
        prompt_source: None,
        submit_target,
        notification_sent_at: None,
        last_event_at: None,
        last_observation_at: Some(now_ms()),
        transcript_path: None,
        status_history: vec!["Waiting input".into()],
        conversation_history: vec![],
    }
}

#[test]
fn rejects_reply_when_session_has_no_submit_target() {
    let session = session(
        "s1",
        SessionSource::Desktop,
        100,
        None,
        None,
        Some("/tmp/playground"),
        None,
        "Desktop",
        "playground",
        "continue?",
        None,
    );

    let error = submit_session_reply_with_transport(&session, "yes", &FailingTransport)
        .unwrap_err()
        .message();

    assert!(error.contains("unsupported_session_target"));
}

#[test]
fn delegates_reply_to_transport_when_submit_target_exists() {
    let session = session(
        "s1",
        SessionSource::Cli,
        100,
        Some(99),
        Some("/dev/ttys001"),
        Some("/tmp/playground"),
        Some(TerminalApp::Terminal),
        "CLI",
        "playground",
        "continue?",
        Some(SubmitTarget::ThreadId("thread-123".into())),
    );

    let transport = RecordingTransport::default();
    submit_session_reply_with_transport(&session, "yes", &transport).unwrap();
    assert_eq!(transport.calls(), vec![("thread-123".into(), "yes".into())]);
}

#[test]
fn returns_transport_unavailable_when_no_local_submit_channel_is_found() {
    let transport = LocalCodexSubmitTransport::from_probe_result(None);
    let error = transport
        .plan_submit(&SubmitTarget::ThreadId("thread-123".into()), "yes")
        .unwrap_err()
        .message();

    assert!(error.contains("submit_transport_unavailable"));
}

#[test]
fn desktop_sessions_do_not_require_project_directory_for_focus() {
    let session = session(
        "desktop:1",
        SessionSource::Desktop,
        1,
        None,
        None,
        None,
        None,
        "Desktop",
        "codex-island",
        "Allow file access?",
        None,
    );

    assert!(!matches!(focus_plan(&session), FocusPlan::ProjectDirectory));
}

#[test]
fn vscode_sessions_do_not_require_project_directory_for_focus() {
    let session = session(
        "cli:/dev/ttys001",
        SessionSource::Cli,
        1,
        None,
        Some("/dev/ttys001"),
        None,
        Some(TerminalApp::Unsupported("VS Code".into())),
        "CLI",
        "codex-island",
        "Allow file access?",
        None,
    );

    assert!(!matches!(focus_plan(&session), FocusPlan::ProjectDirectory));
}

#[test]
fn iterm_focus_script_restores_minimized_windows() {
    let script = iterm_focus_script("ttys001");

    assert!(script.contains("reopen"));
    assert!(script.contains("set miniaturized of w to false"));
    assert!(script.contains("set current tab to t"));
    assert!(script.contains("set frontmost to true"));
    assert!(script.contains("error \"TTY_NOT_FOUND\""));
}

#[test]
fn terminal_focus_script_restores_minimized_windows() {
    let script = terminal_focus_script("ttys001");

    assert!(script.contains("reopen"));
    assert!(script.contains("set miniaturized of w to false"));
    assert!(script.contains("set frontmost of w to true"));
    assert!(script.contains("error \"TTY_NOT_FOUND\""));
}

#[test]
fn named_application_focus_script_restores_minimized_windows() {
    let script = named_application_focus_script("Visual Studio Code");

    assert!(script.contains("reopen"));
    assert!(script.contains("set miniaturized of w to false"));
    assert!(script.contains("activate"));
}

#[test]
fn escapes_applescript_string_content() {
    assert_eq!(applescript_string("say \"hi\""), "\"say \\\"hi\\\"\"");
}

#[test]
fn converts_newlines_and_carriage_returns_for_applescript() {
    assert_eq!(
        applescript_string("say\nhi\r\nthere"),
        "\"say\" & return & \"hi\" & return & \"there\""
    );
}

#[test]
fn maps_editor_app_names_for_applescript() {
    assert_eq!(applescript_app_name("VS Code"), "Visual Studio Code");
    assert_eq!(applescript_app_name("Cursor"), "Cursor");
}

const INITIALIZE_RESULT: &str = "{\"id\":0,\"result\":{\"userAgent\":\"Codex Desktop\",\"codexHome\":\"/Users/cong/.codex\",\"platformFamily\":\"unix\",\"platformOs\":\"macos\"}}";

/// The app server's command line, the requests the transport plans to write
/// to it, and the result of reading `stdout` back as its answers.
fn submit_over_stdio(script: &str, stdout: &[&str]) -> (Vec<String>, Result<(), SubmitError>) {
    let transport = LocalCodexSubmitTransport::from_probe_result(Some(LocalSubmitProbe {
        command: vec!["/bin/sh".into(), "-c".into(), script.into()],
    }));
    let target = SubmitTarget::ThreadId("thread-123".into());
    let plan = transport.plan_submit(&target, "yes").expect("plan");
    let SubmitPlan::AppServer { program, args, requests } = plan else {
        panic!("expected the app server");
    };
    assert_eq!(program, "/bin/sh");
    assert_eq!(args, vec!["-c".to_string(), script.to_string()]);

    let mut reader = RpcResponses::new();
    let mut complete = false;
    for line in stdout {
        match reader.accept_line(line) {
            RpcProgress::Waiting => {}
            RpcProgress::Complete => {
                complete = true;
                break;
            }
            RpcProgress::Failed(error) => return (requests, Err(error)),
        }
    }
    if !complete {
        return (requests, Err(RpcResponses::exhausted()));
    }
    let result = check_submit_responses(&reader.responses, &target);
    (requests, result)
}

fn parsed(line: &str) -> serde_json::Value {
    serde_json::from_str(line).expect("json request")
}

#[test]
fn submits_reply_over_stdio_app_server_transport() {
    let script = r#"python3 -c 'import json,sys
sys.stdout.write("{\"id\":0,\"result\":{\"userAgent\":\"Codex Desktop\",\"codexHome\":\"/Users/cong/.codex\",\"platformFamily\":\"unix\",\"platformOs\":\"macos\"}}\n")
sys.stdout.write("{\"id\":1,\"result\":{\"threadId\":\"thread-123\",\"turns\":[]}}\n")
sys.stdout.write("{\"id\":2,\"result\":{\"thread\":{\"id\":\"thread-123\",\"turns\":[]}}}\n")
sys.stdout.write("{\"id\":3,\"result\":{\"turnId\":\"turn-456\"}}\n")
sys.stdout.flush()
'"#;
    let (requests, result) = submit_over_stdio(
        script,
        &[
            INITIALIZE_RESULT,
            "{\"id\":1,\"result\":{\"threadId\":\"thread-123\",\"turns\":[]}}",
            "{\"id\":2,\"result\":{\"thread\":{\"id\":\"thread-123\",\"turns\":[]}}}",
            "{\"id\":3,\"result\":{\"turnId\":\"turn-456\"}}",
        ],
    );
    result.unwrap();

    let req0 = parsed(&requests[0]);
    let req1 = parsed(&requests[2]);
    let req2 = parsed(&requests[3]);
    let req3 = parsed(&requests[4]);
    assert_eq!(req0["method"], "initialize");
    assert_eq!(req0["params"]["clientInfo"]["name"], "codex-island");
    assert_eq!(requests[1], "{\"method\":\"initialized\"}");
    assert_eq!(req1["method"], "thread/read");
    assert_eq!(req1["params"], parsed("{\"threadId\":\"thread-123\",\"includeTurns\":false}"));
    assert_eq!(req2["method"], "thread/resume");
    assert_eq!(req2["params"], parsed("{\"threadId\":\"thread-123\"}"));
    assert_eq!(req3["method"], "turn/start");
    assert_eq!(req3["params"]["threadId"], "thread-123");
    assert_eq!(
        req3["params"]["input"],
        parsed("[{\"type\":\"text\",\"text\":\"yes\",\"text_elements\":[]}]")
    );
}

#[test]
fn surfaces_transport_failed_when_stdio_submit_command_returns_rpc_error() {
    let script = r#"python3 -c 'import sys
sys.stdout.write("{\"id\":0,\"result\":{\"userAgent\":\"Codex Desktop\",\"codexHome\":\"/Users/cong/.codex\",\"platformFamily\":\"unix\",\"platformOs\":\"macos\"}}\n")
sys.stdout.write("{\"id\":1,\"error\":{\"code\":-32000,\"message\":\"missing thread\"}}\n")
sys.stdout.flush()
'"#;
    let (_, result) = submit_over_stdio(
        script,
        &[
            INITIALIZE_RESULT,
            "{\"id\":1,\"error\":{\"code\":-32000,\"message\":\"missing thread\"}}",
        ],
    );
    let error = result.unwrap_err().message();

    assert!(error.contains("submit_transport_failed"));
    assert!(error.contains("missing thread"));
}

#[test]
fn ignores_stderr_warnings_when_stdio_submit_command_succeeds() {
    let script = r#"python3 -c 'import sys
sys.stdout.write("{\"id\":0,\"result\":{\"userAgent\":\"Codex Desktop\",\"codexHome\":\"/Users/cong/.codex\",\"platformFamily\":\"unix\",\"platformOs\":\"macos\"}}\n")
sys.stdout.write("{\"id\":1,\"result\":{\"threadId\":\"thread-123\",\"turns\":[]}}\n")
sys.stdout.write("{\"id\":2,\"result\":{\"thread\":{\"id\":\"thread-123\",\"turns\":[]}}}\n")
sys.stdout.write("{\"id\":3,\"result\":{\"turnId\":\"turn-456\"}}\n")
sys.stdout.flush()
sys.stderr.write("warning: plugin sync failed\n")
sys.stderr.flush()
'"#;
    let (_, result) = submit_over_stdio(
        script,
        &[
            INITIALIZE_RESULT,
            "{\"id\":1,\"result\":{\"threadId\":\"thread-123\",\"turns\":[]}}",
            "{\"id\":2,\"result\":{\"thread\":{\"id\":\"thread-123\",\"turns\":[]}}}",
            "{\"id\":3,\"result\":{\"turnId\":\"turn-456\"}}",
        ],
    );
    result.unwrap();
}
