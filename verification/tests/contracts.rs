use codex_island_core::discovery::{
    cli_state_from_thread, cli_thread_query_for_cwd, codex_log_directory,
    codex_log_directory_for_today, cwd_basename, cwd_from_lsof_output,
    desktop_pending_command_approval_request_id, is_desktop_log_for_pid,
    is_recent_unix_secs_at, looks_like_active_codex_status, now_unix_ms,
    observation_from_process, parse_process_row, parse_thread_row, process_title,
    rollout_file_is_recent, rollout_window_start, select_cli_thread_for_process,
    terminal_app_for_named_process, terminal_app_for_process, terminal_app_from_probes,
    terminal_snapshot_script, thread_rows_from_output, tty_from_ps_output, CliState, ProcessKind,
    ProcessRow, ThreadRow,
};
use codex_island_core::focus::{
    app_server_silence, build_submit_requests, check_submit_responses, ensure_json_rpc_success,
    fresh_ipc_request_id, ipc_approval_step, ipc_initialize_step, latest_ipc_socket_name,
    map_desktop_approval_reply, read_ipc_payload, reply_script, IpcStep,
    LocalCodexSubmitTransport, LocalSubmitProbe, RpcProgress, RpcResponses, SubmitError,
    SubmitPlan,
};
use codex_island_core::hooks::parse_terminal_app;
use codex_island_core::models::{
    new_mock_sessions, relative_time_label, CodexSession, SessionIngestionMode, SessionSource,
    SessionStatus, SubmitTarget, TerminalApp,
};
use codex_island_core::time::unix_ms_to_utc_at;

#[test]
fn submit_error_messages() {
    assert_eq!(
        SubmitError::unsupported_session_target("s1").message(),
        "unsupported_session_target: session s1 has no submit target"
    );
    assert_eq!(
        SubmitError::transport_unavailable().message(),
        "submit_transport_unavailable: no local submit transport found"
    );
    assert_eq!(
        SubmitError::transport_failed("boom").message(),
        "submit_transport_failed: boom"
    );
}

#[test]
fn plans_app_server_submission_with_quoted_requests() {
    let transport =
        LocalCodexSubmitTransport::from_probe_result(LocalSubmitProbe::detect(true));
    let plan = transport
        .plan_submit(&SubmitTarget::ThreadId("thread-\"1\"".into()), "say \"hi\"")
        .expect("plan");
    match plan {
        SubmitPlan::AppServer { program, args, requests } => {
            assert_eq!(program, "/Applications/Codex.app/Contents/Resources/codex");
            assert_eq!(args, vec!["app-server", "--listen", "stdio://"]);
            assert_eq!(requests.len(), 5);
            assert_eq!(requests[1], "{\"method\":\"initialized\"}");
            assert_eq!(
                requests[3],
                "{\"id\":2,\"method\":\"thread/resume\",\"params\":{\"threadId\":\"thread-\\\"1\\\"\"}}"
            );
            let turn: serde_json::Value = serde_json::from_str(&requests[4]).unwrap();
            assert_eq!(turn["params"]["input"][0]["text"], "say \"hi\"");
            assert_eq!(turn["params"]["threadId"], "thread-\"1\"");
        }
        other => panic!("unexpected plan {other:?}"),
    }
    assert!(LocalSubmitProbe::detect(false).is_none());
}

#[test]
fn plans_desktop_approvals_by_reply_number() {
    let transport = LocalCodexSubmitTransport::from_probe_result(None);
    let target = SubmitTarget::DesktopCommandApproval {
        conversation_id: "c".into(),
        request_id: "r".into(),
    };
    match transport.plan_submit(&target, " 2 \n").expect("plan") {
        SubmitPlan::DesktopApproval { conversation_id, request_id, decision } => {
            assert_eq!((conversation_id.as_str(), request_id.as_str()), ("c", "r"));
            assert_eq!(decision, "acceptForSession");
        }
        other => panic!("unexpected plan {other:?}"),
    }
    let error = transport.plan_submit(&target, "yes").unwrap_err();
    assert_eq!(
        error,
        SubmitError::transport_failed("unsupported desktop approval reply: yes")
    );
    assert_eq!(map_desktop_approval_reply("1"), Some("accept"));
    assert_eq!(map_desktop_approval_reply("3"), Some("decline"));
    assert_eq!(map_desktop_approval_reply("4"), None);
}

#[test]
fn json_rpc_failures_are_reported() {
    let missing = ensure_json_rpc_success(&vec![], 0, "initialize").unwrap_err();
    assert_eq!(missing.message(), "submit_transport_failed: missing JSON-RPC response for initialize");

    let responses = vec![
        r#"{"id":1,"error":{"code":-32000,"message":"missing thread"}}"#.to_string(),
        r#"{"id":2}"#.to_string(),
        r#"{"id":3,"error":"bad"}"#.to_string(),
    ];
    assert_eq!(
        ensure_json_rpc_success(&responses, 1, "thread/read").unwrap_err().message(),
        "submit_transport_failed: thread/read failed with code -32000: missing thread"
    );
    assert_eq!(
        ensure_json_rpc_success(&responses, 2, "thread/resume").unwrap_err().message(),
        "submit_transport_failed: thread/resume returned no result"
    );
    assert_eq!(
        ensure_json_rpc_success(&responses, 3, "turn/start").unwrap_err().message(),
        "submit_transport_failed: turn/start failed with code 0: unknown JSON-RPC error"
    );
}

#[test]
fn thread_read_must_answer_for_the_thread_asked() {
    let responses = vec![
        r#"{"id":0,"result":{}}"#.to_string(),
        r#"{"id":1,"result":{"threadId":"other"}}"#.to_string(),
        r#"{"id":2,"result":{}}"#.to_string(),
        r#"{"id":3,"result":{}}"#.to_string(),
    ];
    let error = check_submit_responses(&responses, &SubmitTarget::ThreadId("thread-1".into()))
        .unwrap_err();
    assert_eq!(
        error.message(),
        "submit_transport_failed: thread/read returned unexpected thread id other"
    );
    assert!(check_submit_responses(&responses, &SubmitTarget::ThreadId("other".into())).is_ok());
}

#[test]
fn reads_app_server_output_until_all_answered() {
    let mut collected = RpcResponses::new();
    assert!(matches!(collected.accept_line("   "), RpcProgress::Waiting));
    assert!(matches!(collected.accept_line(r#"{"id":0,"result":{}}"#), RpcProgress::Waiting));
    assert!(matches!(collected.accept_line(r#"{"id":2,"result":{}}"#), RpcProgress::Waiting));
    assert!(matches!(collected.accept_line(r#"{"id":1,"result":{}}"#), RpcProgress::Waiting));
    assert!(matches!(collected.accept_line(r#" {"id":3,"result":{}} "#), RpcProgress::Complete));
    assert_eq!(collected.responses.len(), 4);
    assert_eq!(collected.responses[3], r#"{"id":3,"result":{}}"#);

    let mut failing = RpcResponses::new();
    assert!(matches!(failing.accept_line(r#"{"id":1,"error":{}}"#), RpcProgress::Complete));
    match failing.accept_line("not json") {
        RpcProgress::Failed(error) => assert!(error
            .message()
            .starts_with("submit_transport_failed: invalid JSON-RPC response from app-server: expected")),
        other => panic!("unexpected {other:?}"),
    }
    assert_eq!(
        RpcResponses::exhausted().message(),
        "submit_transport_failed: app-server exited before returning initialize/thread-read/thread-resume/turn-start responses"
    );
}

#[test]
fn app_server_silence_mentions_stderr_only_when_present() {
    assert_eq!(
        app_server_silence(true, "  \n").message(),
        "submit_transport_failed: timed out waiting for app-server responses"
    );
    assert_eq!(
        app_server_silence(false, " oops \n").message(),
        "submit_transport_failed: app-server response channel closed unexpectedly; stderr: oops"
    );
}

#[test]
fn ipc_messages_are_matched_to_their_request() {
    let request = fresh_ipc_request_id();
    assert_eq!(request.len(), 36);
    assert_ne!(request, fresh_ipc_request_id());
    assert!(matches!(ipc_initialize_step(r#"{"type":"event"}"#, "r1"), IpcStep::Skip));
    assert!(matches!(
        ipc_initialize_step(r#"{"type":"response","requestId":"r2"}"#, "r1"),
        IpcStep::Skip
    ));
    match ipc_initialize_step(
        r#"{"type":"response","requestId":"r1","resultType":"success","result":{"clientId":"c9"}}"#,
        "r1",
    ) {
        IpcStep::Done(client) => assert_eq!(client, "c9"),
        other => panic!("unexpected {other:?}"),
    }
    match ipc_initialize_step(r#"{"type":"response","requestId":"r1","resultType":"success"}"#, "r1") {
        IpcStep::Failed(error) => assert_eq!(
            error.message(),
            "submit_transport_failed: desktop ipc initialize returned no clientId"
        ),
        other => panic!("unexpected {other:?}"),
    }
    match ipc_initialize_step(r#"{"type":"response","requestId":"r1","resultType":"error"}"#, "r1") {
        IpcStep::Failed(error) => assert_eq!(
            error.message(),
            "submit_transport_failed: desktop ipc initialize failed: initialize failed"
        ),
        other => panic!("unexpected {other:?}"),
    }
    assert!(matches!(
        ipc_approval_step(r#"{"type":"response","requestId":"q","resultType":"success"}"#, "q"),
        IpcStep::Done(_)
    ));
    match ipc_approval_step(
        r#"{"type":"response","requestId":"q","resultType":"error","error":"denied"}"#,
        "q",
    ) {
        IpcStep::Failed(error) => assert_eq!(
            error.message(),
            "submit_transport_failed: desktop approval ipc failed: denied"
        ),
        other => panic!("unexpected {other:?}"),
    }
}

#[test]
fn ipc_payloads_must_be_json() {
    assert_eq!(read_ipc_payload(&b"{\"a\":1}".to_vec()).unwrap(), "{\"a\":1}");
    let error = read_ipc_payload(&b"{oops".to_vec()).unwrap_err();
    assert!(error.message().starts_with("submit_transport_failed: invalid ipc message json: "));
}

#[test]
fn picks_the_latest_socket() {
    let names = vec![
        "a.sock".to_string(),
        "c.txt".to_string(),
        "b.sock".to_string(),
        ".sock".to_string(),
        "sock".to_string(),
    ];
    assert_eq!(latest_ipc_socket_name(&names).as_deref(), Some("b.sock"));
    assert_eq!(latest_ipc_socket_name(&vec!["x.socket".to_string()]), None);
}

fn cli_session(terminal_app: Option<TerminalApp>, tty: Option<&str>) -> CodexSession {
    CodexSession {
        session_id: "cli:x".into(),
        source: SessionSource::Cli,
        pid: 1,
        parent_pid: None,
        tty: tty.map(String::from),
        cwd: None,
        terminal_app,
        title: "CLI".into(),
        project_name: None,
        status: SessionStatus::Running,
        ingestion_mode: SessionIngestionMode::Fallback,
        needs_attention: false,
        last_activity_at: 0,
        activity_label: None,
        last_snapshot: None,
        latest_user_prompt: None,
        prompt_actions: vec![],
        prompt_source: None,
        submit_target: None,
        notification_sent_at: None,
        last_event_at: None,
        last_observation_at: None,
        transcript_path: None,
        status_history: vec![],
        conversation_history: vec![],
    }
}

#[test]
fn reply_scripts_follow_the_host() {
    let terminal = reply_script(&cli_session(Some(TerminalApp::Terminal), Some("/dev/ttys004")), "ok")
        .unwrap();
    assert!(terminal.contains("if tty of t is \"ttys004\" then"));
    assert!(terminal.contains("do script \"\"ok\"\" in t"));
    let keystrokes = reply_script(
        &cli_session(Some(TerminalApp::Unsupported("VS Code".into())), None),
        "ok",
    )
    .unwrap();
    assert!(keystrokes.starts_with("\ntell application \"Visual Studio Code\"\n  activate"));
    assert_eq!(
        reply_script(&cli_session(None, Some("/dev/ttys004")), "ok").unwrap_err(),
        "Session host does not support inline reply"
    );
}

#[test]
fn cli_state_falls_back_to_idle_and_targets_its_thread() {
    let state: CliState =
        cli_state_from_thread(Some("OpenAI Codex (v1)\n"), None, None, 0).expect("state");
    assert_eq!(state.activity_label.as_deref(), Some("Idle"));
    assert!(state.interaction_hint.is_none());
    assert!(state.submit_target.is_none());
    let thread = ThreadRow {
        thread_id: "t".into(),
        rollout_path: "r".into(),
        cwd: "/c".into(),
        title: "x".into(),
        created_at: 0,
        updated_at: 95,
    };
    let state = cli_state_from_thread(None, Some(thread), None, 100_000).expect("state");
    assert_eq!(state.activity_label.as_deref(), Some("Working"));
    assert_eq!(state.submit_target, Some(SubmitTarget::ThreadId("t".into())));
}

#[test]
fn queries_and_paths() {
    assert_eq!(
        cli_thread_query_for_cwd("/tmp/o'neil"),
        "SELECT id, rollout_path, cwd, title, created_at, updated_at FROM threads WHERE archived = 0 AND cwd = '/tmp/o''neil' AND source = 'cli' ORDER BY updated_at DESC LIMIT 12;"
    );
    assert_eq!(
        codex_log_directory("/Users/a", 2026, 4, 3),
        "/Users/a/Library/Logs/com.openai.codex/2026/04/03"
    );
    assert!(codex_log_directory_for_today("/h").starts_with("/h/Library/Logs/com.openai.codex/"));
    assert!(is_desktop_log_for_pid("/l/codex-desktop-x--4-y.log", -4));
    assert_eq!(cwd_basename("/a/b/").as_deref(), Some("b"));
    assert_eq!(cwd_basename("/a/..").as_deref(), None);
    assert_eq!(cwd_basename("/").as_deref(), None);
    assert_eq!(cwd_basename("a/./").as_deref(), Some("a"));
}

#[test]
fn recency_formulas() {
    assert!(is_recent_unix_secs_at(90, 30, 120_999));
    assert!(!is_recent_unix_secs_at(89, 30, 120_999));
    assert!(is_recent_unix_secs_at(-31, 30, -1_999));
    assert!(rollout_file_is_recent(Some(0), 300_999));
    assert!(!rollout_file_is_recent(Some(0), 301_000));
    assert!(rollout_file_is_recent(Some(10), 5));
    assert!(!rollout_file_is_recent(None, 5));
    assert_eq!(rollout_window_start(1_000), 760);
    assert_eq!(rollout_window_start(10), 0);
    assert!(now_unix_ms() > 1_600_000_000_000);
}

#[test]
fn parses_rows_and_command_output() {
    let row = parse_process_row("  42  1 ttys003 /Usr/Local/Bin/Codex --Model X").expect("row");
    assert_eq!(row.pid, 42);
    assert_eq!(row.parent_pid, Some(1));
    assert_eq!(row.tty.as_deref(), Some("/dev/ttys003"));
    assert_eq!(row.executable, "codex");
    assert_eq!(row.command, "/usr/local/bin/codex --model x");
    let detached = parse_process_row("7 x ?? launchd").expect("row");
    assert_eq!(detached.parent_pid, None);
    assert!(detached.tty.is_none());
    assert!(parse_process_row("abc 1 ??").is_none());
    assert!(parse_process_row("1 2").is_none());

    let thread = parse_thread_row("t\t/r\t/c\ttitle\t5\t6").expect("thread");
    assert_eq!((thread.created_at, thread.updated_at), (5, 6));
    assert!(parse_thread_row("t\t/r\t/c\ttitle\t5").is_none());
    assert_eq!(thread_rows_from_output("a\tb\tc\td\t1\t2\nbad\nx\ty\tz\tw\t3\t4\n").len(), 2);

    assert_eq!(cwd_from_lsof_output("p12\nfcwd\nn/tmp/work\n").as_deref(), Some("/tmp/work"));
    assert_eq!(tty_from_ps_output(" ttys001 \n").as_deref(), Some("/dev/ttys001"));
    assert!(tty_from_ps_output("??\n").is_none());
}

#[test]
fn terminal_hosts() {
    let rows = vec![
        parse_process_row("10 1 ?? /applications/iterm.app/contents/macos/iterm2").unwrap(),
        parse_process_row("20 10 ttys001 -zsh").unwrap(),
        parse_process_row("30 20 ttys001 codex").unwrap(),
    ];
    assert_eq!(terminal_app_for_process(&rows[2], &rows), Some(TerminalApp::ITerm));
    let looping = vec![
        parse_process_row("5 6 ?? a").unwrap(),
        parse_process_row("6 5 ?? b").unwrap(),
    ];
    assert_eq!(terminal_app_for_process(&looping[0], &looping), None);
    assert_eq!(
        terminal_app_for_named_process("WezTerm", "wezterm-gui"),
        Some(TerminalApp::Unsupported("WezTerm".into()))
    );
    assert_eq!(terminal_app_for_named_process("Terminal", ""), Some(TerminalApp::Terminal));
    assert_eq!(terminal_app_from_probes(Some("iterm"), None), Some(TerminalApp::ITerm));
    assert_eq!(terminal_app_from_probes(None, Some("terminal")), Some(TerminalApp::Terminal));
    assert_eq!(terminal_app_from_probes(Some("no"), Some("no")), None);
    assert_eq!(parse_terminal_app("ITERM.app"), Some(TerminalApp::ITerm));
    assert_eq!(parse_terminal_app(""), None);
    assert_eq!(parse_terminal_app("Warp"), Some(TerminalApp::Unsupported("Warp".into())));
    let script = terminal_snapshot_script("/dev/ttys009", Some(&TerminalApp::Terminal)).unwrap();
    assert!(script.contains("if tty of t is \"ttys009\" or tty of t is \"/dev/ttys009\" then"));
    assert!(terminal_snapshot_script("ttys009", None).is_none());
    assert!(looks_like_active_codex_status("WORKING hard"));
}

#[test]
fn titles_and_observations() {
    assert_eq!(
        process_title("codex", None, None, "  codex  --a b c d e f g ", ProcessKind::Cli),
        "codex --a b c d e"
    );
    assert_eq!(process_title("codex", None, None, "   ", ProcessKind::Cli), "codex");
    assert_eq!(process_title("codex", None, Some("proj"), "x", ProcessKind::Cli), "proj");
    assert_eq!(process_title("codex", None, Some("proj"), "x", ProcessKind::Desktop), "Codex desktop");

    let row: ProcessRow = parse_process_row("9 1 ttys002 codex").unwrap();
    assert!(observation_from_process(&row, ProcessKind::Cli, None, None, None, None, 5).is_none());
    let state = CliState {
        activity_label: Some("Idle".into()),
        interaction_hint: None,
        prompt_actions: vec![],
        prompt_source: None,
        submit_target: None,
    };
    let observed = observation_from_process(
        &row,
        ProcessKind::Cli,
        Some("/work/app".into()),
        Some(TerminalApp::Terminal),
        None,
        Some(state),
        5,
    )
    .expect("observation");
    assert_eq!(observed.title, "app");
    assert_eq!(observed.project_name.as_deref(), Some("app"));
    assert_eq!(observed.tty.as_deref(), Some("/dev/ttys002"));
    assert_eq!(observed.session_id(), "cli:/dev/ttys002");
}

#[test]
fn thread_selection_and_approval_logs() {
    let row = |id: &str, created_at: i64| ThreadRow {
        thread_id: id.into(),
        rollout_path: String::new(),
        cwd: String::new(),
        title: String::new(),
        created_at,
        updated_at: 0,
    };
    let chosen = select_cli_thread_for_process(vec![row("a", 90), row("b", 110), row("c", 100)], 100)
        .expect("thread");
    assert_eq!(chosen.thread_id, "c");
    let tie = select_cli_thread_for_process(vec![row("a", 90), row("b", 110)], 100).expect("thread");
    assert_eq!(tie.thread_id, "a");
    assert!(select_cli_thread_for_process(vec![], 0).is_none());

    let lines = vec![
        "[desktop-notifications] show approval conversationId=c1 kind=commandExecution requestId= 7 ".to_string(),
        "[desktop-notifications] show approval conversationId=c1 kind=commandExecution requestId=8".to_string(),
        "[desktop-notifications] show approval conversationId=c2 kind=commandExecution requestId=9".to_string(),
        "Sending server response method=item/commandExecution/requestApproval id=8 ok".to_string(),
    ];
    assert_eq!(
        desktop_pending_command_approval_request_id(&lines, "c1").as_deref(),
        Some("7")
    );
}

#[test]
fn time_and_samples() {
    assert_eq!(unix_ms_to_utc_at(1_000, 5), 1_000);
    assert_eq!(unix_ms_to_utc_at(i64::MAX, 5), 5);
    assert_eq!(relative_time_label(0, 4_999), "just now");
    assert_eq!(relative_time_label(0, 59_999), "59s ago");
    assert_eq!(relative_time_label(0, 120_000), "2m ago");
    let samples = new_mock_sessions();
    assert_eq!(samples.len(), 2);
    assert_eq!(samples[0].session_id.len(), 36);
    assert_ne!(samples[0].session_id, samples[1].session_id);
    assert_eq!(samples[0].relative_last_activity, "just now");
    assert_eq!(samples[1].relative_last_activity, "24s ago");
    assert!(samples[0].needs_attention);
    assert_eq!(samples[1].terminal_label, "Terminal");
}

#[test]
fn reply_text_is_quoted_with_serde_json_escapes() {
    let requests = build_submit_requests("thread-1", "a\"b\\c\nd\u{1}\té");
    assert!(requests[4].contains(r#""text":"a\"b\\c\nd\u0001\té""#));
}

#[test]
fn status_words_are_matched_in_any_letter_case() {
    assert!(looks_like_active_codex_status("WORKING on it"));
    assert!(looks_like_active_codex_status("Idle"));
    assert!(!looks_like_active_codex_status("Tip: press enter"));
}

#[test]
fn chrono_range_ends_where_stated() {
    assert_eq!(unix_ms_to_utc_at(-8334601228800000, 5), -8334601228800000);
    assert_eq!(unix_ms_to_utc_at(-8334601228800001, 5), 5);
    assert_eq!(unix_ms_to_utc_at(8210266876799999, 5), 8210266876799999);
    assert_eq!(unix_ms_to_utc_at(8210266876800000, 5), 5);
}

#[test]
fn request_ids_are_version_four_uuids() {
    let id: Vec<char> = fresh_ipc_request_id().chars().collect();
    assert_eq!(id.len(), 36);
    for (i, c) in id.iter().enumerate() {
        if [8, 13, 18, 23].contains(&i) {
            assert_eq!(*c, '-');
        } else {
            assert!(c.is_ascii_digit() || ('a'..='f').contains(c));
        }
    }
    assert_eq!(id[14], '4');
    assert!(['8', '9', 'a', 'b'].contains(&id[19]));
}
