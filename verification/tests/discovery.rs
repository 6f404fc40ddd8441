use codex_island_core::discovery::{
    classify_process, cli_state_from_sources, cli_thread_query_for_cwd, desktop_state_for_thread,
    desktop_thread_query, editor_terminal_label, escalation_actions, extract_attention_question,
    infer_activity_label, infer_interaction_hint, infer_terminal_prompt, is_desktop_log_for_pid,
    is_supported_terminal_alias, looks_like_active_codex_status, now_unix_ms,
    pending_assistant_question, pending_escalation_prompt, resolve_desktop_attention,
    unresolved_attention, PendingInput, ProcessKind, ThreadRow,
};
use codex_island_core::models::{PromptAction, PromptSource, SubmitTarget};

#[test]
fn extracts_last_prompt_line_when_confirmation_is_present() {
    let snapshot = "Working...\nContinue? [Y/n]\n";
    assert_eq!(
        infer_interaction_hint(snapshot).as_deref(),
        Some("Continue? [Y/n]")
    );
}

#[test]
fn extracts_numbered_terminal_actions_before_press_enter_prompt() {
    let snapshot = "1. Update now\n2. Skip\n3. Skip until next version\nPress enter to continue\n";
    let pending = infer_terminal_prompt(snapshot).expect("terminal prompt");
    assert_eq!(pending.prompt, "Press enter to continue");
    assert_eq!(pending.actions.len(), 3);
    assert_eq!(pending.actions[1].label, "Skip");
    assert_eq!(pending.source, PromptSource::Terminal);
}

#[test]
fn extracts_terminal_question_before_idle_prompt_banner() {
    let snapshot = "\
• 你好，有什么需要我处理的？\n\
\n\
› Use /skills to list available skills\n\
\n\
  gpt-5.4 medium fast · 98% left · ~/Desktop/AI相关/playground\n";
    let pending = infer_terminal_prompt(snapshot).expect("terminal question");
    assert_eq!(pending.prompt, "• 你好，有什么需要我处理的？");
    assert_eq!(pending.source, PromptSource::Terminal);
}

#[test]
fn ignores_non_interactive_output() {
    let snapshot = "Generating patch\nApplying changes\n";
    assert!(infer_interaction_hint(snapshot).is_none());
}

#[test]
fn ignores_stale_confirmation_prompt_when_recent_output_is_progress() {
    let snapshot =
        "Working...\nContinue? [Y/n]\nCompressing background information\nUpdating plan\n";
    assert!(infer_interaction_hint(snapshot).is_none());
}

#[test]
fn ignores_idle_cli_banner_lines_as_active_status() {
    assert!(!looks_like_active_codex_status("OpenAI Codex (v0.117.0)"));
    assert!(!looks_like_active_codex_status("Tip: New Try the Codex App"));
    assert!(!looks_like_active_codex_status("Explain this codebase"));
}

#[test]
fn extracts_last_activity_line() {
    let snapshot = "Thinking...\nApplying patch to src/app.tsx\n";
    assert_eq!(
        infer_activity_label(snapshot).as_deref(),
        Some("Applying patch to src/app.tsx")
    );
}

#[test]
fn preserves_snapshot_activity_when_no_attention_is_present() {
    let (activity_label, interaction_hint, prompt_actions, prompt_source) =
        cli_state_from_sources(Some("Working...\n"), None, false, false);
    assert_eq!(activity_label.as_deref(), Some("Working..."));
    assert!(interaction_hint.is_none());
    assert!(prompt_actions.is_empty());
    assert!(prompt_source.is_none());
}

#[test]
fn falls_back_to_thread_attention_when_terminal_snapshot_is_unavailable() {
    let (activity_label, interaction_hint, prompt_actions, prompt_source) = cli_state_from_sources(
        None,
        Some(PendingInput {
            prompt: "Do you want to allow me to inspect open files?".to_string(),
            actions: vec![],
            source: PromptSource::Thread,
            submit_target: None,
        }),
        true,
        false,
    );
    assert_eq!(activity_label.as_deref(), Some("Approval required"));
    assert_eq!(
        interaction_hint.as_deref(),
        Some("Do you want to allow me to inspect open files?")
    );
    assert!(prompt_actions.is_empty());
    assert_eq!(prompt_source, Some(PromptSource::Thread));
}

#[test]
fn falls_back_to_recent_thread_attention_when_terminal_snapshot_has_no_prompt() {
    let (activity_label, interaction_hint, prompt_actions, prompt_source) = cli_state_from_sources(
        Some("✨ Update available!\n% "),
        Some(PendingInput {
            prompt: "Do you want to allow me to inspect open files?".to_string(),
            actions: vec![PromptAction {
                id: "1".into(),
                label: "Yes".into(),
                reply: "1".into(),
            }],
            source: PromptSource::Thread,
            submit_target: None,
        }),
        true,
        true,
    );
    assert_eq!(activity_label.as_deref(), Some("Approval required"));
    assert_eq!(
        interaction_hint.as_deref(),
        Some("Do you want to allow me to inspect open files?")
    );
    assert_eq!(prompt_actions.len(), 1);
    assert_eq!(prompt_source, Some(PromptSource::Thread));
}

#[test]
fn ignores_stale_thread_attention_when_terminal_snapshot_has_no_prompt() {
    let (activity_label, interaction_hint, prompt_actions, prompt_source) = cli_state_from_sources(
        Some("✨ Update available!\n% "),
        Some(PendingInput {
            prompt: "Do you want to allow me to inspect open files?".to_string(),
            actions: vec![PromptAction {
                id: "1".into(),
                label: "Yes".into(),
                reply: "1".into(),
            }],
            source: PromptSource::Thread,
            submit_target: None,
        }),
        true,
        false,
    );
    assert_eq!(activity_label.as_deref(), Some("Idle"));
    assert!(interaction_hint.is_none());
    assert!(prompt_actions.is_empty());
    assert!(prompt_source.is_none());
}

#[test]
fn falls_back_to_working_when_recent_thread_is_active_without_snapshot_text() {
    let (activity_label, interaction_hint, prompt_actions, prompt_source) =
        cli_state_from_sources(None, None, true, true);
    assert_eq!(activity_label.as_deref(), Some("Working"));
    assert!(interaction_hint.is_none());
    assert!(prompt_actions.is_empty());
    assert!(prompt_source.is_none());
}

#[test]
fn keeps_idle_thread_visible_when_terminal_snapshot_is_unavailable() {
    let (activity_label, interaction_hint, prompt_actions, prompt_source) =
        cli_state_from_sources(None, None, true, false);
    assert_eq!(activity_label.as_deref(), Some("Idle"));
    assert!(interaction_hint.is_none());
    assert!(prompt_actions.is_empty());
    assert!(prompt_source.is_none());
}

#[test]
fn keeps_live_cli_process_visible_without_snapshot_or_recent_thread() {
    let (activity_label, interaction_hint, prompt_actions, prompt_source) =
        cli_state_from_sources(None, None, false, false);
    assert_eq!(activity_label.as_deref(), Some("Idle"));
    assert!(interaction_hint.is_none());
    assert!(prompt_actions.is_empty());
    assert!(prompt_source.is_none());
}

#[test]
fn accepts_real_cli_processes() {
    assert!(matches!(
        classify_process("codex", "/usr/local/bin/codex --model gpt-5"),
        Some(ProcessKind::Cli)
    ));
}

#[test]
fn accepts_node_wrapped_cli_processes() {
    assert!(matches!(
        classify_process(
            "node",
            "node /Users/cong/.npm/_npx/123/node_modules/@openai/codex/dist/cli.js"
        ),
        Some(ProcessKind::Cli)
    ));
}

#[test]
fn rejects_helper_and_crashpad_processes() {
    assert!(classify_process(
        "codex helper",
        "/applications/codex.app/contents/frameworks/codex helper.app/contents/macos/codex helper --type=utility"
    )
    .is_none());
    assert!(classify_process(
        "chrome_crashpad_handler",
        "/applications/codex.app/contents/frameworks/electron framework.framework/helpers/chrome_crashpad_handler --monitor-self"
    )
    .is_none());
}

#[test]
fn detects_desktop_app_only_for_live_app_binary() {
    assert!(matches!(
        classify_process("codex", "/applications/codex.app/contents/macos/codex"),
        Some(ProcessKind::Desktop)
    ));
}

#[test]
fn recognizes_other_terminal_hosts() {
    assert!(is_supported_terminal_alias("ghostty"));
    assert!(is_supported_terminal_alias("wezterm"));
    assert!(!is_supported_terminal_alias("finder"));
}

#[test]
fn recognizes_editor_integrated_terminals() {
    assert_eq!(
        editor_terminal_label("code helper (plugin)"),
        Some("VS Code")
    );
    assert_eq!(editor_terminal_label("visual studio code"), Some("VS Code"));
    assert_eq!(editor_terminal_label("cursor helper"), Some("Cursor"));
}

#[test]
fn detects_unresolved_escalation_prompt() {
    let lines = [
        r#"{"payload":{"type":"function_call","call_id":"call_1","arguments":"{\"cmd\":\"lsof -p 1\",\"sandbox_permissions\":\"require_escalated\",\"justification\":\"Do you want to allow me to inspect open files?\"}"}}"#,
    ];

    assert_eq!(
        pending_escalation_prompt(&lines).map(|pending| pending.prompt),
        Some("Do you want to allow me to inspect open files?".to_string())
    );
}

#[test]
fn ignores_resolved_escalation_prompt() {
    let lines = [
        r#"{"payload":{"type":"function_call","call_id":"call_1","arguments":"{\"cmd\":\"lsof -p 1\",\"sandbox_permissions\":\"require_escalated\",\"justification\":\"Do you want to allow me to inspect open files?\"}"}}"#,
        r#"{"payload":{"type":"function_call_output","call_id":"call_1","output":"ok"}}"#,
    ];

    assert!(pending_escalation_prompt(&lines).is_none());
}

#[test]
fn extracts_assistant_question_line() {
    assert_eq!(
        extract_attention_question("第一行\n现在要继续扫描 Codex desktop 的内部状态源吗？")
            .map(|pending| pending.prompt),
        Some("现在要继续扫描 Codex desktop 的内部状态源吗？".to_string())
    );
}

#[test]
fn treats_generic_greeting_questions_as_attention() {
    assert_eq!(
        extract_attention_question("你好，有什么需要我处理的？").map(|pending| pending.prompt),
        Some("你好，有什么需要我处理的？".to_string())
    );
    assert_eq!(
        extract_attention_question("How can I help?").map(|pending| pending.prompt),
        Some("How can I help?".to_string())
    );
}

#[test]
fn detects_unanswered_assistant_question() {
    let lines = [
        r#"{"timestamp":"2026-04-02T05:00:00Z","type":"event_msg","payload":{"type":"user_message","message":"hello"}}"#,
        r#"{"timestamp":"2026-04-02T05:00:10Z","type":"response_item","payload":{"type":"message","role":"assistant","content":[{"type":"output_text","text":"现在要继续扫描 Codex desktop 的内部状态源吗？"}]}}"#,
    ];

    assert_eq!(
        pending_assistant_question(&lines).map(|pending| pending.prompt),
        Some("现在要继续扫描 Codex desktop 的内部状态源吗？".to_string())
    );
}

#[test]
fn ignores_question_after_user_replied() {
    let lines = [
        r#"{"timestamp":"2026-04-02T05:00:00Z","type":"event_msg","payload":{"type":"user_message","message":"hello"}}"#,
        r#"{"timestamp":"2026-04-02T05:00:10Z","type":"response_item","payload":{"type":"message","role":"assistant","content":[{"type":"output_text","text":"现在要继续扫描 Codex desktop 的内部状态源吗？"}]}}"#,
        r#"{"timestamp":"2026-04-02T05:00:20Z","type":"event_msg","payload":{"type":"user_message","message":"继续"}}"#,
    ];

    assert!(pending_assistant_question(&lines).is_none());
}

#[test]
fn builds_quick_actions_for_escalation_prompts() {
    let lines = [
        r#"{"payload":{"type":"function_call","call_id":"call_1","arguments":"{\"cmd\":\"ps -p 1\",\"sandbox_permissions\":\"require_escalated\",\"justification\":\"是否运行此命令？\"}"}}"#,
    ];

    let pending = pending_escalation_prompt(&lines).expect("pending prompt");
    assert_eq!(pending.prompt, "是否运行此命令？");
    assert_eq!(pending.actions.len(), 3);
    assert_eq!(pending.actions[0].reply, "1");
    assert_eq!(pending.actions[1].reply, "2");
    assert_eq!(pending.actions[2].reply, "3");
}

#[test]
fn desktop_threads_without_attention_stay_visible_while_recent() {
    let thread = ThreadRow {
        thread_id: "thread-1".into(),
        rollout_path: "/tmp/demo.rollout".into(),
        cwd: "/tmp/demo".into(),
        title: "Codex".into(),
        created_at: now_unix_ms() / 1000,
        updated_at: now_unix_ms() / 1000,
    };

    let state = desktop_state_for_thread(thread, None, None).expect("desktop state");

    assert_eq!(state.activity_label.as_deref(), Some("Working"));
    assert!(state.interaction_hint.is_none());
    assert!(state.prompt_actions.is_empty());
}

#[test]
fn desktop_threads_without_attention_fall_back_to_idle_when_stale() {
    let thread = ThreadRow {
        thread_id: "thread-1".into(),
        rollout_path: "/tmp/demo.rollout".into(),
        cwd: "/tmp/demo".into(),
        title: "Codex".into(),
        created_at: 1,
        updated_at: 1,
    };

    let state = desktop_state_for_thread(thread, None, None).expect("desktop state");

    assert_eq!(state.activity_label.as_deref(), Some("Idle"));
    assert!(state.interaction_hint.is_none());
    assert!(state.prompt_actions.is_empty());
}

#[test]
fn desktop_escalation_prompt_is_kept_for_reminder_even_without_live_request_id() {
    let attention = resolve_desktop_attention(
        "thread-1",
        Some(PendingInput {
            prompt: "Do you want to allow this command?".into(),
            actions: escalation_actions(),
            source: PromptSource::Thread,
            submit_target: None,
        }),
        None,
    )
    .expect("attention");

    assert_eq!(attention.prompt, "Do you want to allow this command?");
    assert!(attention.submit_target.is_none());
}

#[test]
fn desktop_unresolved_escalation_prompt_uses_live_request_target() {
    let attention = resolve_desktop_attention(
        "thread-1",
        Some(PendingInput {
            prompt: "Do you want to allow this command?".into(),
            actions: escalation_actions(),
            source: PromptSource::Thread,
            submit_target: None,
        }),
        Some("39".into()),
    )
    .expect("attention");

    assert_eq!(
        attention.submit_target,
        Some(SubmitTarget::DesktopCommandApproval {
            conversation_id: "thread-1".into(),
            request_id: "39".into(),
        })
    );
}

#[test]
fn desktop_non_escalation_question_survives_without_live_request_id() {
    let attention = resolve_desktop_attention(
        "thread-1",
        Some(PendingInput {
            prompt: "现在要继续扫描 Codex desktop 的内部状态源吗？".into(),
            actions: vec![],
            source: PromptSource::Thread,
            submit_target: None,
        }),
        None,
    )
    .expect("attention");

    assert_eq!(attention.prompt, "现在要继续扫描 Codex desktop 的内部状态源吗？");
    assert!(attention.submit_target.is_none());
}

#[test]
fn desktop_thread_query_ignores_subagent_and_cli_rows() {
    assert!(desktop_thread_query().contains("source = 'vscode'"));
}

#[test]
fn desktop_thread_query_selects_thread_id() {
    assert!(desktop_thread_query().contains("SELECT id, rollout_path, cwd, title, created_at, updated_at"));
}

#[test]
fn desktop_log_filter_only_matches_current_pid() {
    assert!(is_desktop_log_for_pid(
        "/Users/cong/Library/Logs/com.openai.codex/2026/04/03/codex-desktop-abc-4100-t0-i1-072330-0.log",
        4100
    ));
    assert!(!is_desktop_log_for_pid(
        "/Users/cong/Library/Logs/com.openai.codex/2026/04/03/codex-desktop-abc-85842-t0-i1-052802-0.log",
        4100
    ));
}

#[test]
fn cli_thread_query_for_cwd_ignores_non_cli_rows() {
    let query = cli_thread_query_for_cwd("/tmp/demo");
    assert!(query.contains("source = 'cli'"));
    assert!(query.contains("cwd = '/tmp/demo'"));
}

#[test]
fn cli_thread_query_for_cwd_selects_thread_id() {
    let query = cli_thread_query_for_cwd("/tmp/demo");
    assert!(query.contains("SELECT id, rollout_path, cwd, title, created_at, updated_at"));
}

#[test]
fn prefers_escalation_prompt_over_plain_question() {
    let lines = [
        r#"{"timestamp":"2026-04-02T05:00:00Z","type":"response_item","payload":{"type":"message","role":"assistant","content":[{"type":"output_text","text":"现在要继续扫描 Codex desktop 的内部状态源吗？"}]}}"#,
        r#"{"timestamp":"2026-04-02T05:00:02Z","type":"response_item","payload":{"type":"function_call","call_id":"call_1","arguments":"{\"cmd\":\"lsof -p 1\",\"sandbox_permissions\":\"require_escalated\",\"justification\":\"Do you want to allow me to inspect open files?\"}"}}"#,
    ];

    assert_eq!(
        unresolved_attention(&lines).map(|pending| pending.prompt),
        Some("Do you want to allow me to inspect open files?".to_string())
    );
}
