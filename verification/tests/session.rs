//! The session around the chat: permissions, the loop, the context it starts from.

use tomcat_chat::commands::cmd_ckpt::CheckpointKind;
use tomcat_chat::context::announce::{announce, Field};
use tomcat_chat::context::confirmation::{
    extract_path_from_preview, word_means_yes, CliConfirmation, PathPromptChoice,
};
use tomcat_chat::context::host_functions::{
    host_function_source_rank, materialize_host_functions_from_catalog, CatalogPlugin,
    ManifestFunction, PluginSource,
};
use tomcat_chat::context::plugins::{
    auto_load_path, fetch_proxy, inventory_warnings, manifest_tools, no_plugin_tools_message,
    plugin_runtime_disabled_via_env, plugins_to_drop, plugins_to_renew, session_start,
    CatalogDiagnostic, KnownPlugin, ManifestTool, PluginActivation, PluginFacts,
};
use tomcat_chat::context::{
    effective_model, files_runtime_key, inventory_is_stale,
    keeps_files_runtime, keeps_known_skills, legacy_move, parse_thinking_display_override,
    plan_context, resolve_agent_workspace_dir, resolve_bash_production_policy,
    resolve_initial_thinking_display, resolve_reviewer_max_turns, resolve_session_dir,
    reuses_scope, root_register_failure, session_model, skill_discovery_failure,
    starts_skill_discovery, BashConfig, ChatContextOverrides, ContextFacts,
};
use tomcat_chat::permission::cwd_lazy::{
    cwd_already_authorized, ensure_not_denied, extract_target_from_preview, parse_choice,
    take_choice, target_in_cwd, unrecognized_choice_message, AppliedChoice, ChoiceStep,
    ConfirmDecision, CwdLazyPrompt, CwdPromptChoice, CwdStep, EffectiveRoots,
};
use tomcat_chat::plan_runtime::PlanMode;
use tomcat_chat::run_loop::completion::{
    completion_notice, completion_text, BashTaskStatus, CompletionBook, CompletionRoute,
};
use tomcat_chat::run_loop::turn::{
    assemble_messages, build_turn_checkpoint_request, checkpoint_kind, has_user_message,
    is_fatal_error, make_fallback_context_state, plan_turn, system_text_with_reminder, turn_ends,
    AppError, StreamedPiece, ThinkingPersistState, TurnEnd,
};
use tomcat_chat::run_loop::workspace_state::{
    compute_workspace_state, PathRule, PathRuleMode, WorkspaceEntry, WorkspaceFacts,
};
use tomcat_chat::run_loop::{
    after_turn, greeting_lines, ChatLoop, ReadStep, ReadlineEvent, AUTO_TURN_BUDGET,
};
use tomcat_chat::settings::ThinkingDisplay;

fn texts(list: &[&str]) -> Vec<String> {
    list.iter().map(|s| s.to_string()).collect()
}

// ---------------------------------------------------------------- permission

#[test]
fn choices_are_read_in_many_words() {
    for w in ["s", " Session\n", "ONCE"] {
        assert_eq!(parse_choice(w), Some(CwdPromptChoice::AllowSessionOnly));
    }
    for w in ["w", "workspace", "Persist"] {
        assert_eq!(parse_choice(w), Some(CwdPromptChoice::AddPersistent));
    }
    for w in ["c", "cancel", "n", "NO", "skip"] {
        assert_eq!(parse_choice(w), Some(CwdPromptChoice::Cancel));
    }
    // The Kelvin sign is a k in lower case.
    assert_eq!(parse_choice("S\u{212a}IP"), Some(CwdPromptChoice::Cancel));
    assert_eq!(parse_choice(""), None);
    assert_eq!(
        unrecognized_choice_message(" x "),
        "未识别的选项「x」；可选项为 [s] / [w] / [c]，本次按取消处理。"
    );
    assert_eq!(take_choice(Some("w")), (CwdPromptChoice::AddPersistent, None));
    assert_eq!(
        take_choice(None),
        (CwdPromptChoice::Cancel, Some(unrecognized_choice_message("")))
    );
}

#[test]
fn a_target_is_below_whole_components() {
    assert!(target_in_cwd("/work/a", "/work"));
    assert!(target_in_cwd("/work", "/work/"));
    assert!(target_in_cwd("/work/./a//b", "/work/a"));
    assert!(!target_in_cwd("/workspace", "/work"));
    assert!(!target_in_cwd("work/a", "/work"));
}

#[test]
fn previews_name_their_target() {
    assert_eq!(
        extract_target_from_preview("操作\n路径:  \n路径: /work/a \n"),
        Some("/work/a".to_string())
    );
    assert_eq!(extract_target_from_preview("路径:/work"), None);
}

fn roots(read_write: &[&str], read_only: &[&str]) -> EffectiveRoots {
    EffectiveRoots { read_write: texts(read_write), read_only: texts(read_only) }
}

#[test]
fn the_directory_is_asked_about_once() {
    let preview = "路径: /work/a.rs";
    let open = roots(&[], &[]);
    let mut p = CwdLazyPrompt::new("/work".into());
    assert!(!p.is_dismissed());
    match p.confirm_decision(false, preview, &open, true) {
        CwdStep::Ask { lines, prompt } => {
            assert_eq!(lines.len(), 6);
            assert_eq!(lines[1], "当前目录 /work 尚未授权访问。");
            assert_eq!(lines[2], "即将操作: /work/a.rs");
            assert_eq!(prompt, "选择 [s/w/c]: ");
        }
        other => panic!("unexpected {other:?}"),
    }
    assert_eq!(p.confirm_decision(true, preview, &open, true), CwdStep::Forward);
    assert_eq!(p.confirm_decision(false, "路径: /else", &open, true), CwdStep::Forward);
    assert_eq!(p.confirm_decision(false, "no path", &open, true), CwdStep::Forward);
    assert_eq!(
        p.confirm_decision(false, preview, &roots(&["/work"], &[]), true),
        CwdStep::Forward
    );
    assert!(cwd_already_authorized("/work", &roots(&[], &["/work"])));
    assert!(!p.is_dismissed());
    assert_eq!(p.confirm_decision(false, preview, &open, false), CwdStep::Forward);
    assert!(p.is_dismissed());
    assert_eq!(p.confirm_decision(false, preview, &open, true), CwdStep::Forward);
    assert!(CwdLazyPrompt::new("/work".into()).with_dismissed(true).is_dismissed());
}

#[test]
fn a_choice_grants_or_refuses() {
    let mut p = CwdLazyPrompt::new("/work".into());
    assert_eq!(
        p.apply_choice(CwdPromptChoice::AllowSessionOnly, "/real/work", None),
        Ok(ChoiceStep::Done(AppliedChoice {
            decision: ConfirmDecision::AllowOnce,
            grant: Some("/real/work".into()),
            lines: texts(&["✓ /real/work 本次会话期间允许访问"]),
        }))
    );
    assert_eq!(
        p.apply_choice(CwdPromptChoice::AddPersistent, "/real/work", None),
        Ok(ChoiceStep::Write { root: "/real/work".into() })
    );
    assert_eq!(
        p.choice_written("/real/work", Some("disk full")),
        AppliedChoice {
            decision: ConfirmDecision::AllowOnce,
            grant: Some("/real/work".into()),
            lines: texts(&[
                "✗ 持久化失败：disk full；已改为仅本次会话允许访问 /real/work",
                "✓ /work 本次会话期间允许访问",
            ]),
        }
    );
    assert_eq!(
        p.choice_written("/real/work", None).lines,
        texts(&["✓ /work 本次会话期间允许访问"])
    );
    for choice in [CwdPromptChoice::AllowSessionOnly, CwdPromptChoice::AddPersistent] {
        assert_eq!(
            p.apply_choice(choice, "/real/work", Some("rule")),
            Err("该路径已被禁止访问，无法加入当前会话或配置：/real/work (rule)".to_string())
        );
    }
    assert!(!p.is_dismissed());
    match p.apply_choice(CwdPromptChoice::Cancel, "/real/work", Some("rule")) {
        Ok(ChoiceStep::Done(refused)) => {
            assert_eq!(refused.decision, ConfirmDecision::Deny);
            assert_eq!(refused.grant, None);
        }
        other => panic!("unexpected {other:?}"),
    }
    assert!(p.is_dismissed());
    assert_eq!(ensure_not_denied("/x", None), Ok(()));
    assert_eq!(
        ensure_not_denied("/x", Some("rule")),
        Err("该路径已被禁止访问，无法加入当前会话或配置：/x (rule)".to_string())
    );
}

#[test]
fn confirmations_show_the_start_of_a_preview() {
    let c = CliConfirmation;
    assert_eq!(
        c.confirm_lines("Write", "", "__agent__"),
        texts(&["\n--- 操作确认 ---", "类型: Write  来源: host"])
    );
    let long: Vec<String> = (0..22).map(|i| format!("l{i}")).collect();
    let shown = c.confirm_lines("Edit", &long.join("\n"), "plug");
    assert_eq!(shown[1], "类型: Edit  来源: plug");
    assert!(shown[2].starts_with("预览:\nl0\nl1\n"));
    assert!(shown[2].ends_with("\nl19\n  ... (2 行已省略)"));
    assert_eq!(c.confirm_prompt(), "是否执行？[y/N] ");
    assert!(c.is_yes(" YES \n") && c.is_yes("Y") && !c.is_yes("") && !c.is_yes("yep"));
    assert!(word_means_yes("y") && !word_means_yes("Y"));
    assert_eq!(c.command_decision(true), ConfirmDecision::AllowOnce);
    assert_eq!(c.command_decision(false), ConfirmDecision::Deny);
    assert_eq!(extract_path_from_preview("a\n路径:  /x \n"), Some(" /x ".to_string()));
    assert_eq!(c.asked_path("none", Some("/root")), "/root");
    assert_eq!(c.asked_path("none", None), ".");
    assert_eq!(c.path_note("Read", "__agent__"), "类型: Read  来源: __agent__");
    assert_eq!(
        c.path_decision(PathPromptChoice::AllowSession),
        (ConfirmDecision::AllowOnce, None)
    );
    assert_eq!(
        c.path_decision(PathPromptChoice::PersistWorkspaceRoot { root: "/r".into() }),
        (ConfirmDecision::AllowAndPersistRoot { root: "/r".into() }, Some("/r".to_string()))
    );
    assert_eq!(c.path_decision(PathPromptChoice::Cancel), (ConfirmDecision::Deny, None));
}

// ---------------------------------------------------------------- the loop

#[test]
fn the_greeting_names_session_and_model() {
    assert_eq!(
        greeting_lines(true, "k", "m"),
        texts(&[
            "恢复会话: k",
            "tomcat 对话模式 (模型: m)",
            "输入消息开始对话，Ctrl+D 退出，Ctrl+C 中断生成。",
            "输入 /help 查看命令列表。\n",
        ])
    );
    assert_eq!(greeting_lines(false, "k", "m").len(), 3);
}

#[test]
fn turns_without_the_user_have_a_budget() {
    let mut l = ChatLoop::new();
    let mut alone = 0;
    loop {
        let round = l.start_round(5);
        if !round.auto_drain {
            assert_eq!(
                round.notice.as_deref(),
                Some("\n[bg] auto-turn budget exhausted (8); falling back to user input.")
            );
            break;
        }
        assert_eq!(round.notice, None);
        l.count_turn("");
        alone += 1;
    }
    assert_eq!(alone, AUTO_TURN_BUDGET);
    assert_eq!(l.auto_turns, 0);
    l.count_turn("");
    assert_eq!(l.auto_turns, 1);
    l.count_turn("hi");
    assert_eq!(l.auto_turns, 0);
    assert_eq!(l.start_round(0).notice, None);
}

#[test]
fn what_the_user_does_decides_the_round() {
    let mut l = ChatLoop { auto_turns: 3 };
    assert_eq!(
        l.take_read(ReadlineEvent::Eof, 0),
        ReadStep::Quit { line: "\n再见！".into(), is_error: false }
    );
    assert_eq!(
        l.take_read(ReadlineEvent::Error("tty".into()), 0),
        ReadStep::Quit { line: "输入错误: tty".into(), is_error: true }
    );
    assert_eq!(l.take_read(ReadlineEvent::Interrupted, 9), ReadStep::Again);
    assert_eq!(l.take_read(ReadlineEvent::Resize, 0), ReadStep::Again);
    assert_eq!(l.take_read(ReadlineEvent::Line(" \n".into()), 0), ReadStep::Again);
    assert_eq!(
        l.take_read(ReadlineEvent::Line(" hi \n".into()), 9),
        ReadStep::Typed("hi".into())
    );
    assert_eq!(l.auto_turns, 3);
    assert_eq!(l.take_read(ReadlineEvent::Line("".into()), 1), ReadStep::DrainTurn);
    assert_eq!(l.auto_turns, 0);
    l.auto_turns = 3;
    assert_eq!(l.take_read(ReadlineEvent::Resize, 1), ReadStep::DrainTurn);
    assert_eq!(l.auto_turns, 0);
}

#[test]
fn only_errors_of_the_configuration_end_the_chat() {
    let done = after_turn(&TurnEnd::Completed, "");
    assert!(done.blank_line && !done.fatal && done.error_lines.is_empty());
    let cut = after_turn(&TurnEnd::Interrupted, "");
    assert_eq!(cut.error_lines, texts(&["\n^C 已中断（partial 已保存）"]));
    let soft = after_turn(&TurnEnd::Failed(AppError::Other("x".into())), "shown");
    assert_eq!(soft.error_lines, texts(&["\n[错误] shown", "(可重试，请继续输入)\n"]));
    assert!(!soft.fatal && !soft.blank_line);
    let hard = after_turn(&TurnEnd::Failed(AppError::Config("x".into())), "shown");
    assert_eq!(hard.error_lines, texts(&["\n[错误] shown", "(致命错误，退出对话)"]));
    assert!(hard.fatal);
    assert!(is_fatal_error(&AppError::Config("".into())));
}

#[test]
fn a_turn_sends_everything_in_order() {
    let mut queue = vec!["bg1", "bg2"];
    assert_eq!(
        assemble_messages("sys", vec!["a", "b"], Some("user"), &mut queue),
        vec!["sys", "a", "b", "user", "bg1", "bg2"]
    );
    assert!(queue.is_empty());
    assert_eq!(assemble_messages("sys", vec![], None, &mut queue), vec!["sys"]);
    assert!(has_user_message(" ") && !has_user_message(""));
    let exec = PlanMode::Executing { plan_id: "p-1".into() };
    assert!(system_text_with_reminder("base", &exec).starts_with("base\n<system_reminder"));
    assert!(system_text_with_reminder("base", &PlanMode::Planning).contains("mode=\"planning\""));
    assert_eq!(system_text_with_reminder("base", &PlanMode::Chat), "base");
}

#[test]
fn a_turn_needs_a_session() {
    let cfg = plan_turn("m".into(), Some("s".into()), true, Some("/t".into()), "main", &PlanMode::Chat)
        .expect("config");
    assert_eq!((cfg.max_attempts, cfg.retry_base_delay_ms, cfg.spawn_depth), (3, 300, 0));
    assert_eq!(cfg.max_tool_rounds, usize::MAX);
    assert_eq!(cfg.thinking_transcript, Some("/t".to_string()));
    assert!(cfg.prompt.ends_with("agent.main> "));
    let quiet = plan_turn("m".into(), Some("s".into()), false, Some("/t".into()), "main", &PlanMode::Chat)
        .expect("config");
    assert_eq!(quiet.thinking_transcript, None);
    assert_eq!(
        plan_turn("m".into(), None, false, None, "main", &PlanMode::Chat),
        Err(AppError::Config("无当前会话".into()))
    );
    assert_eq!(
        plan_turn("m".into(), Some("s".into()), true, None, "main", &PlanMode::Chat),
        Err(AppError::Config("无当前会话".into()))
    );
}

#[test]
fn a_turn_leaves_a_checkpoint_at_its_last_message() {
    assert_eq!(checkpoint_kind(&TurnEnd::Completed), Some(CheckpointKind::TurnEnd));
    assert_eq!(checkpoint_kind(&TurnEnd::Interrupted), Some(CheckpointKind::Interrupt));
    assert_eq!(checkpoint_kind(&TurnEnd::Failed(AppError::Other("".into()))), None);
    let ids = texts(&["m1", "m2", "m3"]);
    assert_eq!(turn_ends(&ids), Some(("m1".to_string(), "m3".to_string())));
    let r = build_turn_checkpoint_request("s", CheckpointKind::TurnEnd, &ids, "m1..m3".into())
        .expect("request");
    assert_eq!(r.message_anchor, Some("m3".to_string()));
    assert_eq!(r.turn_id, "m1..m3");
    assert_eq!(
        build_turn_checkpoint_request("s", CheckpointKind::TurnEnd, &vec![], "x".into()),
        None
    );
    let f = make_fallback_context_state("é", 10, 20);
    assert_eq!((f.estimate_context_chars, f.context_budget_tokens), (2, 0));
    assert_eq!(make_fallback_context_state("", 30, 20).context_budget_tokens, 10);
}

fn streamed(kind: &str, delta: &str, signature: Option<&str>) -> Option<StreamedPiece> {
    Some(StreamedPiece {
        kind: Some(kind.into()),
        delta: Some(delta.into()),
        signature: signature.map(|s| s.to_string()),
    })
}

#[test]
fn thoughts_are_kept_until_their_message_ends() {
    let mut t = ThinkingPersistState::new();
    assert_eq!(t.take_end(), None);
    t.take_piece(streamed("thinking_delta", "a", Some("sig")));
    t.take_piece(streamed("content_delta", "x", Some("other")));
    t.take_piece(streamed("thinking_delta", "", Some("other")));
    t.take_piece(None);
    t.take_piece(streamed("thinking_delta", "b", None));
    assert_eq!(t.take_end(), Some(("ab".to_string(), Some("sig".to_string()))));
    assert_eq!(t.take_end(), None);
}

#[test]
fn a_finished_task_is_told_once() {
    let mut book = CompletionBook::new();
    assert_eq!(book.take_end("t1", BashTaskStatus::Finished { exit_code: 3 }), Some(3));
    assert_eq!(book.take_end("t1", BashTaskStatus::Finished { exit_code: 3 }), None);
    assert_eq!(book.route("t1"), Some(CompletionRoute::Delivered));
    assert_eq!(book.take_end("t2", BashTaskStatus::Stopped), Some(-1));
    assert_eq!(book.take_end("t3", BashTaskStatus::Running), None);
    book.set_route("t4", CompletionRoute::ToolWillDeliver);
    assert_eq!(book.take_end("t4", BashTaskStatus::Stopped), None);
    assert_eq!(book.route("t4"), Some(CompletionRoute::ToolWillDeliver));
    book.set_route("t5", CompletionRoute::Pending);
    assert_eq!(book.take_end("t5", BashTaskStatus::Stopped), Some(-1));
    assert_eq!(
        completion_text("t1", -1, "/log", "echo \"hi\"", "tail"),
        "<background-task-finished task_id=\"t1\" exit_code=\"-1\" log_path=\"/log\" command=\"echo \\\"hi\\\"\">\ntail\n</background-task-finished>"
    );
    assert_eq!(
        completion_notice("t1", -1),
        "\n[bg] task t1 finished (exit=-1); queued for next turn."
    );
}

#[test]
fn the_workspace_is_described_root_by_root() {
    let facts = WorkspaceFacts {
        agent_definition_dir: "/def".into(),
        workspace_roots: texts(&["/root"]),
        agent_plans_dir: Some("/plans".into()),
        trail_dirs: vec![Some("/trail".into()), None],
        entries: vec![
            WorkspaceEntry {
                path: "~/e".into(),
                normalized: Some("/e".into()),
                alias: Some("first".into()),
                description: None,
            },
            WorkspaceEntry {
                path: "/e".into(),
                normalized: None,
                alias: Some("last".into()),
                description: Some("d".into()),
            },
            WorkspaceEntry { path: " ".into(), normalized: None, alias: None, description: None },
        ],
        session_grants: texts(&["/grant"]),
        read_write: texts(&["/def", "/root", "/grant", "/e", "/root"]),
        read_only: texts(&["/trail", "/plans", "/rule", "/rule"]),
        user_rule_paths: texts(&["/mine"]),
        rules: vec![
            PathRule { path: "/mine".into(), mode: PathRuleMode::Deny },
            PathRule { path: "/built".into(), mode: PathRuleMode::Readonly },
        ],
    };
    let s = compute_workspace_state(&facts);
    let shown: Vec<(String, String)> =
        s.read_write.iter().map(|d| (d.path.clone(), d.label.clone())).collect();
    assert_eq!(
        shown,
        vec![
            ("/def".to_string(), "agent_definition_dir".to_string()),
            ("/root".to_string(), "agent_workspace_root".to_string()),
            ("/grant".to_string(), "session_grant".to_string()),
            ("/e".to_string(), "workspace_root".to_string()),
        ]
    );
    assert_eq!(s.read_write[3].alias, Some("last".to_string()));
    assert_eq!(s.read_write[3].description, Some("d".to_string()));
    let labels: Vec<String> = s.read_only.iter().map(|d| d.label.clone()).collect();
    assert_eq!(labels, texts(&["agent_trail_dir", "agent_plans_dir", "path_rule_readonly"]));
    assert_eq!((s.path_rules[0].mode.as_str(), s.path_rules[0].builtin), ("deny", false));
    assert_eq!((s.path_rules[1].mode.as_str(), s.path_rules[1].builtin), ("readonly", true));
}

// ---------------------------------------------------------------- the context

#[test]
fn bash_production_policy_resolves_non_default_wait_output_and_path() {
    let cfg = BashConfig { foreground_wait_ms: 9_000, max_output_chars: 42_000 };
    let policy = resolve_bash_production_policy(&cfg, "/tmp/tomcat-policy-test/agent-trail");
    assert_eq!(policy.foreground_wait_ms, 9_000);
    assert_eq!(policy.max_output_chars, 42_000);
    assert_eq!(policy.persist_dir, "/tmp/tomcat-policy-test/agent-trail/tool-results");
}

#[test]
fn directories_fall_back_one_by_one() {
    assert_eq!(resolve_session_dir(Some("/a"), Some("/b")), "/a");
    assert_eq!(resolve_session_dir(None, Some("/b")), "/b");
    assert_eq!(resolve_session_dir(None, None), ".");
    assert_eq!(resolve_agent_workspace_dir(Some("/a"), true, Some("/b"), "/d"), "/a");
    assert_eq!(resolve_agent_workspace_dir(Some("/a"), false, Some("/b"), "/d"), "/b");
    assert_eq!(resolve_agent_workspace_dir(None, false, None, "/d"), "/d");
    assert_eq!(legacy_move("/d", "/t", "x", true), None);
    assert_eq!(
        legacy_move("/d", "/t", "x", false),
        Some(("/d/workspace/x".to_string(), "/t/tool-results/x".to_string()))
    );
}

#[test]
fn models_come_from_the_session_or_the_configuration() {
    assert_eq!(effective_model(Some("m"), "d"), "m");
    assert_eq!(effective_model(Some(""), "d"), "d");
    assert_eq!(effective_model(None, "d"), "d");
    assert_eq!(session_model(Some(" m ")), Some(" m ".to_string()));
    assert_eq!(session_model(Some(" ")), None);
    let key = files_runtime_key("p", "a", None, "k");
    assert_eq!(key, "p\u{1f}a\u{1f}\u{1f}k");
    assert_ne!(key, files_runtime_key("p", "a", Some("u"), "k"));
    assert!(keeps_files_runtime(Some(&key), &key) && !keeps_files_runtime(None, &key));
}

#[test]
fn switches_come_from_the_environment_first() {
    assert_eq!(resolve_reviewer_max_turns(Some("7"), 64), 7);
    assert_eq!(resolve_reviewer_max_turns(Some("x"), 64), 64);
    assert_eq!(resolve_reviewer_max_turns(Some("4294967296"), 64), 64);
    assert_eq!(resolve_reviewer_max_turns(None, 64), 64);
    assert_eq!(parse_thinking_display_override(" ON "), Some(ThinkingDisplay::Full));
    assert_eq!(parse_thinking_display_override(""), Some(ThinkingDisplay::Summary));
    assert_eq!(parse_thinking_display_override("minimal"), Some(ThinkingDisplay::Minimal));
    assert_eq!(parse_thinking_display_override("loud"), None);
    assert_eq!(
        resolve_initial_thinking_display(Some("loud"), ThinkingDisplay::Minimal),
        ThinkingDisplay::Minimal
    );
    assert!(plugin_runtime_disabled_via_env(Some(" Yes ")));
    assert!(!plugin_runtime_disabled_via_env(Some("0")) && !plugin_runtime_disabled_via_env(None));
}

#[test]
fn a_context_is_planned_from_what_is_found() {
    let facts = ContextFacts {
        session_cwd_override: None,
        current_dir: Some("/cur".into()),
        session_cwd: Some("/ses".into()),
        session_cwd_exists: true,
        agent_definition_dir: "/def".into(),
        agent_trail_dir: "/trail".into(),
        project_root: None,
        bash: BashConfig { foreground_wait_ms: 1, max_output_chars: 2 },
        show_thinking_env: Some("full".into()),
        show_thinking: ThinkingDisplay::Summary,
        reviewer_turns_env: None,
        reviewer_max_turns: 64,
        reviewer_model_override: Some("rm".into()),
    };
    let p = plan_context(&facts);
    assert_eq!(p.session_dir, "/cur");
    assert_eq!(p.agent_workspace_dir, "/ses");
    assert_eq!(p.resource_root, "/ses");
    assert_eq!(p.web_fetch_dir, "/trail/tool-results");
    assert_eq!(p.bash.persist_dir, "/trail/tool-results");
    assert_eq!(p.thinking_display, ThinkingDisplay::Full);
    assert_eq!(p.reviewer_max_turns, 64);
    assert_eq!(p.reviewer_model, Some("rm".to_string()));
    assert_eq!((p.explorer_model, p.verifier_model), (None, None));
    assert_eq!(root_register_failure("e"), "agent_registry root register 失败: e");
}

#[test]
fn overrides_are_set_one_by_one() {
    let o: ChatContextOverrides<u8, u8, u8, u8, u8> = ChatContextOverrides::none();
    assert!(o.ask_question_panel.is_none() && !o.suppress_cli_output);
    let o = o
        .with_ask_question_panel(1)
        .with_confirmation(2)
        .with_fetch_http_client(3)
        .with_shared_agent_registry(4)
        .with_shared_model_prefs(5)
        .skip_session_plugin_activation()
        .suppress_cli_output()
        .with_session_cwd_override("/x".into());
    assert_eq!(o.ask_question_panel, Some(1));
    assert_eq!(o.confirmation, Some(2));
    assert_eq!(o.fetch_http_client, Some(3));
    assert_eq!(o.shared_agent_registry, Some(4));
    assert_eq!(o.shared_model_prefs, Some(5));
    assert!(o.skip_session_plugin_activation && o.suppress_cli_output);
    assert_eq!(o.session_cwd_override, Some("/x".to_string()));
}

#[test]
fn skills_and_scopes_are_renewed_when_due() {
    assert!(starts_skill_discovery(true, true, false));
    assert!(!starts_skill_discovery(true, true, true));
    assert!(!starts_skill_discovery(false, true, false));
    assert_eq!(skill_discovery_failure("e"), "skills_discovery_join_failed:e");
    assert!(keeps_known_skills(&texts(&["x", "skills_root_unreadable:/a"])));
    assert!(keeps_known_skills(&texts(&["skills_discovery_roots_failed"])));
    assert!(!keeps_known_skills(&texts(&["skills_discovery_roots_failed2"])));
    assert!(inventory_is_stale(2, 1) && !inventory_is_stale(1, 1));
    assert!(reuses_scope(false, true, false, false));
    assert!(!reuses_scope(false, true, true, false));
    assert!(!reuses_scope(true, true, true, true));
}

fn field(name: &str, value: u8) -> Field<u8> {
    Field { name: name.into(), value }
}

#[test]
fn entries_about_plans_are_announced() {
    let entry = || vec![field("event", 1), field("goal", 2), field("plan_id", 3), field("type", 4)];
    assert_eq!(
        announce(entry(), Some("plan.review"), 8, 9),
        Some(vec![field("goal", 2), field("planId", 3), field("type", 8), field("sessionId", 9)])
    );
    assert_eq!(
        announce(vec![field("a", 1)], Some("session.x"), 8, 9),
        Some(vec![field("a", 1), field("type", 8), field("sessionId", 9)])
    );
    assert_eq!(announce(entry(), Some("planner"), 8, 9), None);
    assert_eq!(announce(entry(), None, 8, 9), None);
}

#[test]
fn plugins_that_work_stay_as_they_are() {
    let known = vec![
        KnownPlugin { plugin_id: "old".into(), loaded_at: 0, has_session_vm: false },
        KnownPlugin { plugin_id: "busy".into(), loaded_at: 0, has_session_vm: true },
        KnownPlugin { plugin_id: "up".into(), loaded_at: 9, has_session_vm: false },
    ];
    assert_eq!(plugins_to_drop(&known, &texts(&["new"])), texts(&["old"]));
    assert_eq!(
        plugins_to_renew(&texts(&["new", "busy", "old", "up"]), &known),
        texts(&["new", "old"])
    );
    let lazy = PluginFacts {
        lists_no_tools: true,
        loaded_at: 0,
        activation: PluginActivation::Lazy,
        has_session_vm: false,
    };
    let s = session_start(&lazy);
    assert!(s.load_first && !s.start);
    let ready = PluginFacts {
        lists_no_tools: true,
        loaded_at: 5,
        activation: PluginActivation::Session,
        has_session_vm: false,
    };
    let s = session_start(&ready);
    assert!(!s.load_first && s.start);
    let running = PluginFacts { has_session_vm: true, ..ready };
    assert!(!session_start(&running).start);
}

#[test]
fn plugins_are_found_and_their_tools_listed() {
    assert_eq!(auto_load_path("p", Some("/cat/p"), true, "/plugins"), "/cat/p");
    assert_eq!(auto_load_path("/abs", None, false, "/plugins"), "/abs");
    assert_eq!(auto_load_path("rel", None, true, "/plugins"), "rel");
    assert_eq!(auto_load_path("rel", None, false, "/plugins"), "/plugins/rel");
    let tools = vec![ManifestTool { name: "t".into(), description: "d".into(), parameters: 7 }];
    assert!(manifest_tools("p", false, tools.clone()).is_empty());
    let listed = manifest_tools("p", true, tools);
    assert_eq!(listed[0].parameters, 7);
    assert_eq!((listed[0].name.as_str(), listed[0].label.as_str()), ("t", "t"));
    assert_eq!(listed[0].plugin_id, "p");
    assert!(listed[0].is_enabled && listed[0].created_at == 0);
    assert_eq!(no_plugin_tools_message("t"), "对话模式下不支持插件工具执行: t");
    let d = vec![CatalogDiagnostic { path: "/x".into(), reason: "bad".into() }];
    assert_eq!(
        inventory_warnings(&texts(&["a"]), &texts(&["b"]), &d, &d),
        texts(&["a", "b", "plugin catalog ignored /x: bad", "host function catalog ignored /x: bad"])
    );
    let p = fetch_proxy(Some(" http://p "), true);
    assert!(p.explicit && !p.ambient);
    let p = fetch_proxy(Some(" "), true);
    assert!(!p.explicit && p.ambient);
}

fn plugin(id: &str, source: PluginSource, functions: &[(&str, &str)]) -> CatalogPlugin {
    CatalogPlugin {
        plugin_id: id.into(),
        source,
        plugin_root: format!("/{id}"),
        functions: functions
            .iter()
            .map(|(p, f)| ManifestFunction { point: p.to_string(), function: f.to_string() })
            .collect(),
    }
}

#[test]
fn the_nearest_source_serves_a_point() {
    let catalog = vec![
        plugin("far", PluginSource::Managed, &[("b", "f1"), ("a", "f2")]),
        plugin("near", PluginSource::Project, &[("b", "g1")]),
        plugin("second", PluginSource::Project, &[("b", "h1")]),
    ];
    let table = materialize_host_functions_from_catalog(&catalog);
    let shown: Vec<(String, String, String)> = table
        .functions
        .iter()
        .map(|f| (f.point.clone(), f.plugin_id.clone(), f.function.clone()))
        .collect();
    assert_eq!(
        shown,
        vec![
            ("a".to_string(), "far".to_string(), "f2".to_string()),
            ("b".to_string(), "near".to_string(), "g1".to_string()),
        ]
    );
    assert_eq!(
        table.warnings,
        texts(&[
            "function_point_conflict:b:second shadowed_by near (source=project, policy=first_wins)",
            "function_point_shadowed:b:managed:far shadowed_by project:near",
        ])
    );
    assert_eq!(host_function_source_rank(PluginSource::Agent), 1);
}
