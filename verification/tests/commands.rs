//! Recognising commands, and what the commands print and leave to do.

use tomcat_chat::commands::cmd_ckpt::{
    checkpoint_kind_label, checkpoint_meta_lines, diff_text, list_lines, show_lines,
    CheckpointKind, CheckpointMeta,
};
use tomcat_chat::commands::cmd_compact::{
    covered_messages, needs_reload, report_line, CompactEnd, CompactReport, Covered,
};
use tomcat_chat::commands::cmd_effort::{
    apply_level, parse_effort_level, run_message, ModelThinkingStore,
};
use tomcat_chat::commands::cmd_install::{
    choose_target, failure_line, first_step, refresh_needs, report_lines, retained_loaded_plugins,
    step_after_question, target_question, CatalogRefresh, InstallOutcome, InstallStep,
    PackageResource, PackageResourceKind, PackageVisibility, PluginActivity,
};
use tomcat_chat::commands::cmd_model::{
    current_lines, format_capabilities, format_model_list_line, plan_switch, requested_model,
    session_error_line, switch_line, Capabilities, ModelEntry, ModelSwitch, ResolvedModel,
};
use tomcat_chat::commands::cmd_plan::{
    build_finished, parse_args, plan_build, plan_list_lines, plan_list_missing_line,
    plan_list_unresolved_line, run_enter, run_exit, BuildEnd, DefaultTarget, PlanRow, SessionLookup,
};
use tomcat_chat::commands::cmd_skill::{reload_lines, run_use, SkillLookup};
use tomcat_chat::commands::cmd_thinking::{apply_action, run};
use tomcat_chat::commands::parse::Dispatch;
use tomcat_chat::commands::{
    cmd_model, cmd_skill, dispatch_chat_command, help_text, parse_chat_command, ChatCommand,
    ChatCommandOutcome, InstallCommand, InstallTarget, ModelCommand, PlanCommand, SkillCommand,
    ThinkingAction,
};
use tomcat_chat::plan_runtime::ask_question_panel::{Answer, AskQuestionResult};
use tomcat_chat::plan_runtime::{PlanMode, PlanRuntime};
use tomcat_chat::settings::{ThinkingDisplay, ThinkingLevel};

fn assert_not_command(input: &str) {
    assert_eq!(
        parse_chat_command(input),
        ChatCommand::NotACommand(input.to_string())
    );
}

fn usage_message(line: &str) -> String {
    match parse_chat_command(line) {
        ChatCommand::UsageError { message } => message,
        other => panic!("应为 UsageError，实际：{:?}", other),
    }
}

// ---------------------------------------------------------------- /effort

#[test]
fn effort_levels_parse_correctly() {
    assert_eq!(parse_effort_level("low"), Some(ThinkingLevel::Low));
    assert_eq!(parse_effort_level("medium"), Some(ThinkingLevel::Medium));
    assert_eq!(parse_effort_level("high"), Some(ThinkingLevel::High));
    assert_eq!(parse_effort_level("xhigh"), Some(ThinkingLevel::Xhigh));
}

#[test]
fn effort_levels_are_read_without_case_or_blanks() {
    assert_eq!(parse_effort_level("  XHigh\t"), Some(ThinkingLevel::Xhigh));
    assert_eq!(parse_effort_level("x high"), None);
}

#[test]
fn effort_command_parses_all_supported_levels() {
    assert_eq!(
        parse_chat_command("/effort low"),
        ChatCommand::Effort { level: ThinkingLevel::Low }
    );
    assert_eq!(
        parse_chat_command("/effort medium"),
        ChatCommand::Effort { level: ThinkingLevel::Medium }
    );
    assert_eq!(
        parse_chat_command("/effort high"),
        ChatCommand::Effort { level: ThinkingLevel::High }
    );
    assert_eq!(
        parse_chat_command("/effort xhigh"),
        ChatCommand::Effort { level: ThinkingLevel::Xhigh }
    );
}

#[test]
fn effort_without_arg_is_usage_error() {
    assert!(matches!(
        parse_chat_command("/effort"),
        ChatCommand::UsageError { .. }
    ));
}

#[test]
fn effort_unknown_arg_is_usage_error() {
    let msg = usage_message("/effort turbo");
    assert!(
        msg.contains("low|medium|high|xhigh"),
        "错误文案应列出合法值：{msg}"
    );
    assert!(msg.contains("turbo"), "错误文案应回显非法输入：{msg}");
}

#[test]
fn effort_level_is_kept_for_each_model() {
    let mut store = ModelThinkingStore::new(ThinkingLevel::Medium);
    assert_eq!(store.get("gpt-5.4"), ThinkingLevel::Medium);
    apply_level(&mut store, "gpt-5.4", ThinkingLevel::Xhigh);
    apply_level(&mut store, "other", ThinkingLevel::Low);
    assert_eq!(store.get("gpt-5.4"), ThinkingLevel::Xhigh);
    assert_eq!(store.get("other"), ThinkingLevel::Low);
    apply_level(&mut store, "other", ThinkingLevel::High);
    assert_eq!(store.get("other"), ThinkingLevel::High);
    assert_eq!(store.get("third"), ThinkingLevel::Medium);
}

#[test]
fn effort_says_what_it_did() {
    assert_eq!(
        run_message(Ok(()), "gpt-5.4", ThinkingLevel::Xhigh, Ok(())),
        "[effort] 模型 gpt-5.4 的思考深度已设为 xhigh"
    );
    assert_eq!(
        run_message(Err("no store".into()), "gpt-5.4", ThinkingLevel::Low, Ok(())),
        "[effort] 读取当前会话失败: no store"
    );
    assert_eq!(
        run_message(Ok(()), "gpt-5.4", ThinkingLevel::Low, Err("disk".into())),
        "[effort] 设置失败: disk"
    );
}

#[test]
fn help_text_mentions_effort_command() {
    let h = help_text();
    assert!(h.contains("/effort"), "/help 应列出 /effort：{h}");
    assert!(
        h.contains("low|medium|high|xhigh"),
        "帮助文案应展示 /effort 支持档位：{h}"
    );
}

// ---------------------------------------------------------------- /help

#[test]
fn help_command_is_lowercase_only() {
    assert_eq!(parse_chat_command("/help"), ChatCommand::Help);
    assert!(matches!(
        parse_chat_command("/help foo"),
        ChatCommand::UsageError { .. }
    ));
    assert_not_command("/HELP");
}

#[test]
fn help_text_mentions_checkpoint_commands() {
    let h = help_text();
    assert!(h.contains("/ckpt"), "/help 应列出 /ckpt：{}", h);
    assert!(h.contains("/restore"), "/help 应列出 /restore：{}", h);
}

#[test]
fn help_text_mentions_plan_without_goal_argument() {
    let h = help_text();
    assert!(
        h.contains("\n  /plan                      "),
        "/help 应列出无参 /plan：{}",
        h
    );
    assert!(
        !h.contains("/plan \"<目标>\""),
        "/help 不应再暴露旧的 /plan 目标参数用法：{}",
        h
    );
}

// ---------------------------------------------------------------- /model

#[test]
fn model_command_parses_current_list_and_use() {
    assert_eq!(
        parse_chat_command("/model"),
        ChatCommand::Model(ModelCommand::Current)
    );
    assert_eq!(
        parse_chat_command("/model current"),
        ChatCommand::Model(ModelCommand::Current)
    );
    assert_eq!(
        parse_chat_command("/model list"),
        ChatCommand::Model(ModelCommand::List)
    );
    assert_eq!(
        parse_chat_command("/model use deepseek-v4-pro"),
        ChatCommand::Model(ModelCommand::Use {
            model_id: "deepseek-v4-pro".to_string(),
        })
    );
}

#[test]
fn model_command_invalid_args_return_usage_error() {
    assert!(matches!(
        parse_chat_command("/model use"),
        ChatCommand::UsageError { .. }
    ));
    assert!(matches!(
        parse_chat_command("/model foo"),
        ChatCommand::UsageError { .. }
    ));
}

#[test]
fn help_text_mentions_model_command() {
    let h = help_text();
    assert!(h.contains("/model [current|list|use <id>]"));
}

fn sunmi() -> ModelEntry {
    ModelEntry {
        id: "gpt-5.4_litellm-sunmi".to_string(),
        model_name: Some("gpt-5.4".to_string()),
        api: "openai-responses".to_string(),
        provider: "litellm-sunmi".to_string(),
        api_key_env: Some("LITELLM_SUNMI_API_KEY".to_string()),
        base_url: Some("https://aigateway.sunmi.com".to_string()),
        capabilities: Capabilities {
            vision: true,
            files: true,
            tools: true,
            reasoning: true,
            web_search: false,
        },
        context_window: None,
        thinking_format: Some("openai".to_string()),
    }
}

#[test]
fn format_model_list_line_uses_local_id_not_upstream_model_name() {
    let line = format_model_list_line(&sunmi(), true, false);
    assert!(line.contains("gpt-5.4_litellm-sunmi [current]"));
    assert!(!line.contains("  - gpt-5.4 [current]"));
}

#[test]
fn model_list_names_tags_and_abilities() {
    let mut plain = sunmi();
    plain.id = "plain".into();
    plain.capabilities = Capabilities {
        vision: false,
        files: false,
        tools: false,
        reasoning: false,
        web_search: true,
    };
    assert_eq!(
        cmd_model::list_lines(&vec![sunmi(), plain], "plain", "plain"),
        vec![
            "可用模型:".to_string(),
            "  - gpt-5.4_litellm-sunmi  api=openai-responses provider=litellm-sunmi \
             caps=vision+files+tools+reasoning"
                .to_string(),
            "  - plain [current, default]  api=openai-responses provider=litellm-sunmi caps=none"
                .to_string(),
        ]
    );
    assert_eq!(format_capabilities(&sunmi().capabilities), "vision+files+tools+reasoning");
}

#[test]
fn current_model_is_told_with_how_it_resolves() {
    let resolved = ResolvedModel {
        api: "openai".into(),
        provider: "p".into(),
        base_url: None,
        key_source: "env".into(),
    };
    assert_eq!(
        current_lines("a", "b", &Ok(resolved)),
        vec![
            "当前会话模型: a",
            "全局默认模型: b",
            "解析结果: api=openai provider=p base_url=(provider default) key_source=env",
        ]
    );
    assert_eq!(
        current_lines("a", "b", &Err("no key".into())),
        vec!["当前会话模型: a", "全局默认模型: b", "解析结果: no key"]
    );
    assert_eq!(session_error_line("broken"), "[model] 读取当前会话失败: broken");
}

#[test]
fn model_switch_goes_by_the_catalog() {
    assert_eq!(requested_model("  gpt "), Some("gpt".to_string()));
    assert_eq!(requested_model(" \t"), None);
    assert_eq!(
        plan_switch(None),
        ModelSwitch::Refused { line: "[model] 用法错误：/model use <model_id>".into() }
    );
    assert_eq!(
        plan_switch(Some(&Err("unknown".into()))),
        ModelSwitch::Refused { line: "[model] unknown".into() }
    );
    assert_eq!(
        plan_switch(Some(&Ok(sunmi()))),
        ModelSwitch::Switch {
            provider: "litellm-sunmi".into(),
            model_id: "gpt-5.4_litellm-sunmi".into(),
        }
    );
    assert_eq!(
        switch_line(&sunmi(), &Ok(())),
        "[model] 当前会话已切换到 gpt-5.4_litellm-sunmi（api=openai-responses provider=litellm-sunmi）"
    );
    assert_eq!(
        switch_line(&sunmi(), &Err("locked".into())),
        "[model] 切换失败: locked"
    );
}

// ---------------------------------------------------------------- /thinking

#[test]
fn bare_thinking_defaults_to_toggle() {
    assert!(matches!(
        parse_chat_command("/thinking"),
        ChatCommand::Thinking { action: ThinkingAction::Toggle }
    ));
}

#[test]
fn thinking_modes_and_aliases_parse_correctly() {
    assert!(matches!(
        parse_chat_command("/thinking minimal"),
        ChatCommand::Thinking { action: ThinkingAction::Minimal }
    ));
    assert!(matches!(
        parse_chat_command("/thinking summary"),
        ChatCommand::Thinking { action: ThinkingAction::Summary }
    ));
    assert!(matches!(
        parse_chat_command("/thinking full"),
        ChatCommand::Thinking { action: ThinkingAction::Full }
    ));
    assert!(matches!(
        parse_chat_command("/thinking toggle"),
        ChatCommand::Thinking { action: ThinkingAction::Toggle }
    ));
    assert!(matches!(
        parse_chat_command("/thinking on"),
        ChatCommand::Thinking { action: ThinkingAction::Full }
    ));
    assert!(matches!(
        parse_chat_command("/thinking off"),
        ChatCommand::Thinking { action: ThinkingAction::Summary }
    ));
}

#[test]
fn thinking_unknown_subcommand_is_usage_error() {
    let msg = usage_message("/thinking foo");
    assert!(
        msg.contains("minimal/summary/full/toggle"),
        "错误文案应说明合法值：{}",
        msg
    );
    assert!(msg.contains("foo"), "错误文案应回显未知子命令：{}", msg);
}

#[test]
fn thinking_extra_args_is_usage_error() {
    assert!(matches!(
        parse_chat_command("/thinking summary extra"),
        ChatCommand::UsageError { .. }
    ));
}

#[test]
fn apply_explicit_mode_sets_target_regardless_of_prev() {
    let mut f = ThinkingDisplay::Minimal;
    assert_eq!(apply_action(&mut f, ThinkingAction::Summary), ThinkingDisplay::Summary);
    assert_eq!(f, ThinkingDisplay::Summary);
    assert_eq!(apply_action(&mut f, ThinkingAction::Full), ThinkingDisplay::Full);
    assert_eq!(f, ThinkingDisplay::Full);
    assert_eq!(apply_action(&mut f, ThinkingAction::Minimal), ThinkingDisplay::Minimal);
    assert_eq!(f, ThinkingDisplay::Minimal);
}

#[test]
fn apply_toggle_cycles_summary_full_minimal() {
    let mut f = ThinkingDisplay::Summary;
    assert_eq!(apply_action(&mut f, ThinkingAction::Toggle), ThinkingDisplay::Full);
    assert_eq!(f, ThinkingDisplay::Full);
    assert_eq!(apply_action(&mut f, ThinkingAction::Toggle), ThinkingDisplay::Minimal);
    assert_eq!(f, ThinkingDisplay::Minimal);
    assert_eq!(apply_action(&mut f, ThinkingAction::Toggle), ThinkingDisplay::Summary);
    assert_eq!(f, ThinkingDisplay::Summary);
}

#[test]
fn thinking_says_the_new_mode() {
    let mut f = ThinkingDisplay::Summary;
    assert_eq!(run(&mut f, ThinkingAction::Toggle), "[thinking] 已切换到 full 模式");
}

#[test]
fn help_text_mentions_thinking_command() {
    let h = help_text();
    assert!(h.contains("/thinking"), "/help 应列出 /thinking：{}", h);
    assert!(
        h.contains("minimal|summary|full|toggle"),
        "帮助文案应展示三档：{}",
        h
    );
}

// ---------------------------------------------------------------- lines

#[test]
fn unknown_slash_commands_are_chat() {
    assert_not_command("/foo /a");
    assert_not_command("/abs/path");
}

#[test]
fn normal_text_with_path_is_chat() {
    assert_not_command("帮我看下 /a");
}

#[test]
fn blank_and_padded_lines_are_chat_unchanged() {
    assert_not_command("");
    assert_not_command("  \t ");
    assert_not_command("  hello  ");
}

#[test]
fn words_are_split_as_a_shell_does() {
    assert_eq!(
        parse_chat_command("  /skill use commit \"ship it\" 'now or' later\\ on "),
        ChatCommand::Skill(SkillCommand::Use {
            name: "commit".into(),
            intent: "ship it now or later on".into(),
        })
    );
    assert_eq!(
        parse_chat_command("/model use 'a b'"),
        ChatCommand::Model(ModelCommand::Use { model_id: "a b".into() })
    );
}

#[test]
fn open_quotes_are_usage_errors() {
    assert_eq!(
        usage_message("/restore \"ck_1"),
        "命令参数解析失败：missing closing quote"
    );
    assert_not_command("say \"ck_1");
}

#[test]
fn path_command_takes_one_path() {
    assert_eq!(
        parse_chat_command(" /path '/a b' "),
        ChatCommand::Path { path: "/a b".into(), original_line: "/path '/a b'".into() }
    );
    assert!(matches!(parse_chat_command("/path"), ChatCommand::UsageError { .. }));
}

#[test]
fn compact_takes_no_argument() {
    assert_eq!(parse_chat_command("/compact"), ChatCommand::Compact);
    assert_eq!(usage_message("/compact now"), "用法错误：/compact 不接受参数。");
}

#[test]
fn ckpt_commands_parse() {
    assert_eq!(
        parse_chat_command("/ckpt list"),
        ChatCommand::CkptList { limit: None }
    );
    assert_eq!(
        parse_chat_command("/ckpt list --limit 5"),
        ChatCommand::CkptList { limit: Some(5) }
    );
    assert_eq!(
        parse_chat_command("/ckpt show ck_1"),
        ChatCommand::CkptShow { checkpoint_id: "ck_1".to_string() }
    );
    assert_eq!(
        parse_chat_command("/ckpt diff ck_2"),
        ChatCommand::CkptDiff { checkpoint_id: "ck_2".to_string() }
    );
}

#[test]
fn ckpt_limit_is_a_positive_number() {
    let wanted = "用法错误：/ckpt list [--limit N]，其中 N 必须是正整数。";
    assert_eq!(usage_message("/ckpt list --limit 0"), wanted);
    assert_eq!(usage_message("/ckpt list --limit x"), wanted);
    assert_eq!(usage_message("/ckpt list --limit 18446744073709551616"), wanted);
    assert_eq!(
        parse_chat_command("/ckpt list --limit +18446744073709551615"),
        ChatCommand::CkptList { limit: Some(usize::MAX) }
    );
    assert_eq!(
        usage_message("/ckpt"),
        "用法错误：/ckpt list [--limit N] | /ckpt show <id> | /ckpt diff <id>"
    );
}

#[test]
fn restore_command_parses_paths_and_dry_run() {
    assert_eq!(
        parse_chat_command("/restore ck_1 --path src/a.rs --path Cargo.toml --dry-run"),
        ChatCommand::Restore {
            checkpoint_id: "ck_1".to_string(),
            paths: vec!["src/a.rs".into(), "Cargo.toml".into()],
            dry_run: true,
        }
    );
}

#[test]
fn restore_command_wants_an_id_and_whole_options() {
    let wanted = "用法错误：/restore <ck_id> [--path <rel>]... [--dry-run]";
    assert_eq!(usage_message("/restore"), wanted);
    assert_eq!(usage_message("/restore ck_1 --path"), wanted);
    assert_eq!(usage_message("/restore ck_1 --dry"), wanted);
}

#[test]
fn plan_command_without_args_enters_planning() {
    assert_eq!(
        parse_chat_command("/plan"),
        ChatCommand::Plan(PlanCommand::Enter)
    );
}

#[test]
fn plan_command_exit_parses() {
    assert_eq!(
        parse_chat_command("/plan exit"),
        ChatCommand::Plan(PlanCommand::Exit)
    );
}

#[test]
fn plan_command_build_with_id_parses() {
    assert_eq!(
        parse_chat_command("/plan build ship-001"),
        ChatCommand::Plan(PlanCommand::Build {
            plan_target: Some("ship-001".to_string()),
        })
    );
}

#[test]
fn plan_command_build_with_path_parses() {
    assert_eq!(
        parse_chat_command("/plan build /tmp/ship-001.plan.md"),
        ChatCommand::Plan(PlanCommand::Build {
            plan_target: Some("/tmp/ship-001.plan.md".to_string()),
        })
    );
}

#[test]
fn plan_command_with_extra_arg_returns_usage_error() {
    assert!(matches!(
        parse_chat_command("/plan ship-plan-mode"),
        ChatCommand::UsageError { .. }
    ));
}

#[test]
fn plan_command_in_chat_text_does_not_match() {
    assert!(matches!(
        parse_chat_command("帮我 /plan exit"),
        ChatCommand::NotACommand(_)
    ));
}

#[test]
fn dispatch_prints_help_and_passes_chat_on() {
    assert_eq!(
        dispatch_chat_command(ChatCommand::NotACommand(" hi ".into())),
        Dispatch::Done {
            lines: vec![],
            outcome: ChatCommandOutcome::Continue {
                line: " hi ".into(),
                echo_user: false,
                history_line: None,
            },
        }
    );
    assert_eq!(
        dispatch_chat_command(ChatCommand::Help),
        Dispatch::Done {
            lines: vec![help_text().to_string()],
            outcome: ChatCommandOutcome::Handled,
        }
    );
    assert_eq!(
        dispatch_chat_command(ChatCommand::UsageError { message: "no".into() }),
        Dispatch::Done {
            lines: vec![format!("no\n\n{}", help_text())],
            outcome: ChatCommandOutcome::Handled,
        }
    );
    assert_eq!(
        dispatch_chat_command(ChatCommand::Compact),
        Dispatch::Run(ChatCommand::Compact)
    );
}

// ---------------------------------------------------------------- /plan

#[test]
fn parse_plan_without_args_enters_planning() {
    let cmd = parse_args(vec!["/plan".into()]);
    assert!(matches!(cmd, ChatCommand::Plan(PlanCommand::Enter)));
}

#[test]
fn parse_plan_exit() {
    let cmd = parse_args(vec!["/plan".into(), "exit".into()]);
    assert!(matches!(cmd, ChatCommand::Plan(PlanCommand::Exit)));
}

#[test]
fn parse_plan_build_with_id() {
    let cmd = parse_args(vec!["/plan".into(), "build".into(), "ship-001".into()]);
    assert!(matches!(
        cmd,
        ChatCommand::Plan(PlanCommand::Build { ref plan_target })
            if plan_target.as_deref() == Some("ship-001")
    ));
}

#[test]
fn parse_plan_build_with_path() {
    let cmd = parse_args(vec![
        "/plan".into(),
        "build".into(),
        "/tmp/ship-001.plan.md".into(),
    ]);
    assert!(matches!(
        cmd,
        ChatCommand::Plan(PlanCommand::Build { ref plan_target })
            if plan_target.as_deref() == Some("/tmp/ship-001.plan.md")
    ));
}

#[test]
fn parse_plan_with_extra_arg_returns_usage_error() {
    let cmd = parse_args(vec!["/plan".into(), "ship".into()]);
    assert!(matches!(cmd, ChatCommand::UsageError { .. }));
}

#[test]
fn parse_plan_list() {
    let cmd = parse_args(vec!["/plan".into(), "list".into()]);
    assert!(matches!(cmd, ChatCommand::Plan(PlanCommand::List)));
}

#[test]
fn parse_plan_build_without_id_uses_default_target() {
    let cmd = parse_args(vec!["/plan".into(), "build".into()]);
    assert!(matches!(
        cmd,
        ChatCommand::Plan(PlanCommand::Build { plan_target: None })
    ));
}

#[test]
fn run_plan_build_returns_continue_for_existing_plan() {
    let plan_path = "/home/u/.tomcat/plans/ship-001.plan.md";
    let mut rt = PlanRuntime::new("k");
    let request = plan_build(
        SessionLookup::Found("s-1".into()),
        Some(plan_path.to_string()),
        DefaultTarget::Refused("unused".into()),
    )
    .expect("build request");
    assert_eq!(request.target, plan_path);
    assert_eq!(request.session_id, "s-1");

    let (outcome, lines) = build_finished(
        &mut rt,
        BuildEnd::Built {
            plan_id: "ship-001".into(),
            plan_path: plan_path.into(),
            warnings: vec![],
        },
    );
    assert!(lines.is_empty());
    match outcome {
        ChatCommandOutcome::Continue { line, echo_user, .. } => {
            assert!(echo_user, "/plan build 自动开跑时应回显 user line");
            assert_eq!(
                line,
                format!("start building {}", plan_path),
                "应把 canonical plan path 交给下一轮 chat_loop 继续执行"
            );
        }
        ChatCommandOutcome::Handled => panic!("/plan build 成功时不应被当作纯本地 handled"),
    }
    assert!(
        matches!(rt.mode(), PlanMode::Executing { ref plan_id } if plan_id == "ship-001"),
        "build 成功后 runtime 应切到 Executing"
    );
}

#[test]
fn run_plan_build_without_target_uses_runtime_default_source() {
    let plan_path = "/home/u/.tomcat/plans/ship-default.plan.md";
    let mut rt = PlanRuntime::new("k");
    let request = plan_build(
        SessionLookup::Found("s-1".into()),
        None,
        DefaultTarget::Plan("ship-default".into()),
    )
    .expect("build request");
    assert_eq!(request.target, "ship-default");
    let (outcome, _) = build_finished(
        &mut rt,
        BuildEnd::Built {
            plan_id: "ship-default".into(),
            plan_path: plan_path.into(),
            warnings: vec![],
        },
    );
    match outcome {
        ChatCommandOutcome::Continue { line, echo_user, .. } => {
            assert!(echo_user);
            assert_eq!(line, format!("start building {}", plan_path));
        }
        ChatCommandOutcome::Handled => panic!("/plan build 默认源成功时不应被当作 handled"),
    }
    assert!(
        matches!(rt.mode(), PlanMode::Executing { ref plan_id } if plan_id == "ship-default")
    );
}

#[test]
fn run_plan_exit_allows_pending_back_to_chat() {
    let mut rt = PlanRuntime::new("k");
    rt.set_mode_pending("pending-plan".into());
    let said = run_exit(&mut rt);
    assert!(!said.is_error);
    assert_eq!(said.line, "[plan] 已退回 Chat 模式。");
    assert!(matches!(rt.mode(), PlanMode::Chat));
}

#[test]
fn plan_build_says_why_it_did_not_start() {
    assert_eq!(
        plan_build(
            SessionLookup::Missing,
            Some("p".into()),
            DefaultTarget::Plan("q".into()),
        ),
        Err("[plan] /plan build 失败：当前无会话，无法确定 session_id".to_string())
    );
    assert_eq!(
        plan_build(
            SessionLookup::Failed("io".into()),
            None,
            DefaultTarget::Plan("q".into()),
        ),
        Err("[plan] /plan build 失败：读取当前 session_id 失败：io".to_string())
    );
    assert_eq!(
        plan_build(
            SessionLookup::Found("s".into()),
            None,
            DefaultTarget::Refused("no plan".into()),
        ),
        Err("[plan] /plan build 失败：no plan".to_string())
    );
    let mut rt = PlanRuntime::new("k");
    assert_eq!(
        build_finished(&mut rt, BuildEnd::Refused("busy".into())),
        (
            ChatCommandOutcome::Handled,
            vec!["[plan] /plan build 拒绝：busy".to_string()],
        )
    );
    assert_eq!(rt.mode(), PlanMode::Chat);
}

#[test]
fn plan_enter_says_what_comes_next_or_why_not() {
    let mut rt = PlanRuntime::new("k");
    let said = run_enter(&mut rt);
    assert!(!said.is_error);
    assert_eq!(
        said.line,
        "[plan] 已进入 PLAN 模式。\n[plan] 先与模型讨论目标；用 /plan exit 退回 Chat；用 /plan build <plan_id/path> 进入 EXEC。"
    );
    let again = run_enter(&mut rt);
    assert!(again.is_error);
    assert!(again.line.starts_with("[plan] 进入 PLAN 失败："));
}

#[test]
fn plan_list_is_sorted_and_padded() {
    let rows = vec![
        PlanRow {
            plan_id: "zeta".into(),
            state: "planning".into(),
            goal: "ship\nsecond line".into(),
            created_at: "T2".into(),
        },
        PlanRow {
            plan_id: "alpha".into(),
            state: "completed".into(),
            goal: "".into(),
            created_at: "T1".into(),
        },
    ];
    assert_eq!(
        plan_list_lines(&rows, "/p"),
        vec![
            "[plan list] 2 plan(s) in /p：".to_string(),
            format!("  - {:<32} [{:<10}]  {}  (created {})", "alpha", "completed", "", "T1"),
            format!("  - {:<32} [{:<10}]  {}  (created {})", "zeta", "planning", "ship", "T2"),
        ]
    );
    assert_eq!(plan_list_lines(&vec![], "/p"), vec!["[plan list] 暂无 plan：/p"]);
    assert_eq!(
        plan_list_missing_line("/p"),
        "[plan list] 暂无 plan（目录不存在或为空）：/p"
    );
    assert_eq!(
        plan_list_unresolved_line("no home"),
        "[plan list] 无法解析 plans 目录：no home"
    );
}

// ---------------------------------------------------------------- /skill

#[test]
fn skill_commands_parse() {
    assert_eq!(parse_chat_command("/skill list"), ChatCommand::Skill(SkillCommand::List));
    assert_eq!(parse_chat_command("/skill reload"), ChatCommand::Skill(SkillCommand::Reload));
    assert_eq!(
        usage_message("/skill use"),
        "用法错误：/skill list | /skill reload | /skill use <name> \"intent...\""
    );
}

#[test]
fn skill_inventory_is_printed_with_its_state() {
    assert_eq!(cmd_skill::list_lines(true, "inv"), vec!["inv"]);
    assert_eq!(
        cmd_skill::list_lines(false, "inv"),
        vec!["[skill] 技能系统当前已禁用（[skills].enabled=false）。", "inv"]
    );
    assert_eq!(reload_lines(true, "inv"), vec!["[skill] 已重载技能目录。", "inv"]);
    assert_eq!(
        reload_lines(false, "inv"),
        vec!["[skill] 技能系统已禁用；当前运行时 SkillSet 已清空。", "inv"]
    );
}

#[test]
fn run_skill_use_allows_user_only_skill_and_injects_body() {
    let payload = "<skill name=\"secret\" path=\"p\">\n# Skill Body\n</skill>".to_string();
    let (lines, outcome) = run_use(
        "secret",
        "summarize the request",
        &SkillLookup::Loaded { payload },
    );
    assert!(lines.is_empty());
    match outcome {
        ChatCommandOutcome::Continue { line, echo_user, history_line } => {
            assert!(!echo_user);
            assert!(line.contains("<skill name=\"secret\""));
            assert!(line.contains("Current user intent:\nsummarize the request"));
            assert_eq!(
                history_line.as_deref(),
                Some("/skill use secret summarize the request")
            );
        }
        ChatCommandOutcome::Handled => panic!("/skill use should continue into the next turn"),
    }
}

#[test]
fn skill_use_says_why_it_stops() {
    assert_eq!(
        run_use("x", "y", &SkillLookup::Disabled),
        (
            vec!["[skill] 技能系统已禁用，无法执行 /skill use。".to_string()],
            ChatCommandOutcome::Handled,
        )
    );
    assert_eq!(
        run_use("x", "y", &SkillLookup::Unknown { available: "".into() }).0,
        vec!["[skill] 未知 skill `x`。当前可用技能: <none>。如已修改磁盘，请先执行 /skill reload。"]
    );
    assert_eq!(
        run_use("x", "y", &SkillLookup::Unknown { available: "a, b".into() }).0,
        vec!["[skill] 未知 skill `x`。当前可用技能: a, b。如已修改磁盘，请先执行 /skill reload。"]
    );
    assert_eq!(
        run_use("x", "y", &SkillLookup::Failed { error: "io".into() }).0,
        vec!["[skill] 加载 `x` 失败: io"]
    );
}

// ---------------------------------------------------------------- /install

#[test]
fn install_commands_parse() {
    assert_eq!(
        parse_chat_command("/install ./pkg"),
        ChatCommand::Install(InstallCommand { source: "./pkg".into(), target: None })
    );
    assert_eq!(
        parse_chat_command("/install ./pkg scope"),
        ChatCommand::Install(InstallCommand {
            source: "./pkg".into(),
            target: Some(InstallTarget::CurrentProject),
        })
    );
    assert_eq!(
        usage_message("/install ./pkg nowhere"),
        "用法错误：/install <source> [current-project|agent|global]"
    );
}

fn picked(option: &str) -> AskQuestionResult {
    AskQuestionResult {
        answers: vec![Answer {
            question_id: "install-target".to_string(),
            option_ids: vec![option.to_string()],
            custom_text: None,
            skipped: false,
            picked_recommended: true,
        }],
        cancelled: false,
    }
}

#[test]
fn run_install_cancelled_has_no_side_effects() {
    let command = InstallCommand { source: "/src".into(), target: None };
    assert_eq!(first_step(&command), InstallStep::AskTarget);
    let cancelled = AskQuestionResult { answers: vec![], cancelled: true };
    assert_eq!(
        step_after_question(Some(&cancelled)),
        InstallStep::Stop { line: "[install] 已取消，未写入任何文件。".into() }
    );
    assert_eq!(
        step_after_question(None),
        InstallStep::Stop { line: "[install] 已取消，未写入任何文件。".into() }
    );
}

#[test]
fn install_goes_where_the_answer_says() {
    assert_eq!(choose_target(&picked("scope")), Some(InstallTarget::CurrentProject));
    assert_eq!(choose_target(&picked("agent")), Some(InstallTarget::Agent));
    assert_eq!(choose_target(&picked("global")), Some(InstallTarget::Global));
    assert_eq!(choose_target(&picked("elsewhere")), None);
    assert_eq!(
        step_after_question(Some(&picked("scope"))),
        InstallStep::Install {
            target: InstallTarget::CurrentProject,
            visibility: PackageVisibility::Scope,
        }
    );
    assert_eq!(
        first_step(&InstallCommand {
            source: "/src".into(),
            target: Some(InstallTarget::Global),
        }),
        InstallStep::Install {
            target: InstallTarget::Global,
            visibility: PackageVisibility::Global,
        }
    );
    let mut skipped = picked("agent");
    skipped.answers[0].skipped = true;
    skipped.answers.push(picked("global").answers[0].clone());
    assert_eq!(choose_target(&skipped), Some(InstallTarget::Global));
    let q = target_question();
    assert_eq!(q.id, "install-target");
    let ids: Vec<&str> = q.options.iter().map(|o| o.id.as_str()).collect();
    assert_eq!(ids, vec!["scope", "agent", "global"]);
    assert!(q.options[0].recommended && !q.options[1].recommended && !q.options[2].recommended);
}

#[test]
fn install_refreshes_what_the_package_brings() {
    let resources = vec![
        PackageResource { kind: PackageResourceKind::Plugin, id: "release-plugin".into() },
        PackageResource { kind: PackageResourceKind::Skill, id: "commit".into() },
    ];
    assert_eq!(refresh_needs(&resources), (vec!["release-plugin".to_string()], true));
    assert_eq!(refresh_needs(&vec![]), (vec![], false));
    let kept = retained_loaded_plugins(&vec![
        PluginActivity { plugin_id: "a".into(), loaded: false, has_session_vm: false },
        PluginActivity { plugin_id: "b".into(), loaded: true, has_session_vm: false },
        PluginActivity { plugin_id: "c".into(), loaded: false, has_session_vm: true },
    ]);
    assert_eq!(kept, vec!["b", "c"]);
    let outcome = InstallOutcome {
        name: "chat-install-package".into(),
        version: "2.0.0".into(),
        resources,
        warnings: vec!["w0".into()],
    };
    assert_eq!(
        report_lines(
            &outcome,
            InstallTarget::CurrentProject,
            true,
            &CatalogRefresh::Refreshed { warnings: vec!["w1".into()] },
            &kept,
        ),
        vec![
            "[install] 当前会话 SkillSet 已刷新。",
            "[install] 当前会话 plugin catalog/static tools 已刷新。",
            "[install] 已安装 package chat-install-package@2.0.0 -> current-project",
            "  - plugin: release-plugin",
            "  - skill: commit",
            "[install] warnings:",
            "  - w0",
            "  - w1",
            "  - 已加载 plugin 不会热更新: b, c",
        ]
    );
    let bare = InstallOutcome {
        name: "n".into(),
        version: "1".into(),
        resources: vec![],
        warnings: vec![],
    };
    assert_eq!(
        report_lines(&bare, InstallTarget::Agent, false, &CatalogRefresh::NotNeeded, &vec![]),
        vec!["[install] 已安装 package n@1 -> agent"]
    );
    assert_eq!(
        report_lines(
            &bare,
            InstallTarget::Global,
            false,
            &CatalogRefresh::Failed { error: "x".into() },
            &vec![],
        ),
        vec![
            "[install] 已安装 package n@1 -> global",
            "[install] warnings:",
            "  - 当前会话 plugin 清单刷新失败: x",
        ]
    );
    assert_eq!(failure_line(true, "e"), "[install] 安装准备失败: e");
    assert_eq!(failure_line(false, "e"), "[install] 安装失败: e");
}

// ---------------------------------------------------------------- /ckpt

fn checkpoint(kind: CheckpointKind) -> CheckpointMeta {
    CheckpointMeta {
        id: "ck_1".into(),
        session_id: "s-1".into(),
        turn_id: "turn-1".into(),
        kind,
        git_commit: Some("deadbeef".into()),
        message_anchor: None,
        created_at: "2026-05-26T00:00:00Z".into(),
        noted_paths: vec![],
    }
}

#[test]
fn checkpoints_are_listed_one_a_line() {
    assert_eq!(list_lines(&Ok(vec![])), vec!["暂无 checkpoint。"]);
    assert_eq!(list_lines(&Err("io".into())), vec!["checkpoint 列表读取失败：io"]);
    assert_eq!(
        list_lines(&Ok(vec![checkpoint(CheckpointKind::TurnEnd)])),
        vec!["ck_1  turn_end    2026-05-26T00:00:00Z  turn-1"]
    );
    assert_eq!(checkpoint_kind_label(&CheckpointKind::Interrupt), "interrupt");
}

#[test]
fn a_checkpoint_is_shown_field_by_field() {
    let manual = checkpoint(CheckpointKind::Manual { label: "mine".into() });
    let wanted = vec![
        "id: ck_1",
        "kind: manual",
        "created_at: 2026-05-26T00:00:00Z",
        "session_id: s-1",
        "turn_id: turn-1",
        "git_commit: deadbeef",
        "label: mine",
    ];
    assert_eq!(checkpoint_meta_lines(&manual), wanted);
    assert_eq!(show_lines("ck_1", &Ok(Some(manual))), wanted);
    assert_eq!(show_lines("ck_1", &Ok(None)), vec!["未找到 checkpoint: ck_1"]);
    assert_eq!(
        show_lines("ck_1", &Err("io".into())),
        vec!["checkpoint 元数据读取失败：io"]
    );
}

#[test]
fn a_blank_diff_is_told_in_words() {
    assert_eq!(
        diff_text("ck_1", &Ok(" \n".into())),
        "当前工作区与 checkpoint ck_1 无差异。\n"
    );
    assert_eq!(diff_text("ck_1", &Ok("-a\n+b\n".into())), "-a\n+b\n");
    assert_eq!(diff_text("ck_1", &Err("io".into())), "checkpoint diff 失败：io\n");
}

// ---------------------------------------------------------------- /compact

#[test]
fn compaction_covers_everything_there_is() {
    assert_eq!(covered_messages(&vec![]), None);
    assert_eq!(
        covered_messages(&vec![Some("m1".into()), None, Some("m3".into())]),
        Some(Covered {
            start_id: Some("m1".into()),
            end_id: Some("m3".into()),
            count: 3,
        })
    );
}

#[test]
fn compaction_is_told_in_a_line() {
    let done = CompactEnd::Done(CompactReport {
        before_percent: "81.2".into(),
        after_percent: "9.0".into(),
        covered_count: 42,
    });
    assert!(needs_reload(&done));
    assert_eq!(
        report_line(&done, None),
        "上下文已压缩：81.2% → 9.0%（覆盖 42 条消息）。"
    );
    assert_eq!(
        report_line(&done, Some("io")),
        "压缩结果已保存，但内存上下文重载失败：io"
    );
    let nothing = CompactEnd::Done(CompactReport {
        before_percent: "0.0".into(),
        after_percent: "0.0".into(),
        covered_count: 0,
    });
    assert!(!needs_reload(&nothing));
    assert_eq!(report_line(&nothing, None), "当前会话没有可压缩的上下文。");
    let failed = CompactEnd::Failed("no model".into());
    assert!(!needs_reload(&failed));
    assert_eq!(report_line(&failed, None), "上下文压缩失败：no model");
}
