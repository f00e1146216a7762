//! Plan modes, plan ids, the words they put into prompts, and the tools they show.

use tomcat_chat::plan_runtime::catalog::{
    filter_for_mode, resolve_internal_tools, visible_tools_for_mode, ToolEntry,
};
use tomcat_chat::plan_runtime::file_store::{PlanFile, PlanFileFrontmatter, PlanFileMode};
use tomcat_chat::plan_runtime::prompts::{render_executor_reminder, PLANNER_REMINDER};
use tomcat_chat::plan_runtime::safety::{assert_plan_id_safe, assert_plan_id_safe_for_disk};
use tomcat_chat::plan_runtime::session_prefix::{strip_user_prefix, user_prefix_for_mode};
use tomcat_chat::plan_runtime::{PlanMode, PlanRuntime, PlanRuntimeError};
use tomcat_chat::prompt::{
    agent_prompt_for_mode, agent_prompt_label, user_prompt_for_mode,
    user_prompt_for_mode_with_model, user_prompt_label,
};

#[test]
fn enter_planning_from_chat_transitions_to_planning() {
    let mut rt = PlanRuntime::new("sess-1");
    assert!(matches!(rt.mode(), PlanMode::Chat));
    rt.enter_planning().unwrap();
    assert!(matches!(rt.mode(), PlanMode::Planning));
}

#[test]
fn enter_planning_from_completed_transitions_to_planning() {
    let mut rt = PlanRuntime::new("sess-1");
    rt.set_mode_completed("done-1".into());
    rt.enter_planning().unwrap();
    assert!(matches!(rt.mode(), PlanMode::Planning));
}

#[test]
fn enter_planning_twice_is_rejected() {
    let mut rt = PlanRuntime::new("sess-1");
    rt.enter_planning().unwrap();
    let err = rt.enter_planning().unwrap_err();
    assert!(matches!(err, PlanRuntimeError::AlreadyInMode(_)));
    assert!(matches!(rt.mode(), PlanMode::Planning));
}

#[test]
fn planning_does_not_start_while_a_plan_is_under_way() {
    let mut rt = PlanRuntime::new("sess-1");
    rt.set_executing("p1".into());
    assert_eq!(
        rt.enter_planning(),
        Err(PlanRuntimeError::AlreadyInMode("executing(plan_id=p1)".into()))
    );
    rt.set_mode_pending("p2".into());
    let err = rt.enter_planning().unwrap_err();
    assert_eq!(err.message(), "当前已经在 pending(plan_id=p2) 模式，无法重复进入");
    assert_eq!(rt.mode(), PlanMode::Pending { plan_id: "p2".into() });
}

#[test]
fn exit_to_chat_from_planning_resets() {
    let mut rt = PlanRuntime::new("sess-1");
    rt.enter_planning().unwrap();
    rt.exit_to_chat().unwrap();
    assert!(matches!(rt.mode(), PlanMode::Chat));
}

#[test]
fn exit_to_chat_when_already_chat_errors() {
    let mut rt = PlanRuntime::new("sess-1");
    let err = rt.exit_to_chat().unwrap_err();
    assert!(matches!(err, PlanRuntimeError::AlreadyInMode(_)));
}

#[test]
fn recover_in_initial_chat_is_noop() {
    let mut rt = PlanRuntime::new("sess-1");
    assert_eq!(rt.recover(vec![]), Ok(vec![]));
    assert!(matches!(rt.mode(), PlanMode::Chat));
}

fn plan_of(plan_id: &str, mode: PlanFileMode, session: Option<&str>) -> PlanFile {
    PlanFile {
        frontmatter: PlanFileFrontmatter {
            plan_id: plan_id.into(),
            goal: "g".into(),
            mode,
            session_key: session.map(|s| s.to_string()),
            session_id: None,
            created_at: "now".into(),
            schema_version: 1,
            milestones: vec![],
            todos: vec![],
        },
        body: "b".into(),
    }
}

#[test]
fn e8_recover_demotes_orphan_executing_plan_to_pending() {
    let orphan = plan_of("orphan-plan", PlanFileMode::Executing, Some("session-other"));
    let mut rt = PlanRuntime::new("session-a");
    let demoted = rt.recover(vec![orphan.clone()]).unwrap();
    assert_eq!(demoted.len(), 1);
    assert_eq!(demoted[0].frontmatter.mode, PlanFileMode::Pending);
    let mut same = demoted[0].clone();
    same.frontmatter.mode = PlanFileMode::Executing;
    assert_eq!(same, orphan);
    assert!(matches!(rt.mode(), PlanMode::Chat));
}

#[test]
fn e8_recover_restores_executing_for_current_session() {
    let plan_id = "owned-plan";
    let mut rt = PlanRuntime::new("session-a");
    let demoted =
        rt.recover(vec![plan_of(plan_id, PlanFileMode::Executing, Some("session-a"))]).unwrap();
    assert!(demoted.is_empty());
    match rt.mode() {
        PlanMode::Executing { plan_id: ref pid } => assert_eq!(pid, plan_id),
        other => panic!("expected Executing, got {other:?}"),
    }
}

#[test]
fn only_plans_under_way_elsewhere_are_left_waiting() {
    let mut rt = PlanRuntime::new("session-a");
    let demoted = rt
        .recover(vec![
            plan_of("drafted", PlanFileMode::Planning, None),
            plan_of("nobody", PlanFileMode::Executing, None),
            plan_of("mine", PlanFileMode::Executing, Some("session-a")),
            plan_of("mine-too", PlanFileMode::Executing, Some("session-a")),
            plan_of("theirs", PlanFileMode::Executing, Some("session-b")),
            plan_of("done", PlanFileMode::Completed, Some("session-b")),
        ])
        .unwrap();
    let ids: Vec<&str> = demoted.iter().map(|p| p.frontmatter.plan_id.as_str()).collect();
    assert_eq!(ids, vec!["nobody", "theirs"]);
    assert!(demoted.iter().all(|p| p.frontmatter.mode == PlanFileMode::Pending));
    assert_eq!(rt.mode(), PlanMode::Executing { plan_id: "mine".into() });
}

#[test]
fn cancel_outside_exec_is_noop() {
    let mut rt = PlanRuntime::new("session-a");
    assert!(rt.demote_to_pending_on_cancel().is_none());

    rt.enter_planning().unwrap();
    assert!(rt.demote_to_pending_on_cancel().is_none());
    assert!(matches!(rt.mode(), PlanMode::Planning));
}

#[test]
fn a_broken_off_plan_waits_and_a_finished_one_gives_way() {
    let mut rt = PlanRuntime::new("session-a");
    rt.set_executing("cancellable".into());
    assert_eq!(rt.demote_to_pending_on_cancel().as_deref(), Some("cancellable"));
    assert_eq!(rt.mode(), PlanMode::Pending { plan_id: "cancellable".into() });
    assert!(rt.finalize_completed_to_chat().is_none());
    rt.set_mode_completed("done_path".into());
    assert_eq!(rt.finalize_completed_to_chat().as_deref(), Some("done_path"));
    assert_eq!(rt.mode(), PlanMode::Chat);
    assert!(rt.finalize_completed_to_chat().is_none());
}

#[test]
fn errors_of_the_runtime_have_words() {
    assert_eq!(PlanRuntimeError::EmptyObjective.message(), "/plan 需要非空 objective");
    assert_eq!(
        PlanRuntimeError::UnsafePlanId("x".into()).message(),
        "plan_id 非法或不安全：x"
    );
    assert_eq!(PlanRuntimeError::Io("x".into()).message(), "plan io: x");
}

#[test]
fn safety_assert_plan_id_safe_accepts_normal_id() {
    assert_plan_id_safe("ship-plan-mode_001").unwrap();
}

#[test]
fn safety_assert_plan_id_safe_rejects_traversal_paths() {
    let bad = [
        "",
        "..",
        "../etc",
        "a/b",
        "a\\b",
        "a b",
        "A",         // uppercase forbidden
        "ship!",     // non-allowed punct
        "ship\nbad", // control char
    ];
    for id in bad {
        let r = assert_plan_id_safe(id);
        assert!(
            r.is_err(),
            "should reject unsafe plan_id {id:?}, got: {r:?}"
        );
    }
}

#[test]
fn unsafe_ids_are_told_apart() {
    let why = |id: &str| match assert_plan_id_safe_for_disk(id) {
        Err(PlanRuntimeError::UnsafePlanId(m)) => m,
        other => panic!("unexpected {other:?}"),
    };
    assert_eq!(why(""), "empty");
    for id in ["a\nb", "a\\b", "a/b", "a b", "a\u{3000}b", "a\u{85}b", "x..y", "计 划", "é/"] {
        assert_eq!(why(id), "forbidden char(s)", "{id:?}");
    }
    assert_eq!(why("计划"), "non-ascii");
    assert_eq!(why("Shipé"), "non-ascii");
    assert_eq!(why("Ship\"it"), "non-[a-z0-9_-] chars in \"Ship\\\"it\"");
    assert!(assert_plan_id_safe_for_disk("ok_1-2").is_ok());
}

#[test]
fn prompts_render_executor_reminder_substitutes_plan_id() {
    let s = render_executor_reminder("ship-001");
    assert!(s.contains("ship-001"));
    assert!(!s.contains("{plan_id}"));
}

#[test]
fn session_prefix_for_chat_is_empty() {
    assert!(user_prefix_for_mode(&PlanMode::Chat, None).is_empty());
}

#[test]
fn session_prefix_for_planning_carries_plan_path_when_present() {
    let p = user_prefix_for_mode(&PlanMode::Planning, Some("/tmp/active.plan.md"));
    assert!(p.starts_with("[mode: PLAN "));
    assert!(p.contains("plan_path=/tmp/active.plan.md"));
}

#[test]
fn session_prefix_for_executing_carries_plan_id() {
    let p = user_prefix_for_mode(
        &PlanMode::Executing { plan_id: "ship-001".into() },
        Some("/tmp/exec.plan.md"),
    );
    assert!(p.contains("[mode: EXEC plan_id=ship-001"));
    assert!(p.contains("plan_path=/tmp/exec.plan.md"));
}

#[test]
fn session_prefix_for_pending_is_empty() {
    let p = user_prefix_for_mode(&PlanMode::Pending { plan_id: "ship-001".into() }, None);
    assert!(p.is_empty(), "pending must NOT prefix LLM input");
}

#[test]
fn prefixes_are_stripped_again() {
    for mode in [
        PlanMode::Chat,
        PlanMode::Planning,
        PlanMode::Executing { plan_id: "p-1".into() },
        PlanMode::Completed { plan_id: "p-1".into() },
    ] {
        for path in [None, Some("~/.tomcat/plans/p-1.plan.md")] {
            let prefix = user_prefix_for_mode(&mode, path);
            let text = format!("{prefix}do it\n[mode: x]\n");
            assert_eq!(strip_user_prefix(&text), "do it\n[mode: x]\n");
        }
    }
    assert_eq!(user_prefix_for_mode(&PlanMode::Planning, None), "[mode: PLAN]\n");
    assert_eq!(
        user_prefix_for_mode(&PlanMode::Executing { plan_id: "p-1".into() }, None),
        "[mode: EXEC plan_id=p-1]\n"
    );
}

#[test]
fn strip_user_prefix_removes_plan_label_when_present() {
    let s = strip_user_prefix("[mode: PLAN]\nhello world");
    assert_eq!(s, "hello world");
}

#[test]
fn strip_user_prefix_removes_exec_label_with_plan_id() {
    let s = strip_user_prefix("[mode: EXEC plan_id=ship-001]\nstart please");
    assert_eq!(s, "start please");
}

#[test]
fn strip_user_prefix_passthrough_when_no_label() {
    let s = strip_user_prefix("normal user text\nwith linebreak");
    assert_eq!(s, "normal user text\nwith linebreak");
}

#[test]
fn strip_user_prefix_passthrough_when_lookalike_does_not_close() {
    let s = strip_user_prefix("[mode: malformed\nrest of text");
    assert_eq!(s, "[mode: malformed\nrest of text");
}

#[test]
fn plan_enter_injects_planner_reminder_into_system() {
    let reminder: &str = PLANNER_REMINDER;
    assert!(
        reminder.contains("<system_reminder") && reminder.contains("</system_reminder>"),
        "PLANNER_REMINDER 必须使用 <system_reminder ...> ... </system_reminder> 包裹，实际：\n{reminder}"
    );
    assert!(
        reminder.to_lowercase().contains("plan"),
        "PLANNER_REMINDER 必须显式提示当前在 PLAN/规划 模式，实际：\n{reminder}"
    );

    let composed = format!("BASE_SYSTEM_PROMPT\n{reminder}");
    assert!(composed.starts_with("BASE_SYSTEM_PROMPT"));
    assert!(composed.contains("<system_reminder"));
}

#[test]
fn executor_reminder_format_uses_system_reminder_tags() {
    let plan_id = "demo-plan-1";
    let s = render_executor_reminder(plan_id);
    assert!(
        s.contains("<system_reminder") && s.contains("</system_reminder>"),
        "EXECUTOR reminder 必须使用 <system_reminder ...> ... </system_reminder> 包裹，实际：\n{s}"
    );
    assert!(s.contains(plan_id), "EXECUTOR reminder 必须包含 plan_id");
    assert_eq!(s.matches(plan_id).count(), 2);
}

#[test]
fn mode_active_plan_id_returns_some_only_for_attached_states() {
    assert_eq!(PlanMode::Chat.active_plan_id(), None);
    assert_eq!(PlanMode::Planning.active_plan_id(), None);
    assert_eq!(PlanMode::Executing { plan_id: "x".into() }.active_plan_id(), Some("x"));
    assert_eq!(PlanMode::Pending { plan_id: "x".into() }.active_plan_id(), Some("x"));
    assert_eq!(PlanMode::Completed { plan_id: "x".into() }.active_plan_id(), Some("x"));
}

#[test]
fn prompts_name_the_mode_and_the_model() {
    let run = PlanMode::Executing { plan_id: "x".into() };
    let done = PlanMode::Completed { plan_id: "x".into() };
    assert_eq!(user_prompt_for_mode(&PlanMode::Chat), "u[Chat]> ");
    assert_eq!(user_prompt_for_mode(&run), "u[Plan:executing]> ");
    assert_eq!(user_prompt_for_mode_with_model(&PlanMode::Planning, " gpt "), "u[Plan:planning|gpt]> ");
    assert_eq!(user_prompt_for_mode_with_model(&done, " "), "u[Chat]> ");
    assert_eq!(user_prompt_label(&PlanMode::Pending { plan_id: "x".into() }), "Plan:pending");
    assert_eq!(agent_prompt_label(&done), None);
    assert_eq!(agent_prompt_for_mode("main", &done), "agent.main> ");
    assert_eq!(agent_prompt_for_mode("main", &run), "agent.main[Plan:executing]> ");
}

// ---------------------------------------------------------------- tools

const HIDDEN_IN_PLANNING: [&str; 4] = ["write", "edit", "hashline_edit", "bash"];
const HIDDEN_IN_EXECUTING: [&str; 2] = ["create_plan", "ask_question"];

fn catalog() -> Vec<ToolEntry> {
    let plain = [
        "read", "write", "edit", "hashline_edit", "bash", "search_files", "list_dir",
        "dispatch_agent", "checkpoint",
    ];
    let planning = ["create_plan", "update_plan", "todos", "ask_question"];
    let mut out: Vec<ToolEntry> = plain
        .iter()
        .map(|n| ToolEntry { name: n.to_string(), plan_only: false })
        .collect();
    out.extend(planning.iter().map(|n| ToolEntry { name: n.to_string(), plan_only: true }));
    out
}

fn names(places: &[usize]) -> Vec<String> {
    let tools = catalog();
    places.iter().map(|&i| tools[i].name.clone()).collect()
}

fn has(list: &[String], name: &str) -> bool {
    list.iter().any(|n| n == name)
}

#[test]
fn chat_mode_excludes_all_plan_only_tools() {
    let n = names(&visible_tools_for_mode(&catalog(), &PlanMode::Chat));
    for plan_tool in ["create_plan", "update_plan", "todos", "ask_question"] {
        assert!(!has(&n, plan_tool), "CHAT mode must not expose {plan_tool}");
    }
    assert_eq!(n.len(), 9);
}

#[test]
fn planning_mode_includes_plan_tools_and_excludes_writers() {
    let n = names(&visible_tools_for_mode(&catalog(), &PlanMode::Planning));
    for plan_tool in ["create_plan", "update_plan", "todos", "ask_question"] {
        assert!(has(&n, plan_tool), "PLANNING must expose {plan_tool}, got: {n:?}");
    }
    for hidden in HIDDEN_IN_PLANNING {
        assert!(!has(&n, hidden), "PLANNING must hide writer tool {hidden}, got: {n:?}");
    }
}

#[test]
fn executing_mode_keeps_writers_and_excludes_create_plan_ask_question() {
    let n = names(&visible_tools_for_mode(
        &catalog(),
        &PlanMode::Executing { plan_id: "demo".into() },
    ));
    assert!(has(&n, "update_plan"), "EXEC must keep update_plan");
    assert!(has(&n, "todos"), "EXEC must keep todos");
    for hidden in HIDDEN_IN_EXECUTING {
        assert!(!has(&n, hidden), "EXEC must hide {hidden}, got: {n:?}");
    }
    assert!(has(&n, "write"), "EXEC must keep write");
    assert!(has(&n, "bash"), "EXEC must keep bash");
}

#[test]
fn pending_mode_view_equals_chat_view() {
    let pending =
        visible_tools_for_mode(&catalog(), &PlanMode::Pending { plan_id: "demo".into() });
    let chat = visible_tools_for_mode(&catalog(), &PlanMode::Chat);
    assert_eq!(names(&pending), names(&chat));
}

#[test]
fn completed_mode_view_equals_chat_view() {
    let done =
        visible_tools_for_mode(&catalog(), &PlanMode::Completed { plan_id: "demo".into() });
    let chat = visible_tools_for_mode(&catalog(), &PlanMode::Chat);
    assert_eq!(names(&done), names(&chat));
}

#[test]
fn a_drafting_tool_that_is_not_for_plans_stays_while_executing() {
    let run = PlanMode::Executing { plan_id: "demo".into() };
    assert!(!filter_for_mode("create_plan", true, &run));
    assert!(filter_for_mode("create_plan", false, &run));
}

#[test]
fn resolve_internal_tools_filters_to_allowed() {
    let allowed: Vec<String> =
        ["read", "search_files", "list_dir", "todos", "update_plan", "edit"]
            .iter()
            .map(|s| s.to_string())
            .collect();
    let n = names(&resolve_internal_tools(&catalog(), &allowed));
    assert!(has(&n, "read"));
    assert!(has(&n, "search_files"));
    assert!(has(&n, "update_plan"));
    assert!(has(&n, "edit"));
    assert!(!has(&n, "create_plan"));
    assert!(!has(&n, "bash"));
    assert!(!has(&n, "write"));
    assert!(!has(&n, "dispatch_agent"));
}

#[test]
fn reviewer_default_allowed_tools_no_create_plan() {
    let allowed = tomcat_chat::plan_runtime::prod_reviewer::reviewer_allowed_tools();
    let n = names(&resolve_internal_tools(&catalog(), &allowed));
    assert!(!has(&n, "create_plan"));
    assert!(!has(&n, "bash"));
    assert!(!has(&n, "write"));
    assert!(!has(&n, "dispatch_agent"));
    assert!(!has(&n, "checkpoint"));
    assert!(has(&n, "update_plan"));
    assert!(has(&n, "edit"));
    assert!(has(&n, "read"));
}

#[test]
fn verifier_allowed_tools_do_not_include_write_paths() {
    let allowed = tomcat_chat::plan_runtime::verify::verifier_allowed_tools();
    let n = names(&resolve_internal_tools(&catalog(), &allowed));
    assert!(has(&n, "read"));
    assert!(has(&n, "search_files"));
    assert!(has(&n, "list_dir"));
    assert!(has(&n, "bash"));
    assert!(!has(&n, "create_plan"));
    assert!(!has(&n, "update_plan"));
    assert!(!has(&n, "write"));
    assert!(!has(&n, "edit"));
}
