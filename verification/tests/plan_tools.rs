//! The tools by which the model drafts and changes plans and todos.

use tomcat_chat::plan_runtime::file_store::{
    Milestone, PlanError, PlanFile, PlanFileFrontmatter, PlanFileMode, TodoItem, TodoStatus,
};
use tomcat_chat::plan_runtime::ops::OpError;
use tomcat_chat::plan_runtime::review::ReviewSummary;
use tomcat_chat::plan_runtime::safety::assert_plan_id_safe;
use tomcat_chat::plan_runtime::tools::create_plan::{
    default_body, default_pending, derive_plan_id, prepare, reviewed, written, CreatePlanArgs,
    MilestoneArg, TodoArg,
};
use tomcat_chat::plan_runtime::tools::todos::{
    self, session_path, to_ops, TodoOpArg, TodosArgs,
};
use tomcat_chat::plan_runtime::tools::update_plan::{
    apply_milestone_ops, execute, resolve_target_plan_id, MilestoneOp, UpdateOp, UpdatePlanArgs,
};
use tomcat_chat::plan_runtime::tools::{update_plan, ToolError};
use tomcat_chat::plan_runtime::{PlanMode, PlanRuntime};

fn todo_arg(id: &str, content: &str) -> TodoArg {
    TodoArg {
        id: id.into(),
        content: content.into(),
        status: TodoStatus::Pending,
        milestone_id: None,
    }
}

fn plan_args(goal: &str, body: Option<&str>, todos: Vec<TodoArg>) -> CreatePlanArgs {
    CreatePlanArgs {
        plan_id: Some("demo".into()),
        goal: goal.into(),
        body: body.map(|b| b.to_string()),
        milestones: vec![],
        todos,
    }
}

fn in_planning(session: &str) -> PlanRuntime {
    let mut rt = PlanRuntime::new(session);
    rt.enter_planning().unwrap();
    rt
}

// ---------------------------------------------------------------- create_plan

#[test]
fn create_plan_invisible_outside_planning_returns_error() {
    let rt = PlanRuntime::new("session-a");
    let args = plan_args("g", Some("d"), vec![todo_arg("t1", "x")]);
    let err = prepare(&rt, args, "/home/u", "now", "critic").expect_err("CHAT 模式应被拒");
    match err {
        ToolError::InvisibleInMode { tool, mode } => {
            assert_eq!(tool, "create_plan");
            assert_eq!(mode, "chat");
        }
        other => panic!("expected InvisibleInMode, got {other:?}"),
    }
}

#[test]
fn create_plan_rejects_empty_goal() {
    let rt = in_planning("session-a");
    let args = plan_args("", Some("d"), vec![todo_arg("t1", "x")]);
    let err = prepare(&rt, args, "/home/u", "now", "critic").expect_err("空 goal 应被拒");
    assert!(matches!(err, ToolError::BadArgs(_)));
}

#[test]
fn create_plan_rejects_empty_draft_or_todos() {
    let rt = in_planning("session-a");
    let args = plan_args("g", Some("   "), vec![todo_arg("t1", "x")]);
    let err = prepare(&rt, args, "/home/u", "now", "critic").expect_err("空 draft 应被拒");
    assert!(matches!(err, ToolError::BadArgs(_)));
    let args = plan_args("g", Some("d"), vec![]);
    let err = prepare(&rt, args, "/home/u", "now", "critic").expect_err("空 todos 应被拒");
    assert!(matches!(err, ToolError::BadArgs(_)));
}

#[test]
fn create_plan_derived_id_passes_safety_check() {
    let id = derive_plan_id("@#$%^");
    assert_plan_id_safe(&id).unwrap();
    let id = derive_plan_id("");
    assert_plan_id_safe(&id).unwrap();
}

#[test]
fn derived_ids_keep_what_an_id_may_hold() {
    assert_eq!(derive_plan_id("Ship v2, 现在"), "plan_ship-v2----");
    assert!(derive_plan_id("x").starts_with("plan_"));
}

#[test]
fn a_draft_is_written_as_asked() {
    let mut rt = in_planning("session-a");
    let mut args = plan_args("ship it", None, vec![todo_arg("t1", "first")]);
    args.milestones.push(MilestoneArg {
        id: "m1".into(),
        title: "M".into(),
        todo_ids: vec!["t1".into()],
    });
    args.todos[0].milestone_id = Some("m1".into());
    let planned = prepare(&rt, args, "/home/u", "2026-01-01T00:00:00Z", "critic").expect("planned");
    assert_eq!(planned.path, "/home/u/.tomcat/plans/demo.plan.md");
    let fm = &planned.plan.frontmatter;
    assert_eq!(fm.mode, PlanFileMode::Planning);
    assert_eq!(fm.created_at, "2026-01-01T00:00:00Z");
    assert_eq!((fm.session_key.clone(), fm.session_id.clone()), (None, None));
    assert_eq!(fm.milestones[0].todo_ids, vec!["t1"]);
    assert_eq!(fm.todos[0].milestone_id.as_deref(), Some("m1"));
    assert_eq!(planned.plan.body, default_body("ship it", None, "critic"));
    assert_eq!(
        planned.plan.body,
        "## Goal\n\nship it\n\n## Plan\n\n（待 critic 子 Agent 填入草案要点）\n\n## Todos Board\n\n\
         （由 update_plan / todos 自动维护）\n"
    );

    let out = written(&mut rt, &planned, "critic");
    assert_eq!(out.mode, "planning");
    assert!(out.review.aborted);
    assert!(out.review.summary.contains("P4 接入"));
    assert!(out.review.summary.contains("critic"));
    assert_eq!(rt.active_planning_plan_id.as_deref(), Some("demo"));
    assert_eq!(default_pending(), TodoStatus::Pending);
}

fn unnamed(goal: &str, draft: &str) -> CreatePlanArgs {
    let mut args = plan_args(goal, Some(draft), vec![todo_arg("t1", "first")]);
    args.plan_id = None;
    args
}

#[test]
fn create_plan_in_planning_writes_disk_and_records_active_id() {
    let mut rt = in_planning("session-a");
    let args = unnamed("为 chat 补齐 plan 闭环", "step 1; step 2; step 3");
    let planned = prepare(&rt, args, "/home/u", "now", "critic").expect("create_plan OK");
    let out = written(&mut rt, &planned, "critic");
    let plan_id = out.plan_id.clone();
    assert!(plan_id.starts_with("plan_"), "派生 plan_id 应以 plan_ 开头: {plan_id}");
    assert_eq!(out.mode, "planning");
    assert!(out.review.aborted);
    assert_eq!(rt.active_planning_plan_id.as_deref(), Some(plan_id.as_str()));
    assert_eq!(planned.path, format!("/home/u/.tomcat/plans/{plan_id}.plan.md"));
    let plan_text = &planned.plan.body;
    assert!(plan_text.contains("## Goal"), "新 plan 应包含 ## Goal 段");
    assert!(plan_text.contains("## Plan"), "新 plan 应包含 ## Plan 段");
    assert!(!plan_text.contains("## Draft"), "新 plan 不应再带 ## Draft 段");
    assert!(!plan_text.contains("## Notes"), "新 plan 不应再带 ## Notes 段");
    assert!(!plan_text.contains("## Review"), "新 plan 不应再带 ## Review 段");
    assert!(plan_text.contains("step 1; step 2; step 3"));
}

#[test]
fn create_plan_normalizes_legacy_heading_wrapped_draft() {
    let rt = in_planning("session-a");
    let args = unnamed(
        "Draft a minimal internal plan with two clear next steps.",
        "## Goal\n\nDraft a minimal internal plan.\n\n## Notes\n\nKeep scope small and actionable.\n",
    );
    let planned = prepare(&rt, args, "/home/u", "now", "critic").expect("create_plan OK");
    let plan_text = &planned.plan.body;
    assert_eq!(
        plan_text.matches("## Goal").count(),
        1,
        "plan 正文里不应重复写出第二个 ## Goal"
    );
    assert_eq!(
        plan_text.matches("## Plan").count(),
        1,
        "plan 正文里应只保留一个 ## Plan"
    );
    assert!(
        !plan_text.contains("## Draft") && !plan_text.contains("## Notes"),
        "旧式 Draft/Notes heading 应在写盘前被规范化"
    );
    assert!(
        plan_text.contains("Keep scope small and actionable."),
        "旧式 Notes 内容应并入 ## Plan，而不是整段丢失"
    );
}

#[test]
fn every_old_heading_of_a_draft_is_dropped() {
    assert_eq!(
        default_body("g", Some("## Review\n a \n  ## Draft \n## Other\n## Plan\n"), "critic"),
        "## Goal\n\ng\n\n## Plan\n\na \n## Other\n\n## Todos Board\n\n\
         （由 update_plan / todos 自动维护）\n"
    );
}

#[test]
fn drafts_are_refused_with_the_first_fault() {
    let rt = in_planning("session-a");
    let mut args = plan_args("g", Some("d"), vec![todo_arg("t1", "x")]);
    args.plan_id = Some("Bad id".into());
    assert_eq!(
        prepare(&rt, args, "/home/u", "now", "critic"),
        Err(ToolError::BadArgs(
            "plan_id 非法: plan_id 非法或不安全：forbidden char(s)".into()
        ))
    );
    let twice = plan_args("g", Some("d"), vec![todo_arg("t1", "x"), todo_arg("t1", "y")]);
    assert_eq!(
        prepare(&rt, twice, "/home/u", "now", "critic"),
        Err(ToolError::Op(OpError::DuplicateId("t1".into())))
    );
    let mut busy = plan_args("g", Some("d"), vec![todo_arg("t1", "x"), todo_arg("t2", "y")]);
    busy.todos[0].status = TodoStatus::InProgress;
    busy.todos[1].status = TodoStatus::InProgress;
    assert_eq!(
        prepare(&rt, busy, "/home/u", "now", "critic"),
        Err(ToolError::Op(OpError::MultipleInProgress(2)))
    );
}

#[test]
fn the_review_is_in_the_answer_whatever_it_says() {
    let mut rt = in_planning("session-a");
    let planned = prepare(
        &rt,
        plan_args("g", Some("draft body content"), vec![todo_arg("t1", "step")]),
        "/home/u",
        "now",
        "critic",
    )
    .unwrap();
    let out = written(&mut rt, &planned, "critic");
    let (out, reload) =
        reviewed(out, ReviewSummary::aborted_with("simulated parse error".into()));
    assert!(out.review.aborted);
    assert!(out.review.summary.contains("parse error"));
    assert!(!reload);
    let mut ok = ReviewSummary::aborted_with("looks ok".into());
    ok.aborted = false;
    ok.applied_changes = true;
    let (out, reload) = reviewed(out, ok);
    assert_eq!(out.plan_id, "demo");
    assert_eq!(out.review.summary, "looks ok");
    assert!(reload);
}

// ---------------------------------------------------------------- update_plan

fn todo(id: &str, content: &str) -> TodoItem {
    TodoItem {
        id: id.into(),
        content: content.into(),
        status: TodoStatus::Pending,
        milestone_id: None,
    }
}

fn plan(mode: PlanFileMode, session: Option<&str>) -> PlanFile {
    PlanFile {
        frontmatter: PlanFileFrontmatter {
            plan_id: "demo".into(),
            goal: "g".into(),
            mode,
            session_key: session.map(|s| s.to_string()),
            session_id: None,
            created_at: "now".into(),
            schema_version: 1,
            milestones: vec![],
            todos: vec![todo("t1", "step 1"), todo("t2", "step 2")],
        },
        body: "fresh draft body".into(),
    }
}

fn set_status(id: &str, status: TodoStatus) -> UpdateOp {
    UpdateOp::SetStatus { id: id.into(), status }
}

fn update(ops: Vec<UpdateOp>) -> UpdatePlanArgs {
    UpdatePlanArgs { plan_id: Some("demo".into()), ops, milestones_ops: vec![] }
}

#[test]
fn update_plan_set_status_returns_full_items_snapshot() {
    let mut rt = PlanRuntime::new("session-a");
    rt.set_executing("demo".into());
    let (after, out) = execute(
        &rt,
        "demo",
        plan(PlanFileMode::Executing, Some("session-a")),
        &update(vec![set_status("t1", TodoStatus::InProgress)]),
    )
    .unwrap();
    assert_eq!(out.plan_id, "demo");
    assert_eq!(out.items.len(), 2);
    assert_eq!(out.items[0].status.as_str(), "in_progress");
    assert_eq!(out.items[1].status.as_str(), "pending");
    assert_eq!(out.active_in_progress.as_deref(), Some("t1"));
    assert_eq!(out.items, after.frontmatter.todos);
    assert_eq!(out.applied, 2);
}

#[test]
fn update_plan_reuses_todos_op_engine_single_in_progress_violation() {
    let mut rt = PlanRuntime::new("session-a");
    rt.set_executing("demo".into());
    let err = execute(
        &rt,
        "demo",
        plan(PlanFileMode::Executing, Some("session-a")),
        &update(vec![
            set_status("t1", TodoStatus::InProgress),
            set_status("t2", TodoStatus::InProgress),
        ]),
    )
    .expect_err("两个 in_progress 应被 ops 引擎拒");
    assert!(matches!(err, ToolError::Op(_)));
}

#[test]
fn update_plan_cross_session_allowed_for_planning_pending() {
    let rt_b = in_planning("session-b");
    let (_, out) = execute(
        &rt_b,
        "demo",
        plan(PlanFileMode::Planning, None),
        &update(vec![UpdateOp::SetContent { id: "t1".into(), content: "edited by b".into() }]),
    )
    .unwrap();
    assert_eq!(out.items[0].content, "edited by b");
    assert!(execute(
        &rt_b,
        "demo",
        plan(PlanFileMode::Pending, Some("session-a")),
        &update(vec![]),
    )
    .is_ok());
}

#[test]
fn update_plan_cross_session_rejected_for_executing() {
    let rt_b = PlanRuntime::new("session-b");
    let err = execute(
        &rt_b,
        "demo",
        plan(PlanFileMode::Executing, Some("session-a")),
        &update(vec![UpdateOp::SetContent { id: "t1".into(), content: "intruder".into() }]),
    )
    .expect_err("session-b 不应能写入 session-a 的 executing plan");
    assert_eq!(
        err,
        ToolError::CrossSessionDenied(
            "plan demo 当前由 session session-a 在 EXEC，本 session session-b 不能写入".into()
        )
    );
}

#[test]
fn update_plan_in_exec_promotes_completed() {
    let mut rt = PlanRuntime::new("session-a");
    rt.set_executing("demo".into());
    let (after, out) = execute(
        &rt,
        "demo",
        plan(PlanFileMode::Executing, Some("session-a")),
        &update(vec![
            set_status("t1", TodoStatus::Completed),
            set_status("t2", TodoStatus::Completed),
        ]),
    )
    .unwrap();
    assert_eq!(out.plan_mode_before, "executing");
    assert_eq!(out.plan_mode_after, "completed");
    update_plan::written(&mut rt, "demo", PlanFileMode::Executing, &after);
    match rt.mode() {
        PlanMode::Completed { plan_id: cur } => assert_eq!(cur, "demo"),
        other => panic!("expected Completed, got {other:?}"),
    }
}

#[test]
fn a_plan_that_is_not_worked_on_does_not_get_done() {
    let mut rt = in_planning("session-a");
    let (after, out) = execute(
        &rt,
        "demo",
        plan(PlanFileMode::Planning, None),
        &update(vec![
            set_status("t1", TodoStatus::Completed),
            set_status("t2", TodoStatus::Completed),
        ]),
    )
    .unwrap();
    assert_eq!(out.plan_mode_after, "planning");
    update_plan::written(&mut rt, "demo", PlanFileMode::Planning, &after);
    assert_eq!(rt.mode(), PlanMode::Planning);
}

#[test]
fn the_plan_to_change_is_the_named_one_or_the_active_one() {
    let mut rt = PlanRuntime::new("s");
    assert_eq!(
        resolve_target_plan_id(&rt, None),
        Err(ToolError::BadArgs("update_plan 需要 plan_id；当前模式无 active plan".into()))
    );
    rt.set_active_planning_plan_id("drafted".into());
    assert_eq!(resolve_target_plan_id(&rt, None), Ok("drafted".to_string()));
    rt.set_mode_pending("waiting".into());
    assert_eq!(resolve_target_plan_id(&rt, None), Ok("waiting".to_string()));
    rt.set_mode_completed("done".into());
    assert_eq!(resolve_target_plan_id(&rt, None), Ok("drafted".to_string()));
    assert_eq!(resolve_target_plan_id(&rt, Some("named".into())), Ok("named".to_string()));
}

fn stone(id: &str, title: &str) -> Milestone {
    Milestone { id: id.into(), title: title.into(), todo_ids: vec![] }
}

#[test]
fn milestones_are_changed_by_id() {
    let mut list = vec![stone("m1", "one")];
    let ops = vec![
        MilestoneOp::Add { id: "m2".into(), title: "two".into(), todo_ids: vec!["t1".into()] },
        MilestoneOp::SetTitle { id: "m1".into(), title: "uno".into() },
        MilestoneOp::SetTodoIds { id: "m1".into(), todo_ids: vec!["t2".into()] },
        MilestoneOp::Remove { id: "m2".into() },
    ];
    assert_eq!(apply_milestone_ops(&mut list, &ops), Ok(()));
    assert_eq!(
        list,
        vec![Milestone { id: "m1".into(), title: "uno".into(), todo_ids: vec!["t2".into()] }]
    );
    let bad = |op: MilestoneOp| apply_milestone_ops(&mut vec![stone("m1", "one")], &vec![op]);
    assert_eq!(
        bad(MilestoneOp::Add { id: "m1".into(), title: "x".into(), todo_ids: vec![] }),
        Err(ToolError::BadArgs("milestone id 重复: m1".into()))
    );
    for op in [
        MilestoneOp::SetTitle { id: "z".into(), title: "x".into() },
        MilestoneOp::SetTodoIds { id: "z".into(), todo_ids: vec![] },
        MilestoneOp::Remove { id: "z".into() },
    ] {
        assert_eq!(bad(op), Err(ToolError::BadArgs("milestone 不存在: z".into())));
    }
}

// ---------------------------------------------------------------- todos

fn add(id: &str, content: &str, status: TodoStatus) -> TodoOpArg {
    TodoOpArg::AddTodo { id: id.into(), content: content.into(), status, milestone_id: None }
}

#[test]
fn todos_in_chat_writes_session_scratchpad_returns_full_snapshot() {
    let mut rt = PlanRuntime::new("session-a");
    let args = TodosArgs {
        ops: vec![
            add("x1", "scratchpad 1", TodoStatus::Pending),
            add("x2", "scratchpad 2", TodoStatus::Pending),
            TodoOpArg::SetStatus { id: "x1".into(), status: TodoStatus::InProgress },
        ],
    };
    let out = todos::execute(&mut rt, &args).unwrap();
    assert_eq!(out.scope, "session");
    assert_eq!(out.mode, "chat");
    assert_eq!(out.applied, 3);
    assert_eq!(out.active_in_progress.as_deref(), Some("x1"));
    assert_eq!(out.items.len(), 2);
    assert_eq!(rt.session_todos.len(), 2);
}

#[test]
fn todos_state_enforces_single_in_progress() {
    let mut rt = PlanRuntime::new("session-a");
    let ops = to_ops(&TodosArgs {
        ops: vec![add("x1", "1", TodoStatus::InProgress), add("x2", "2", TodoStatus::Pending)],
    });
    session_path(&mut rt, &ops).unwrap();
    let before = rt.session_todos.clone();
    let more = to_ops(&TodosArgs {
        ops: vec![TodoOpArg::SetStatus { id: "x2".into(), status: TodoStatus::InProgress }],
    });
    let err = session_path(&mut rt, &more).expect_err("第二个 in_progress 应被 ops 引擎拒");
    assert!(matches!(err, ToolError::Op(_)));
    assert_eq!(rt.session_todos, before);
}

#[test]
fn todos_in_exec_writes_session_not_plan_file() {
    let mut rt = PlanRuntime::new("session-a");
    let plan_file = plan(PlanFileMode::Executing, Some("session-a"));
    rt.set_executing("demo".into());
    todos::execute(
        &mut rt,
        &TodosArgs { ops: vec![add("sub-1", "debug step", TodoStatus::Pending)] },
    )
    .unwrap();
    let out = todos::execute(
        &mut rt,
        &TodosArgs {
            ops: vec![TodoOpArg::SetStatus {
                id: "sub-1".into(),
                status: TodoStatus::InProgress,
            }],
        },
    )
    .unwrap();
    assert_eq!(out.scope, "session");
    assert_eq!(out.mode, "executing");
    assert_eq!(out.items, rt.session_todos);
    assert_eq!(rt.session_todos[0].id, "sub-1");
    assert_eq!(plan_file.frontmatter.todos[0].status, TodoStatus::Pending);
    assert_eq!(rt.mode(), PlanMode::Executing { plan_id: "demo".into() });
}

#[test]
fn refused_todos_leave_the_session_as_it_was() {
    let mut rt = PlanRuntime::new("session-a");
    rt.set_executing("demo".into());
    let gone = TodosArgs { ops: vec![TodoOpArg::RemoveTodo { id: "z".into() }] };
    assert_eq!(
        todos::execute(&mut rt, &gone),
        Err(ToolError::Op(OpError::UnknownId("z".into())))
    );
    assert!(rt.session_todos.is_empty());
    assert_ne!(ToolError::Plan(PlanError::FrontmatterDelimMissing), ToolError::Internal("".into()));
}
