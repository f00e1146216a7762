//! Plan files, the todos in them, and the boards that show them.

use serde_yaml::{Mapping, Value};
use tomcat_chat::plan_runtime::file_store::{
    plan_path_for_id, render_plan_text, split_plan_text, told_plan_path, validate_frontmatter_invariants, Milestone,
    PlanError, PlanFileFrontmatter, PlanFileMode, TodoItem, TodoStatus, PLAN_FILE_SCHEMA_VERSION,
};
use tomcat_chat::plan_runtime::ops::{
    active_in_progress, all_completed, apply_todos_ops, OpError, TodoOp,
};
use tomcat_chat::plan_runtime::todo_runtime::{
    list_session_todos_files, purge_inactive, todo_dir_for, todo_path_for, TodoFile,
};
use tomcat_chat::plan_runtime::todos_panel::{
    next_panel_snapshot_id, render_cli_panel_header, CliTodosPanel, NoopTodosPanel, PanelSequence,
    RefreshNotifier, TodosPanel, TodosPanelSnapshot,
};

fn todo(id: &str, content: &str, status: TodoStatus) -> TodoItem {
    TodoItem { id: id.into(), content: content.into(), status, milestone_id: None }
}

fn sample_frontmatter() -> PlanFileFrontmatter {
    let mut t1 = todo("t1", "step 1", TodoStatus::Pending);
    t1.milestone_id = Some("m1".into());
    let mut t2 = todo("t2", "step 2", TodoStatus::InProgress);
    t2.milestone_id = Some("m1".into());
    PlanFileFrontmatter {
        plan_id: "demo_plan_1".to_string(),
        goal: "为 chat 模式补齐 todos 与 /plan 闭环".to_string(),
        mode: PlanFileMode::Planning,
        session_key: None,
        session_id: None,
        created_at: "2026-05-19T10:00:00+08:00".to_string(),
        schema_version: PLAN_FILE_SCHEMA_VERSION,
        milestones: vec![Milestone {
            id: "m1".into(),
            title: "milestone 1".into(),
            todo_ids: vec!["t1".into(), "t2".into()],
        }],
        todos: vec![t1, t2],
    }
}

fn mapping(fields: Vec<(&str, Value)>) -> Value {
    let mut m = Mapping::new();
    for (k, v) in fields {
        m.insert(Value::String(k.into()), v);
    }
    Value::Mapping(m)
}

fn string(s: &str) -> Value {
    Value::String(s.into())
}

/// The text of a plan's file, if its front matter keeps the rules.
fn serialize_plan_file(fm: &PlanFileFrontmatter, body: &str) -> Result<String, PlanError> {
    validate_frontmatter_invariants(fm)?;
    let todos = fm
        .todos
        .iter()
        .map(|t| {
            mapping(vec![
                ("id", string(&t.id)),
                ("content", string(&t.content)),
                ("status", string(t.status.as_str())),
            ])
        })
        .collect();
    let front = mapping(vec![
        ("plan_id", string(&fm.plan_id)),
        ("goal", string(&fm.goal)),
        ("mode", string(fm.mode.as_str())),
        ("created_at", string(&fm.created_at)),
        ("schema_version", Value::Number(fm.schema_version.into())),
        ("todos", Value::Sequence(todos)),
    ]);
    Ok(render_plan_text(&serde_yaml::to_string(&front).expect("yaml"), body))
}

/// Reads a plan's file, but for its milestones.
fn parse_plan_text(text: &str) -> Result<(PlanFileFrontmatter, String), PlanError> {
    let (head, body) = split_plan_text(text)?;
    let v: Value = serde_yaml::from_str(&head).expect("yaml");
    let field_of = |v: &Value, key: &str| match v.get(key).and_then(|x| x.as_str()) {
        Some(s) => Ok(s.to_string()),
        None => Err(PlanError::MissingField { field: key.to_string() }),
    };
    let modes = [
        PlanFileMode::Planning,
        PlanFileMode::Executing,
        PlanFileMode::Pending,
        PlanFileMode::Completed,
    ];
    let states = [
        TodoStatus::Pending,
        TodoStatus::InProgress,
        TodoStatus::Completed,
        TodoStatus::Cancelled,
    ];
    let mode_word = field_of(&v, "mode")?;
    let mut todos = vec![];
    for t in v.get("todos").and_then(|x| x.as_sequence()).expect("todos") {
        let word = field_of(t, "status")?;
        let status = states.into_iter().find(|s| s.as_str() == word).expect("status");
        todos.push(todo(&field_of(t, "id")?, &field_of(t, "content")?, status));
    }
    let fm = PlanFileFrontmatter {
        plan_id: field_of(&v, "plan_id")?,
        goal: field_of(&v, "goal")?,
        mode: modes.into_iter().find(|m| m.as_str() == mode_word).expect("mode"),
        session_key: None,
        session_id: None,
        created_at: field_of(&v, "created_at")?,
        schema_version: v.get("schema_version").and_then(|x| x.as_u64()).unwrap_or(0) as u32,
        milestones: vec![],
        todos,
    };
    validate_frontmatter_invariants(&fm)?;
    Ok((fm, body))
}

fn parse_plan_file(text: &str) -> Result<PlanFileFrontmatter, PlanError> {
    parse_plan_text(text).map(|p| p.0)
}

#[test]
fn plan_file_round_trip_frontmatter() {
    let body = "## Goal\n\nThis is the goal.\n";
    let text = serialize_plan_file(&sample_frontmatter(), body).expect("serialize");
    assert!(text.starts_with("---\n"));
    assert!(text.contains("plan_id: demo_plan_1"));
    assert!(text.contains("schema_version: 1"));
    let (parsed, read_body) = parse_plan_text(&text).expect("parse");
    assert_eq!(parsed.plan_id, "demo_plan_1");
    assert_eq!(parsed.mode, PlanFileMode::Planning);
    assert_eq!(parsed.todos.len(), 2);
    assert_eq!(parsed.todos[1].status, TodoStatus::InProgress);
    assert_eq!(read_body.trim(), "## Goal\n\nThis is the goal.".trim());
    assert_eq!(read_body, body);
}

#[test]
fn a_body_may_hold_lines_of_dashes() {
    let text = render_plan_text("a: 1\n", "x\n---\ny\n");
    assert_eq!(text, "---\na: 1\n---\nx\n---\ny\n");
    assert_eq!(split_plan_text(&text), Ok(("a: 1\n".to_string(), "x\n---\ny\n".to_string())));
}

#[test]
fn plan_file_missing_required_field_returns_error() {
    let yaml_missing_plan_id = "---\ngoal: g\nmode: planning\ncreated_at: t\nschema_version: 1\nmilestones: []\ntodos: []\n---\n";
    let err = parse_plan_file(yaml_missing_plan_id).expect_err("缺 plan_id 应失败");
    assert!(matches!(err, PlanError::MissingField { .. }));

    let yaml_empty_plan_id = "---\nplan_id: \"\"\ngoal: g\nmode: planning\ncreated_at: t\nschema_version: 1\nmilestones: []\ntodos: []\n---\n";
    let err = parse_plan_file(yaml_empty_plan_id).expect_err("空 plan_id 应失败");
    match &err {
        PlanError::MissingField { field } => assert_eq!(field, "plan_id"),
        other => panic!("expected MissingField(plan_id), got {other:?}"),
    }

    let yaml_empty_goal = "---\nplan_id: x\ngoal: \"\"\nmode: planning\ncreated_at: t\nschema_version: 1\nmilestones: []\ntodos: []\n---\n";
    let err = parse_plan_file(yaml_empty_goal).expect_err("空 goal 应失败");
    match &err {
        PlanError::MissingField { field } => assert_eq!(field, "goal"),
        other => panic!("expected MissingField(goal), got {other:?}"),
    }
}

#[test]
fn plan_file_schema_version_v1_locked() {
    let yaml = "---\nplan_id: x\ngoal: g\nmode: planning\ncreated_at: t\nschema_version: 2\nmilestones: []\ntodos: []\n---\n";
    let err = parse_plan_file(yaml).expect_err("schema_version=2 应被拒");
    assert!(
        matches!(err, PlanError::SchemaVersion { actual: 2, expected: 1 }),
        "expected SchemaVersion(2,1), got {err:?}"
    );
    assert!(parse_plan_file(&yaml.replace("version: 2", "version: 1")).is_ok());
}

#[test]
fn plan_file_rejects_multiple_in_progress_on_write() {
    let mut fm = sample_frontmatter();
    assert_eq!(validate_frontmatter_invariants(&fm), Ok(()));
    fm.todos.push(todo("t3", "另一个 in_progress", TodoStatus::InProgress));
    let err = validate_frontmatter_invariants(&fm).expect_err("应拒多个 in_progress");
    assert!(
        matches!(err, PlanError::MultipleInProgress { count: 2 }),
        "got {err:?}"
    );
}

#[test]
fn plan_file_rejects_duplicate_todo_ids_on_write() {
    let mut fm = sample_frontmatter();
    fm.todos.push(todo("t1", "dup", TodoStatus::Pending));
    let err = validate_frontmatter_invariants(&fm).expect_err("应拒重复 id");
    match &err {
        PlanError::DuplicateTodoId { id } => assert_eq!(id, "t1"),
        other => panic!("expected DuplicateTodoId, got {other:?}"),
    }
}

#[test]
fn plan_file_frontmatter_delim_missing_returns_error() {
    let err = parse_plan_file("not yaml at all\n").expect_err("无 --- 应失败");
    assert!(matches!(err, PlanError::FrontmatterDelimMissing), "got {err:?}");

    let err = parse_plan_file("---\nplan_id: x\n").expect_err("缺结尾 --- 应失败");
    assert!(matches!(err, PlanError::FrontmatterDelimMissing), "got {err:?}");
}

#[test]
fn plan_text_is_cut_at_the_first_closing_line() {
    assert_eq!(
        split_plan_text("---\na: 1\n---\n## Goal\n\n---\nmore\n"),
        Ok(("a: 1\n".to_string(), "## Goal\n\n---\nmore\n".to_string()))
    );
}

#[test]
fn plan_path_for_id_rejects_unsafe() {
    let err = plan_path_for_id("/home/u", "../etc/passwd").expect_err("应拒穿越");
    assert!(matches!(err, PlanError::InvalidPlanId { .. }), "got {err:?}");

    let err = plan_path_for_id("/home/u", "a/b").expect_err("应拒斜杠");
    assert!(matches!(err, PlanError::InvalidPlanId { .. }), "got {err:?}");
}

#[test]
fn plan_file_path_fixed_under_dot_tomcat() {
    let canonical = plan_path_for_id("/home/u", "safe_id_1").unwrap();
    assert!(
        canonical.contains(".tomcat")
            && canonical.contains("plans")
            && canonical.ends_with("safe_id_1.plan.md"),
        "plan 文件路径必须位于 ~/.tomcat/plans/，实际：{canonical}"
    );
    assert_eq!(canonical, "/home/u/.tomcat/plans/safe_id_1.plan.md");
    assert_eq!(told_plan_path("/home/u", "safe_id_1"), canonical);
    assert_eq!(told_plan_path("/home/u", "a b"), "~/.tomcat/plans/a b.plan.md");
}

// ---------------------------------------------------------------- changes

#[test]
fn todo_changes_are_all_or_none() {
    let mut list = vec![todo("a", "1", TodoStatus::Pending), todo("b", "2", TodoStatus::Pending)];
    let ops = vec![
        TodoOp::AddTodo(todo("c", "3", TodoStatus::Cancelled)),
        TodoOp::SetStatus { id: "a".into(), status: TodoStatus::InProgress },
        TodoOp::SetContent { id: "b".into(), content: "two".into() },
        TodoOp::SetMilestone { id: "b".into(), milestone_id: Some("m".into()) },
        TodoOp::RemoveTodo { id: "c".into() },
    ];
    assert_eq!(apply_todos_ops(&mut list, &ops), Ok(()));
    let mut b = todo("b", "two", TodoStatus::Pending);
    b.milestone_id = Some("m".into());
    assert_eq!(list, vec![todo("a", "1", TodoStatus::InProgress), b]);
    assert_eq!(active_in_progress(&list), Some("a".to_string()));

    let before = list.clone();
    assert_eq!(
        apply_todos_ops(
            &mut list,
            &vec![
                TodoOp::RemoveTodo { id: "b".into() },
                TodoOp::AddTodo(todo("a", "again", TodoStatus::Pending)),
            ],
        ),
        Err(OpError::DuplicateId("a".into()))
    );
    assert_eq!(list, before);
    assert_eq!(
        apply_todos_ops(&mut list, &vec![TodoOp::RemoveTodo { id: "z".into() }]),
        Err(OpError::UnknownId("z".into()))
    );
    assert_eq!(
        apply_todos_ops(
            &mut list,
            &vec![TodoOp::SetStatus { id: "b".into(), status: TodoStatus::InProgress }],
        ),
        Err(OpError::MultipleInProgress(2))
    );
    assert_eq!(list, before);
}

#[test]
fn a_list_is_done_when_all_of_it_is() {
    assert!(!all_completed(&vec![]));
    assert!(all_completed(&vec![todo("a", "", TodoStatus::Completed)]));
    assert!(!all_completed(&vec![
        todo("a", "", TodoStatus::Completed),
        todo("b", "", TodoStatus::Pending),
    ]));
    assert_eq!(active_in_progress(&vec![todo("a", "", TodoStatus::Completed)]), None);
}

// ---------------------------------------------------------------- todo files

#[test]
fn todo_file_roundtrips_markdown_with_status_checkboxes() {
    let mut f = TodoFile::new("td_1", "ses-a", Some("scratch".into()), "2026-01-01T00:00:00Z");
    f.items.push(todo("t1", "first", TodoStatus::InProgress));
    f.items.push(todo("t2", "second", TodoStatus::Completed));
    let md = f.to_markdown();
    assert!(md.contains("todos_id: td_1"));
    assert!(md.contains("title: scratch"));
    assert!(md.contains("- [~] t1: first"));
    assert!(md.contains("- [x] t2: second"));
    f.items.clear();
    f.title = None;
    assert_eq!(
        f.to_markdown(),
        "---\ntodos_id: td_1\nsession_key: ses-a\ncreated_at: 2026-01-01T00:00:00Z\nschema_version: 1\n---\n\n## Todos\n\n_(empty)_\n"
    );
}

#[test]
fn todo_files_lie_below_their_session() {
    assert_eq!(
        todo_path_for("/base", "ses-b", "td_2"),
        "/base/sessions/ses-b/todos/td_2.todo.md"
    );
    assert_eq!(todo_dir_for("/base/", "ses-b"), "/base/sessions/ses-b/todos");
}

fn texts(list: &[&str]) -> Vec<String> {
    list.iter().map(|s| s.to_string()).collect()
}

#[test]
fn purge_inactive_removes_only_other_ids() {
    let names = texts(&["c.todo.md", "a.todo.md", "b.todo.md"]);
    let removed = purge_inactive(&names, "b");
    assert_eq!(removed.len(), 2);
    let kept: Vec<String> = names.iter().filter(|n| !removed.contains(n)).cloned().collect();
    let left = list_session_todos_files(&kept);
    assert_eq!(left.len(), 1);
    assert!(left[0].ends_with("b.todo.md"));
}

#[test]
fn list_session_todos_files_handles_missing_dir() {
    let out = list_session_todos_files(&vec![]);
    assert!(out.is_empty());
}

#[test]
fn todo_files_are_listed_in_order_and_others_left_out() {
    let names = texts(&["b.todo.md", "notes.md", "a.todo.md", "a.todo.md.tmp"]);
    assert_eq!(list_session_todos_files(&names), texts(&["a.todo.md", "b.todo.md"]));
    assert_eq!(purge_inactive(&names, "zz"), texts(&["a.todo.md", "b.todo.md"]));
}

// ---------------------------------------------------------------- boards

#[test]
fn panel_snapshot_id_is_monotonic() {
    let mut sequence = PanelSequence::new();
    let a = next_panel_snapshot_id(&mut sequence, 1_700_000_000_000);
    let b = next_panel_snapshot_id(&mut sequence, 1_700_000_000_000);
    let c = next_panel_snapshot_id(&mut sequence, 1_700_000_000_001);
    assert!(
        a < b && b < c,
        "ids should be strictly increasing: {a} {b} {c}"
    );
    assert_eq!(b, 1_700_000_000_000_000_001);
}

#[test]
fn snapshot_ids_grow_though_the_clock_goes_back() {
    let mut sequence = PanelSequence::new();
    assert_eq!(next_panel_snapshot_id(&mut sequence, 10), 10_000_000);
    assert_eq!(next_panel_snapshot_id(&mut sequence, 5), 10_000_001);
    assert_eq!(next_panel_snapshot_id(&mut sequence, 5), 10_000_002);
    assert_eq!(next_panel_snapshot_id(&mut sequence, 11), 11_000_003);
    let mut late = PanelSequence { next: u64::MAX, last: Some(u64::MAX - 1) };
    assert_eq!(next_panel_snapshot_id(&mut late, u64::MAX), u64::MAX);
    assert_eq!(late, PanelSequence { next: u64::MAX, last: Some(u64::MAX) });
}

#[derive(Clone, Default)]
struct CapturePanel {
    log: std::rc::Rc<std::cell::RefCell<Vec<u64>>>,
}

impl TodosPanel for CapturePanel {
    fn refresh(&self, s: &TodosPanelSnapshot) -> Vec<String> {
        self.log.borrow_mut().push(s.panel_snapshot_id);
        vec![s.scope.clone()]
    }
}

#[test]
fn notifier_fans_out_to_all_registered_panels() {
    let mut n = RefreshNotifier::default();
    let p1 = CapturePanel::default();
    let p2 = CapturePanel::default();
    n.register(p1.clone());
    n.register(p2.clone());
    let snap = TodosPanelSnapshot::new_session(
        vec![TodoItem {
            id: "t".into(),
            content: "x".into(),
            status: TodoStatus::Pending,
            milestone_id: None,
        }],
        9,
    );
    assert_eq!(n.notify(&snap), vec![vec!["session".to_string()], vec!["session".to_string()]]);
    assert_eq!(p1.log.borrow().len(), 1);
    assert_eq!(p2.log.borrow().len(), 1);
    assert_eq!(*p2.log.borrow(), vec![9]);
}

#[test]
fn a_notifier_without_boards_shows_nothing() {
    let n: RefreshNotifier<NoopTodosPanel> = RefreshNotifier::new();
    assert!(n.notify(&TodosPanelSnapshot::new_session(vec![], 1)).is_empty());
}

#[test]
fn noop_panel_compiles_and_runs() {
    let p = NoopTodosPanel;
    assert!(p.refresh(&TodosPanelSnapshot::new_session(vec![], 1)).is_empty());
}

#[test]
fn the_board_shows_every_todo() {
    let items = vec![
        todo("t1", "step a", TodoStatus::InProgress),
        todo("t2", "step b", TodoStatus::Pending),
        todo("t3", "step c", TodoStatus::Cancelled),
    ];
    let mut s = TodosPanelSnapshot::new_plan("p-1", items, 42);
    s.warnings.push("careful".into());
    assert_eq!(
        CliTodosPanel.refresh(&s),
        vec![
            "[panel#42] plan:p-1 items=3 in_progress=t1",
            "  [~] t1 ▸ step a",
            "  [ ] t2 ▸ step b",
            "  [-] t3 ▸ step c",
            "  ⚠ careful",
        ]
    );
    assert_eq!(
        render_cli_panel_header(&TodosPanelSnapshot::new_session(vec![], 7)),
        "[panel#7] session items=0 in_progress=-"
    );
}
