//! Going back to a checkpoint.

use tomcat_chat::commands::cmd_ckpt::{CheckpointKind, CheckpointMeta};
use tomcat_chat::commands::cmd_restore::{
    checkpoint_note_paths, collect_restore_warnings, effective_restore_paths,
    other_session_restore_conflicts, render_restore_conflicts, RestoreConflict, RestorePathPlan,
    SessionCheckpoints,
};
use tomcat_chat::commands::restore_walk::{
    after_diff, after_finalize, after_pre_rollback, after_reload, after_restore, after_scan,
    after_session, after_show, after_summary, pre_rollback_request, render_restore_result,
    restore_entry, RestoreAudit, RestoreCoreReport, RestoreRequest, RestoreStep, RestoredFiles,
};

fn meta(kind: CheckpointKind, anchor: Option<&str>, noted: &[&str]) -> CheckpointMeta {
    CheckpointMeta {
        id: "ck_1".into(),
        session_id: "session-1".into(),
        turn_id: "turn-1".into(),
        kind,
        git_commit: Some("deadbeef".into()),
        message_anchor: anchor.map(|a| a.to_string()),
        created_at: "2026-05-26T00:00:00Z".into(),
        noted_paths: noted.iter().map(|p| p.to_string()).collect(),
    }
}

fn manual() -> CheckpointKind {
    CheckpointKind::Manual { label: "manual".into() }
}

fn texts(list: &[&str]) -> Vec<String> {
    list.iter().map(|s| s.to_string()).collect()
}

/// What the world answers while a checkpoint is gone back to.
struct World {
    show: Result<Option<CheckpointMeta>, String>,
    current: Result<Option<String>, String>,
    diff: Result<Vec<String>, String>,
    sessions: Option<Vec<SessionCheckpoints>>,
    pre_rollback: Result<(), String>,
    restore: Result<RestoredFiles, String>,
    summary: Result<String, String>,
    finalize: Result<(), String>,
    reload: Result<Option<String>, String>,
}

fn world(m: CheckpointMeta) -> World {
    World {
        show: Ok(Some(m)),
        current: Ok(Some("session-1".into())),
        diff: Ok(vec![]),
        sessions: Some(vec![]),
        pre_rollback: Ok(()),
        restore: Ok(RestoredFiles { changed_paths: vec![], summary: None }),
        summary: Ok(String::new()),
        finalize: Ok(()),
        reload: Ok(None),
    }
}

fn request(requested: &[&str], revert_files: bool, dry_run: bool) -> RestoreRequest {
    RestoreRequest {
        checkpoint_id: "ck_1".into(),
        requested_paths: texts(requested),
        revert_files,
        dry_run,
    }
}

/// Walks to the end; also gives the names of what was done on the way.
fn walk(req: &RestoreRequest, w: World) -> (RestoreAudit, Result<RestoreCoreReport, String>, String) {
    let mut done = String::new();
    let mut step = after_show(req, w.show);
    loop {
        step = match step {
            RestoreStep::AskSession { meta } => {
                done.push_str("session ");
                after_session(req, meta, w.current.clone())
            }
            RestoreStep::Diff { meta, session_id } => {
                done.push_str("diff ");
                after_diff(req, meta, session_id, w.diff.clone())
            }
            RestoreStep::ScanSessions { meta, session_id, plan } => {
                done.push_str("scan ");
                after_scan(req, meta, session_id, plan, w.sessions.clone())
            }
            RestoreStep::RecordPreRollback(p) => {
                done.push_str("record ");
                after_pre_rollback(p, w.pre_rollback.clone())
            }
            RestoreStep::RestoreFiles(p) => {
                done.push_str("files ");
                after_restore(req, p, w.restore.clone())
            }
            RestoreStep::SummarizeDiff { meta } => {
                done.push_str("summary ");
                after_summary(req, meta, w.summary.clone())
            }
            RestoreStep::FinalizeTranscript { anchor, progress } => {
                done.push_str("finalize:");
                done.push_str(&anchor);
                done.push(' ');
                after_finalize(req, progress, w.finalize.clone())
            }
            RestoreStep::ReloadPlan(p) => {
                done.push_str("reload ");
                after_reload(req, p, w.reload.clone())
            }
            RestoreStep::Finish { audit, result } => return (audit, result, done),
        };
    }
}

#[test]
fn effective_restore_paths_defaults_to_current_session_changed_paths() {
    let meta_a = meta(manual(), None, &["a.txt"]);
    assert_eq!(meta_a.noted_paths.len(), 1);
    assert_eq!(meta_a.noted_paths[0], "a.txt");

    let narrowed = effective_restore_paths(&meta_a, &vec![], &Ok(texts(&["b.txt"])));
    assert_eq!(narrowed.paths, texts(&["a.txt"]));
    assert_eq!(narrowed.warning, None);

    let explicit = effective_restore_paths(&meta_a, &texts(&["manual.txt"]), &Ok(vec![]));
    assert_eq!(explicit.paths, texts(&["manual.txt"]));
    assert_eq!(explicit.warning, None);
}

#[test]
fn effective_restore_paths_falls_back_to_checkpoint_diff() {
    let m = meta(manual(), None, &[]);
    let narrowed = effective_restore_paths(&m, &vec![], &Ok(texts(&["fallback.txt"])));
    assert_eq!(narrowed.paths, texts(&["fallback.txt"]));
    assert_eq!(narrowed.warning, None);
}

#[test]
fn effective_restore_paths_warns_when_auto_narrowing_fails() {
    let m = meta(manual(), None, &[]);
    let narrowed = effective_restore_paths(&m, &vec![], &Ok(vec![]));
    assert!(
        narrowed.paths.is_empty(),
        "should continue with full-tree restore"
    );
    assert!(
        narrowed.warning.is_some(),
        "auto narrowing failure should only warn"
    );
    assert_eq!(
        effective_restore_paths(&m, &vec![], &Err("io".into())),
        RestorePathPlan {
            paths: vec![],
            warning: Some(
                "无法自动收窄 restore 路径（读取 checkpoint diff 失败：io），将继续执行整树 restore。"
                    .into()
            ),
        }
    );
}

#[test]
fn blank_noted_paths_do_not_count() {
    assert_eq!(
        checkpoint_note_paths(&texts(&["a", "  ", "", " b"])),
        texts(&["a", " b"])
    );
}

fn session(id: &str, noted: Option<Vec<Vec<&str>>>) -> SessionCheckpoints {
    SessionCheckpoints {
        session_id: id.into(),
        noted_paths: noted.map(|lists| lists.iter().map(|l| texts(l)).collect()),
    }
}

#[test]
fn other_session_restore_conflicts_detect_overlapping_paths() {
    let sessions = vec![
        session("first", Some(vec![vec!["shared.txt"]])),
        session("second", Some(vec![vec!["shared.txt"]])),
    ];
    let conflicts =
        other_session_restore_conflicts(Some("first"), &texts(&["shared.txt"]), &sessions);
    assert_eq!(conflicts.len(), 1);
    assert_eq!(conflicts[0].session_id, "second");
    assert_eq!(conflicts[0].paths, texts(&["shared.txt"]));
}

#[test]
fn other_session_restore_conflicts_include_other_scopes() {
    let sessions = vec![
        session("other-scope", Some(vec![vec!["shared.txt"]])),
        session("current", Some(vec![vec!["shared.txt"]])),
    ];
    let conflicts =
        other_session_restore_conflicts(Some("current"), &texts(&["shared.txt"]), &sessions);
    assert_eq!(conflicts.len(), 1);
    assert_eq!(conflicts[0].session_id, "other-scope");
    assert_eq!(conflicts[0].paths, texts(&["shared.txt"]));
}

#[test]
fn conflicts_are_in_order_and_name_a_path_once() {
    let sessions = vec![
        session("z", Some(vec![vec!["b", "a/c"], vec!["b", "a.txt", "x"]])),
        session("unread", None),
        session("m", Some(vec![vec!["x"]])),
        session("a", Some(vec![vec!["a.txt"]])),
    ];
    let restore = texts(&["b", "a.txt", "a/c"]);
    let conflicts = other_session_restore_conflicts(None, &restore, &sessions);
    assert_eq!(
        conflicts,
        vec![
            RestoreConflict { session_id: "a".into(), paths: texts(&["a.txt"]) },
            RestoreConflict { session_id: "z".into(), paths: texts(&["a/c", "a.txt", "b"]) },
        ]
    );
    assert_eq!(render_restore_conflicts(&conflicts), "a(a.txt); z(a/c, a.txt, b)");
    assert_eq!(
        collect_restore_warnings(&conflicts),
        vec!["本次 restore 可能影响其他会话改动：a(a.txt); z(a/c, a.txt, b)"]
    );
    assert!(other_session_restore_conflicts(None, &vec![], &sessions).is_empty());
    assert!(collect_restore_warnings(&vec![]).is_empty());
}

#[test]
fn restore_keeps_other_session_owned_paths_untouched() {
    let req = request(&[], true, false);
    let mut w = world(meta(manual(), None, &["a.txt"]));
    w.sessions = Some(vec![session("session-b", Some(vec![vec!["b.txt"]]))]);
    w.restore = Ok(RestoredFiles { changed_paths: texts(&["a.txt"]), summary: None });
    let step = after_show(&req, w.show.clone());
    let m = match step {
        RestoreStep::AskSession { meta } => meta,
        other => panic!("unexpected step {:?}", other),
    };
    let (m, s, plan) = match after_session(&req, m, w.current.clone()) {
        RestoreStep::ScanSessions { meta, session_id, plan } => (meta, session_id, plan),
        other => panic!("unexpected step {:?}", other),
    };
    match after_scan(&req, m, s, plan, w.sessions.clone()) {
        RestoreStep::RestoreFiles(p) => {
            assert_eq!(p.paths, texts(&["a.txt"]), "restore 应只回滚当前会话记录过的 a.txt");
            assert!(p.warnings.is_empty());
        }
        other => panic!("unexpected step {:?}", other),
    }
    let (audit, result, _) = walk(&req, w);
    assert!(audit.success);
    assert_eq!(result.expect("report").restored_paths, texts(&["a.txt"]));
}

#[test]
fn restore_core_without_reverting_files_truncates_transcript_only() {
    let m = meta(CheckpointKind::TurnEnd, Some("assistant-1"), &["keep.txt"]);
    let (audit, result, done) = walk(&request(&[], false, false), world(m));
    let report = result.expect("restore core");
    assert_eq!(report.changed_paths, vec!["keep.txt".to_string()]);
    assert!(!report.revert_files);
    assert!(report.transcript_truncated);
    assert_eq!(
        done, "session finalize:assistant-1 ",
        "transcript-only restore 不应改动工作区文件"
    );
    assert!(audit.success);
    assert_eq!(
        audit.detail,
        "restore ck_1 kind=turn_end revert_files=false dry_run=false paths=keep.txt"
    );
}

#[test]
fn restore_core_without_reverting_files_skips_cross_session_conflict_warnings() {
    let m = meta(CheckpointKind::TurnEnd, Some("assistant-1"), &["shared.txt"]);
    let mut w = world(m);
    w.sessions = Some(vec![session("session-b", Some(vec![vec!["shared.txt"]]))]);
    let (_, result, done) = walk(&request(&[], false, false), w);
    let report = result.expect("restore core");
    assert_eq!(report.changed_paths, vec!["shared.txt".to_string()]);
    assert!(
        report.warnings.is_empty(),
        "transcript-only restore should skip cross-session conflict scanning"
    );
    assert!(!done.contains("scan"));
}

#[test]
fn going_back_to_a_turn_does_everything_in_order() {
    let m = meta(CheckpointKind::TurnEnd, Some("anchor"), &[]);
    let mut w = world(m.clone());
    w.sessions = Some(vec![session("b", Some(vec![vec!["x"]]))]);
    w.diff = Ok(texts(&["x", "y"]));
    w.reload = Ok(Some("plan-1".into()));
    let (audit, result, done) = walk(&request(&[], true, false), w);
    assert_eq!(done, "session diff scan record files finalize:anchor reload ");
    let report = result.expect("report");
    assert_eq!(report.restored_paths, texts(&["x", "y"]));
    assert_eq!(report.changed_paths, texts(&["x", "y"]));
    assert_eq!(report.reloaded_plan_id, Some("plan-1".to_string()));
    assert_eq!(report.warnings, texts(&["本次 restore 可能影响其他会话改动：b(x)"]));
    assert!(report.transcript_truncated);
    assert_eq!(
        audit.detail,
        "restore ck_1 kind=turn_end revert_files=true dry_run=false paths=x,y"
    );
    assert_eq!(
        render_restore_result("ck_1", &Ok(report)),
        "警告：本次 restore 可能影响其他会话改动：b(x)\n已恢复 checkpoint ck_1：x, y\nplan_runtime 已对齐磁盘：EXEC plan_id=plan-1\n"
    );
}

#[test]
fn a_whole_tree_is_told_as_a_dot() {
    let (_, result, done) = walk(&request(&[], true, false), world(meta(manual(), None, &[])));
    assert_eq!(done, "session diff files reload ");
    let report = result.expect("report");
    assert_eq!(report.restored_paths, texts(&["."]));
    assert!(report.changed_paths.is_empty());
    assert!(!report.transcript_truncated);
    assert_eq!(
        report.warnings,
        texts(&["无法自动收窄 restore 路径，将继续执行整树 restore。"])
    );
}

#[test]
fn a_trial_changes_nothing() {
    let m = meta(CheckpointKind::TurnEnd, Some("anchor"), &["a"]);
    let mut w = world(m.clone());
    w.restore = Ok(RestoredFiles { changed_paths: texts(&["a"]), summary: Some("-a\n".into()) });
    let (_, result, done) = walk(&request(&[], true, true), w);
    assert_eq!(done, "session scan files ");
    let report = result.expect("report");
    assert!(report.dry_run && !report.transcript_truncated);
    assert_eq!(render_restore_result("ck_1", &Ok(report)), "dry-run: ck_1\n-a\n");

    let mut w = world(m);
    w.summary = Ok(" \n".into());
    let (_, result, done) = walk(&request(&[], false, true), w);
    assert_eq!(done, "session summary ");
    assert_eq!(
        render_restore_result("ck_1", &result),
        "dry-run: ck_1\n当前工作区与目标 checkpoint 无差异。\n"
    );
}

fn ends(req: &RestoreRequest, w: World) -> (String, String) {
    let (audit, result, _) = walk(req, w);
    assert!(!audit.success);
    (audit.detail, result.expect_err("an error"))
}

#[test]
fn every_failure_has_its_words() {
    let turn = || meta(CheckpointKind::TurnEnd, Some("anchor"), &["a"]);
    let revert = request(&[], true, false);
    let talk = request(&[], false, false);

    let mut w = world(turn());
    w.show = Ok(None);
    assert_eq!(
        ends(&revert, w),
        ("checkpoint missing: ck_1".into(), "未找到 checkpoint: ck_1".into())
    );
    let mut w = world(turn());
    w.show = Err("e".into());
    assert_eq!(ends(&revert, w), ("show failed: e".into(), "读取 checkpoint 失败：e".into()));
    let mut w = world(turn());
    w.current = Ok(None);
    assert_eq!(
        ends(&revert, w),
        (
            "restore missing current session".into(),
            "当前无活动会话，无法执行 restore".into(),
        )
    );
    let mut w = world(turn());
    w.current = Err("e".into());
    assert_eq!(
        ends(&revert, w),
        ("current_session_id failed: e".into(), "读取当前会话失败：e".into())
    );
    let mut w = world(turn());
    w.current = Ok(Some("session-2".into()));
    assert_eq!(
        ends(&revert, w),
        (
            "checkpoint session mismatch: checkpoint=ck_1 checkpoint_session=session-1 current_session=session-2".into(),
            "checkpoint 不属于当前会话，不能跨会话 restore".into(),
        )
    );
    let mut w = world(turn());
    w.pre_rollback = Err("e".into());
    assert_eq!(
        ends(&revert, w),
        ("pre-rollback failed: e".into(), "pre-rollback 失败，已中止 restore：e".into())
    );
    let mut w = world(turn());
    w.restore = Err("e".into());
    assert_eq!(ends(&revert, w), ("restore failed: e".into(), "restore 失败：e".into()));
    let mut w = world(turn());
    w.finalize = Err("e".into());
    assert_eq!(
        ends(&revert, w),
        (
            "restore applied but transcript finalize failed: e".into(),
            "restore 已改盘，但 transcript 回滚失败：e".into(),
        )
    );
    let mut w = world(turn());
    w.finalize = Err("e".into());
    assert_eq!(
        ends(&talk, w),
        ("transcript-only restore failed: e".into(), "restore 对话截断失败：e".into())
    );
    let w = world(meta(CheckpointKind::Interrupt, None, &[]));
    assert_eq!(
        ends(&talk, w).1,
        "restore 对话截断失败：checkpoint 缺少 message_anchor，无法安全标记 superseded"
    );
    let mut w = world(turn());
    w.reload = Err("e".into());
    let (audit, result, _) = walk(&revert, w);
    assert!(audit.success);
    assert_eq!(
        result.expect("report").warnings,
        texts(&["plan_runtime 重新对齐失败（仅警告）：e"])
    );
    assert_eq!(render_restore_result("ck_1", &Err("why".into())), "why\n");
}

#[test]
fn what_is_recorded_names_the_checkpoint() {
    let r = pre_rollback_request("ck_123456", "ck_123", "s", Some("m".into()), 42);
    assert_eq!(r.session_id, "s");
    assert_eq!(r.turn_id, "restore::pre-rollback::ck_123456::42");
    assert_eq!(r.kind, CheckpointKind::Manual { label: "pre-rollback to ck_123".into() });
    assert_eq!(r.message_anchor, Some("m".to_string()));

    let entry = restore_entry(
        &meta(CheckpointKind::Interrupt, Some("anchor"), &[]),
        &texts(&["a"]),
    )
    .expect("entry");
    assert_eq!(entry.checkpoint_id, "ck_1");
    assert_eq!(entry.checkpoint_kind, "interrupt");
    assert_eq!(entry.anchor_message_id, "anchor");
    assert_eq!(entry.restored_paths, texts(&["a"]));
    assert!(restore_entry(&meta(manual(), None, &[]), &vec![]).is_err());
}
