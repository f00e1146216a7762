//! The walk of a restore, step by step.
//!
//! Each step names what is to be done outside, and each `after_..` function takes what came of it
//! and says which step follows. The walk ends with [`RestoreStep::Finish`], which carries the
//! entry for the audit log and the result.

use vstd::prelude::*;
use vstd::string::*;

use crate::commands::cmd_ckpt::{checkpoint_kind_label, CheckpointKind, CheckpointMeta};
#[allow(unused_imports)]
use crate::commands::cmd_ckpt::kind_label;
use crate::commands::cmd_restore::{
    checkpoint_note_paths, collect_restore_warnings, other_session_restore_conflicts,
    plan_from_diff, plan_without_diff, RestoreConflict, RestorePathPlan, SessionCheckpoints,
};
#[allow(unused_imports)]
use crate::commands::cmd_restore::{
    conflict_warnings, conflicting, is_diff_plan, lists_conflicts, named_paths, not_blank,
    session_ids,
};
use crate::numerals::decimal_u64;
#[allow(unused_imports)]
use crate::numerals::decimal;
#[allow(unused_imports)]
use crate::order::sorts;
use crate::search::join;
#[allow(unused_imports)]
use crate::search::joined;
use crate::text::{cat, cat3, cat4, copy_texts, one_text, push_text, same, trim};
#[allow(unused_imports)]
use crate::text::{opt_text, texts, trimmed};

verus! {

/// What a restore is asked to do.
#[derive(Clone, Debug, PartialEq, Eq)]
pub struct RestoreRequest {
    pub checkpoint_id: String,
    /// The paths to take back; none stand for those that the checkpoint changed.
    pub requested_paths: Vec<String>,
    /// Whether files are taken back, and not the conversation alone.
    pub revert_files: bool,
    /// Whether nothing is changed.
    pub dry_run: bool,
}

/// What a finished restore reports.
#[derive(Clone, Debug, PartialEq, Eq)]
pub struct RestoreCoreReport {
    pub changed_paths: Vec<String>,
    pub dry_run: bool,
    pub meta: CheckpointMeta,
    pub restored_paths: Vec<String>,
    pub revert_files: bool,
    pub reloaded_plan_id: Option<String>,
    pub summary: Option<String>,
    pub transcript_truncated: bool,
    pub warnings: Vec<String>,
}

/// What a restore has found out and done so far.
#[derive(Clone, Debug, PartialEq, Eq)]
pub struct RestoreProgress {
    pub meta: CheckpointMeta,
    pub changed_paths: Vec<String>,
    pub restored_paths: Vec<String>,
    pub summary: Option<String>,
    pub warnings: Vec<String>,
}

/// A restore of files that knows its paths.
#[derive(Clone, Debug, PartialEq, Eq)]
pub struct RestorePrepared {
    pub meta: CheckpointMeta,
    pub paths: Vec<String>,
    pub warnings: Vec<String>,
}

/// An entry of the audit log.
#[derive(Clone, Debug, PartialEq, Eq)]
pub struct RestoreAudit {
    pub success: bool,
    pub detail: String,
}

/// What the store says of the files that it took back.
#[derive(Clone, Debug, PartialEq, Eq)]
pub struct RestoredFiles {
    pub changed_paths: Vec<String>,
    pub summary: Option<String>,
}

/// What comes next in a restore.
#[derive(Debug, PartialEq, Eq)]
pub enum RestoreStep {
    /// Ask for the id of the current session.
    AskSession { meta: CheckpointMeta },
    /// Compute the difference from the checkpoint, to find the paths.
    Diff { meta: CheckpointMeta, session_id: String },
    /// List the checkpoints of the sessions, to find conflicts.
    ScanSessions { meta: CheckpointMeta, session_id: String, plan: RestorePathPlan },
    /// Record a checkpoint of the present state.
    RecordPreRollback(RestorePrepared),
    /// Take the files back, or look at what that would do.
    RestoreFiles(RestorePrepared),
    /// Compute the difference from the checkpoint, for the summary.
    SummarizeDiff { meta: CheckpointMeta },
    /// Mark the messages after the anchor as superseded, and note the restore in the transcript.
    FinalizeTranscript { anchor: String, progress: RestoreProgress },
    /// Let the plans follow what is on disk.
    ReloadPlan(RestoreProgress),
    /// Log the entry; the restore is over.
    Finish { audit: RestoreAudit, result: Result<RestoreCoreReport, String> },
}

// ---------------------------------------------------------------- steps

/// Whether a restore to a checkpoint of this kind also takes back the conversation.
pub open spec fn truncates(kind: CheckpointKind) -> bool {
    kind is TurnEnd || kind is Interrupt
}

fn takes_back_conversation(kind: &CheckpointKind) -> (r: bool)
    ensures
        r == truncates(*kind),
{
    match kind {
        CheckpointKind::TurnEnd => true,
        CheckpointKind::Interrupt => true,
        CheckpointKind::Manual { .. } => false,
    }
}

/// The restore fails, with these words in the log and to the user.
pub open spec fn fails(step: RestoreStep, detail: Seq<char>, message: Seq<char>) -> bool {
    step matches RestoreStep::Finish { audit, result } && !audit.success && audit.detail@ == detail
        && (result matches Err(m) && m@ == message)
}

fn fail(detail: String, message: String) -> (r: RestoreStep)
    ensures
        fails(r, detail@, message@),
{
    RestoreStep::Finish { audit: RestoreAudit { success: false, detail }, result: Err(message) }
}

/// A truth value in text.
pub open spec fn bool_text(b: bool) -> Seq<char> {
    if b {
        "true"@
    } else {
        "false"@
    }
}

fn bool_str(b: bool) -> (r: &'static str)
    ensures
        r@ == bool_text(b),
{
    if b {
        "true"
    } else {
        "false"
    }
}

/// What the log says of a restore that went through.
pub open spec fn success_detail(req: RestoreRequest, p: RestoreProgress) -> Seq<char> {
    "restore "@ + req.checkpoint_id@ + " kind="@ + kind_label(p.meta.kind) + " revert_files="@
        + bool_text(req.revert_files) + " dry_run="@ + bool_text(req.dry_run) + " paths="@ + joined(
        if p.restored_paths@.len() == 0 {
            texts(p.changed_paths@)
        } else {
            texts(p.restored_paths@)
        },
        ","@,
    )
}

/// The restore goes through: the report carries what was found out and done.
pub open spec fn succeeds(
    req: RestoreRequest,
    p: RestoreProgress,
    reloaded: Option<String>,
    step: RestoreStep,
) -> bool {
    step matches RestoreStep::Finish { audit, result } && audit.success && audit.detail@
        == success_detail(req, p) && result == Ok::<RestoreCoreReport, String>(
        RestoreCoreReport {
            changed_paths: p.changed_paths,
            dry_run: req.dry_run,
            meta: p.meta,
            restored_paths: p.restored_paths,
            revert_files: req.revert_files,
            reloaded_plan_id: reloaded,
            summary: p.summary,
            transcript_truncated: !req.dry_run && truncates(p.meta.kind),
            warnings: p.warnings,
        },
    )
}

fn succeed(req: &RestoreRequest, p: RestoreProgress, reloaded: Option<String>) -> (r: RestoreStep)
    ensures
        succeeds(*req, p, reloaded, r),
{
    let mut detail = cat("restore ", req.checkpoint_id.as_str());
    detail.append(" kind=");
    detail.append(checkpoint_kind_label(&p.meta.kind));
    detail.append(" revert_files=");
    detail.append(bool_str(req.revert_files));
    detail.append(" dry_run=");
    detail.append(bool_str(req.dry_run));
    detail.append(" paths=");
    if p.restored_paths.len() == 0 {
        detail.append(join(&p.changed_paths, ",").as_str());
    } else {
        detail.append(join(&p.restored_paths, ",").as_str());
    }
    let truncated = !req.dry_run && takes_back_conversation(&p.meta.kind);
    RestoreStep::Finish {
        audit: RestoreAudit { success: true, detail },
        result: Ok(
            RestoreCoreReport {
                changed_paths: p.changed_paths,
                dry_run: req.dry_run,
                meta: p.meta,
                restored_paths: p.restored_paths,
                revert_files: req.revert_files,
                reloaded_plan_id: reloaded,
                summary: p.summary,
                transcript_truncated: truncated,
                warnings: p.warnings,
            },
        ),
    }
}

/// What follows once the conversation is in order: plans follow the files if files changed.
pub open spec fn settles(req: RestoreRequest, p: RestoreProgress, step: RestoreStep) -> bool {
    if req.revert_files && !req.dry_run {
        step == RestoreStep::ReloadPlan(p)
    } else {
        succeeds(req, p, None, step)
    }
}

fn settle(req: &RestoreRequest, p: RestoreProgress) -> (r: RestoreStep)
    ensures
        settles(*req, p, r),
{
    if req.revert_files && !req.dry_run {
        RestoreStep::ReloadPlan(p)
    } else {
        succeed(req, p, None)
    }
}

/// The transcript could not be taken back.
pub open spec fn transcript_fails(req: RestoreRequest, error: Seq<char>, step: RestoreStep) -> bool {
    if req.revert_files {
        fails(
            step,
            "restore applied but transcript finalize failed: "@ + error,
            "restore 已改盘，但 transcript 回滚失败："@ + error,
        )
    } else {
        fails(
            step,
            "transcript-only restore failed: "@ + error,
            "restore 对话截断失败："@ + error,
        )
    }
}

fn transcript_fail(req: &RestoreRequest, error: &str) -> (r: RestoreStep)
    ensures
        transcript_fails(*req, error@, r),
{
    if req.revert_files {
        fail(
            cat("restore applied but transcript finalize failed: ", error),
            cat("restore 已改盘，但 transcript 回滚失败：", error),
        )
    } else {
        fail(
            cat("transcript-only restore failed: ", error),
            cat("restore 对话截断失败：", error),
        )
    }
}

/// What follows once the files are in order: the conversation is taken back with them, which
/// takes an anchor, unless nothing is to change or the checkpoint stands outside the conversation.
pub open spec fn proceeds(req: RestoreRequest, p: RestoreProgress, step: RestoreStep) -> bool {
    if !req.dry_run && truncates(p.meta.kind) {
        match p.meta.message_anchor {
            Some(a) => step matches RestoreStep::FinalizeTranscript { anchor, progress } && anchor@
                == a@ && progress == p,
            None => transcript_fails(
                req,
                "checkpoint 缺少 message_anchor，无法安全标记 superseded"@,
                step,
            ),
        }
    } else {
        settles(req, p, step)
    }
}

fn proceed(req: &RestoreRequest, p: RestoreProgress) -> (r: RestoreStep)
    ensures
        proceeds(*req, p, r),
{
    if !req.dry_run && takes_back_conversation(&p.meta.kind) {
        let anchor = match &p.meta.message_anchor {
            Some(a) => a.clone(),
            None => {
                return transcript_fail(
                    req,
                    "checkpoint 缺少 message_anchor，无法安全标记 superseded",
                );
            },
        };
        RestoreStep::FinalizeTranscript { anchor, progress: p }
    } else {
        settle(req, p)
    }
}

/// What follows once paths and warnings are known: the present state is recorded before the files
/// of a finished turn are taken back.
pub open spec fn is_prepared(
    req: RestoreRequest,
    meta: CheckpointMeta,
    paths: Seq<Seq<char>>,
    warnings: Seq<Seq<char>>,
    step: RestoreStep,
) -> bool {
    if !req.dry_run && meta.kind is TurnEnd {
        step matches RestoreStep::RecordPreRollback(p) && p.meta == meta && texts(p.paths@) == paths
            && texts(p.warnings@) == warnings
    } else {
        step matches RestoreStep::RestoreFiles(p) && p.meta == meta && texts(p.paths@) == paths
            && texts(p.warnings@) == warnings
    }
}

fn prepare(
    req: &RestoreRequest,
    meta: CheckpointMeta,
    paths: Vec<String>,
    warnings: Vec<String>,
) -> (r: RestoreStep)
    ensures
        is_prepared(*req, meta, texts(paths@), texts(warnings@), r),
{
    let record = !req.dry_run && (match meta.kind {
        CheckpointKind::TurnEnd => true,
        _ => false,
    });
    let prepared = RestorePrepared { meta, paths, warnings };
    if record {
        RestoreStep::RecordPreRollback(prepared)
    } else {
        RestoreStep::RestoreFiles(prepared)
    }
}

/// The warning of a plan, if it has one.
pub open spec fn plan_warning(plan: RestorePathPlan) -> Seq<Seq<char>> {
    match plan.warning {
        Some(w) => seq![w@],
        None => Seq::empty(),
    }
}

/// What follows once the paths are known: conflicts are looked for unless the whole tree is
/// taken back.
pub open spec fn is_planned(
    req: RestoreRequest,
    meta: CheckpointMeta,
    session: Seq<char>,
    paths: Seq<Seq<char>>,
    warning: Seq<Seq<char>>,
    step: RestoreStep,
) -> bool {
    if paths.len() == 0 {
        is_prepared(req, meta, paths, warning, step)
    } else {
        step matches RestoreStep::ScanSessions { meta: m, session_id, plan } && m == meta
            && session_id@ == session && texts(plan.paths@) == paths && plan_warning(plan)
            == warning
    }
}

fn warning_list(plan: &RestorePathPlan) -> (r: Vec<String>)
    ensures
        texts(r@) == plan_warning(*plan),
{
    match &plan.warning {
        Some(w) => one_text(w.clone()),
        None => {
            let none: Vec<String> = Vec::new();
            assert(texts(none@) =~= Seq::empty());
            none
        },
    }
}

fn planned(
    req: &RestoreRequest,
    meta: CheckpointMeta,
    session_id: String,
    plan: RestorePathPlan,
) -> (r: RestoreStep)
    ensures
        is_planned(*req, meta, session_id@, texts(plan.paths@), plan_warning(plan), r),
{
    assert(texts(plan.paths@).len() == plan.paths@.len());
    if plan.paths.len() == 0 {
        let warnings = warning_list(&plan);
        prepare(req, meta, plan.paths, warnings)
    } else {
        RestoreStep::ScanSessions { meta, session_id, plan }
    }
}

/// What a restore of the conversation alone has to go on.
pub open spec fn is_talk_progress(meta: CheckpointMeta, summary: Option<Seq<char>>, p: RestoreProgress) -> bool {
    p.meta == meta && texts(p.changed_paths@) == not_blank(texts(meta.noted_paths@))
        && p.restored_paths@.len() == 0 && opt_text(p.summary) == summary && p.warnings@.len() == 0
}

fn talk_progress(meta: CheckpointMeta, summary: Option<String>) -> (r: RestoreProgress)
    ensures
        is_talk_progress(meta, opt_text(summary), r),
{
    let changed_paths = checkpoint_note_paths(&meta.noted_paths);
    RestoreProgress {
        meta,
        changed_paths,
        restored_paths: Vec::new(),
        summary,
        warnings: Vec::new(),
    }
}

/// The first step after the checkpoint was looked up.
pub fn after_show(req: &RestoreRequest, shown: Result<Option<CheckpointMeta>, String>) -> (r: RestoreStep)
    ensures
        match shown {
            Ok(Some(meta)) => r == (RestoreStep::AskSession { meta }),
            Ok(None) => fails(
                r,
                "checkpoint missing: "@ + req.checkpoint_id@,
                "未找到 checkpoint: "@ + req.checkpoint_id@,
            ),
            Err(e) => fails(r, "show failed: "@ + e@, "读取 checkpoint 失败："@ + e@),
        },
{
    match shown {
        Ok(Some(meta)) => RestoreStep::AskSession { meta },
        Ok(None) => fail(
            cat("checkpoint missing: ", req.checkpoint_id.as_str()),
            cat("未找到 checkpoint: ", req.checkpoint_id.as_str()),
        ),
        Err(e) => fail(
            cat("show failed: ", e.as_str()),
            cat("读取 checkpoint 失败：", e.as_str()),
        ),
    }
}

/// What follows for the session that owns the checkpoint.
pub open spec fn begins(
    req: RestoreRequest,
    meta: CheckpointMeta,
    session: Seq<char>,
    step: RestoreStep,
) -> bool {
    if req.revert_files {
        match named_paths(texts(req.requested_paths@), texts(meta.noted_paths@)) {
            Some(paths) => is_planned(req, meta, session, paths, Seq::empty(), step),
            None => step matches RestoreStep::Diff { meta: m, session_id } && m == meta
                && session_id@ == session,
        }
    } else if req.dry_run {
        step == (RestoreStep::SummarizeDiff { meta })
    } else {
        exists|p: RestoreProgress| #[trigger]
            is_talk_progress(meta, None, p) && proceeds(req, p, step)
    }
}

/// The step after the current session is known: a checkpoint of another session is refused.
pub fn after_session(
    req: &RestoreRequest,
    meta: CheckpointMeta,
    current: Result<Option<String>, String>,
) -> (r: RestoreStep)
    ensures
        match current {
            Ok(Some(id)) => if meta.session_id@ != id@ {
                fails(
                    r,
                    "checkpoint session mismatch: checkpoint="@ + req.checkpoint_id@
                        + " checkpoint_session="@ + meta.session_id@ + " current_session="@ + id@,
                    "checkpoint 不属于当前会话，不能跨会话 restore"@,
                )
            } else {
                begins(*req, meta, id@, r)
            },
            Ok(None) => fails(
                r,
                "restore missing current session"@,
                "当前无活动会话，无法执行 restore"@,
            ),
            Err(e) => fails(
                r,
                "current_session_id failed: "@ + e@,
                "读取当前会话失败："@ + e@,
            ),
        },
{
    let id = match current {
        Ok(Some(id)) => id,
        Ok(None) => {
            return fail(
                "restore missing current session".to_owned(),
                "当前无活动会话，无法执行 restore".to_owned(),
            );
        },
        Err(e) => {
            return fail(
                cat("current_session_id failed: ", e.as_str()),
                cat("读取当前会话失败：", e.as_str()),
            );
        },
    };
    if !same(meta.session_id.as_str(), id.as_str()) {
        let mut detail = cat(
            "checkpoint session mismatch: checkpoint=",
            req.checkpoint_id.as_str(),
        );
        detail.append(" checkpoint_session=");
        detail.append(meta.session_id.as_str());
        detail.append(" current_session=");
        detail.append(id.as_str());
        return fail(detail, "checkpoint 不属于当前会话，不能跨会话 restore".to_owned());
    }
    if req.revert_files {
        return match plan_without_diff(&req.requested_paths, &meta.noted_paths) {
            Some(plan) => planned(req, meta, id, plan),
            None => RestoreStep::Diff { meta, session_id: id },
        };
    }
    if req.dry_run {
        return RestoreStep::SummarizeDiff { meta };
    }
    let p = talk_progress(meta, None);
    let ghost witness = p;
    let step = proceed(req, p);
    assert(is_talk_progress(meta, None, witness) && proceeds(*req, witness, step));
    step
}

/// The step after the difference gave the paths.
pub fn after_diff(
    req: &RestoreRequest,
    meta: CheckpointMeta,
    session_id: String,
    diff: Result<Vec<String>, String>,
) -> (r: RestoreStep)
    ensures
        exists|plan: RestorePathPlan| #[trigger]
            is_diff_plan(diff, plan) && is_planned(
                *req,
                meta,
                session_id@,
                texts(plan.paths@),
                plan_warning(plan),
                r,
            ),
{
    let plan = plan_from_diff(&diff);
    let ghost witness = plan;
    let step = planned(req, meta, session_id, plan);
    assert(is_diff_plan(diff, witness));
    step
}

/// The step after the sessions were listed; `None` stands for a store that could not be read.
pub fn after_scan(
    req: &RestoreRequest,
    meta: CheckpointMeta,
    session_id: String,
    plan: RestorePathPlan,
    sessions: Option<Vec<SessionCheckpoints>>,
) -> (r: RestoreStep)
    ensures
        match sessions {
            None => is_prepared(*req, meta, texts(plan.paths@), plan_warning(plan), r),
            Some(all) => exists|conflicts: Seq<RestoreConflict>|
                {
                    &&& #[trigger] is_prepared(
                        *req,
                        meta,
                        texts(plan.paths@),
                        plan_warning(plan) + conflict_warnings(conflicts),
                        r,
                    )
                    &&& plan.paths@.len() == 0 ==> conflicts.len() == 0
                    &&& plan.paths@.len() > 0 ==> exists|p: Seq<usize>| #[trigger]
                        sorts(session_ids(all@), p) && lists_conflicts(
                            all@,
                            conflicting(all@, p, Some(session_id@), texts(plan.paths@)),
                            texts(plan.paths@),
                            conflicts,
                        )
                },
        },
{
    let mut warnings = warning_list(&plan);
    match &sessions {
        None => prepare(req, meta, plan.paths, warnings),
        Some(all) => {
            let conflicts = other_session_restore_conflicts(
                Some(session_id.as_str()),
                &plan.paths,
                all,
            );
            let more = collect_restore_warnings(&conflicts);
            let ghost before = texts(warnings@);
            let mut i: usize = 0;
            assert(before + texts(more@).take(0) =~= before);
            while i < more.len()
                invariant
                    i <= more@.len(),
                    texts(warnings@) == before + texts(more@).take(i as int),
                decreases more@.len() - i,
            {
                push_text(&mut warnings, more[i].clone());
                assert(texts(warnings@) =~= before + texts(more@).take(i + 1));
                i = i + 1;
            }
            assert(texts(more@).take(more@.len() as int) =~= texts(more@));
            let step = prepare(req, meta, plan.paths, warnings);
            assert(is_prepared(
                *req,
                meta,
                texts(plan.paths@),
                plan_warning(plan) + conflict_warnings(conflicts@),
                step,
            ));
            step
        },
    }
}

/// The step after the present state was recorded: without the record nothing is taken back.
pub fn after_pre_rollback(p: RestorePrepared, recorded: Result<(), String>) -> (r: RestoreStep)
    ensures
        match recorded {
            Ok(_) => r == RestoreStep::RestoreFiles(p),
            Err(e) => fails(
                r,
                "pre-rollback failed: "@ + e@,
                "pre-rollback 失败，已中止 restore："@ + e@,
            ),
        },
{
    match recorded {
        Ok(_) => RestoreStep::RestoreFiles(p),
        Err(e) => fail(
            cat("pre-rollback failed: ", e.as_str()),
            cat("pre-rollback 失败，已中止 restore：", e.as_str()),
        ),
    }
}

/// The paths that were taken back: those that changed, else those asked for, else the whole tree.
pub open spec fn resolved_paths(changed: Seq<Seq<char>>, requested: Seq<Seq<char>>) -> Seq<Seq<char>> {
    if changed.len() > 0 {
        changed
    } else if requested.len() > 0 {
        requested
    } else {
        seq!["."@]
    }
}

/// The paths that were taken back.
pub fn resolved_restore_paths(changed: &Vec<String>, requested: &Vec<String>) -> (r: Vec<String>)
    ensures
        texts(r@) == resolved_paths(texts(changed@), texts(requested@)),
{
    assert(texts(changed@).len() == changed@.len());
    assert(texts(requested@).len() == requested@.len());
    if changed.len() > 0 {
        copy_texts(changed)
    } else if requested.len() > 0 {
        copy_texts(requested)
    } else {
        one_text(".".to_owned())
    }
}

/// The paths that are reported as changed: those that did, else those asked for.
pub fn changed_paths_for_report(changed: &Vec<String>, requested: &Vec<String>) -> (r: Vec<String>)
    ensures
        texts(r@) == (if changed@.len() > 0 {
            texts(changed@)
        } else {
            texts(requested@)
        }),
{
    if changed.len() > 0 {
        copy_texts(changed)
    } else {
        copy_texts(requested)
    }
}

/// What a restore of files has to go on once they are taken back.
pub open spec fn is_file_progress(p: RestorePrepared, files: RestoredFiles, q: RestoreProgress) -> bool {
    &&& q.meta == p.meta
    &&& texts(q.restored_paths@) == resolved_paths(texts(files.changed_paths@), texts(p.paths@))
    &&& texts(q.changed_paths@) == (if files.changed_paths@.len() > 0 {
        texts(files.changed_paths@)
    } else {
        texts(p.paths@)
    })
    &&& q.summary == files.summary
    &&& q.warnings == p.warnings
}

/// The step after the files were taken back.
pub fn after_restore(
    req: &RestoreRequest,
    p: RestorePrepared,
    restored: Result<RestoredFiles, String>,
) -> (r: RestoreStep)
    ensures
        match restored {
            Ok(files) => exists|q: RestoreProgress| #[trigger]
                is_file_progress(p, files, q) && proceeds(*req, q, r),
            Err(e) => fails(r, "restore failed: "@ + e@, "restore 失败："@ + e@),
        },
{
    match restored {
        Ok(files) => {
            let restored_paths = resolved_restore_paths(&files.changed_paths, &p.paths);
            let changed_paths = changed_paths_for_report(&files.changed_paths, &p.paths);
            let q = RestoreProgress {
                meta: p.meta,
                changed_paths,
                restored_paths,
                summary: files.summary,
                warnings: p.warnings,
            };
            let ghost witness = q;
            let step = proceed(req, q);
            assert(is_file_progress(p, files, witness) && proceeds(*req, witness, step));
            step
        },
        Err(e) => fail(cat("restore failed: ", e.as_str()), cat("restore 失败：", e.as_str())),
    }
}

/// The text of a difference, if there is any.
pub open spec fn summary_of(diff: Result<String, String>) -> Option<Seq<char>> {
    match diff {
        Ok(t) => if trimmed(t@).len() > 0 {
            Some(t@)
        } else {
            None
        },
        Err(_) => None,
    }
}

/// The text of a difference, if there is any.
pub fn checkpoint_diff_summary(diff: Result<String, String>) -> (r: Option<String>)
    ensures
        opt_text(r) == summary_of(diff),
{
    match diff {
        Ok(t) => if trim(t.as_str()).as_str().is_empty() {
            None
        } else {
            Some(t)
        },
        Err(_) => None,
    }
}

/// The step after the difference gave the summary of a look at the conversation.
pub fn after_summary(req: &RestoreRequest, meta: CheckpointMeta, diff: Result<String, String>) -> (r: RestoreStep)
    ensures
        exists|p: RestoreProgress| #[trigger]
            is_talk_progress(meta, summary_of(diff), p) && proceeds(*req, p, r),
{
    let summary = checkpoint_diff_summary(diff);
    let p = talk_progress(meta, summary);
    let ghost witness = p;
    let step = proceed(req, p);
    assert(is_talk_progress(meta, opt_text(summary), witness) && proceeds(*req, witness, step));
    step
}

/// The step after the transcript was taken back.
pub fn after_finalize(req: &RestoreRequest, p: RestoreProgress, finalized: Result<(), String>) -> (r: RestoreStep)
    ensures
        match finalized {
            Ok(_) => settles(*req, p, r),
            Err(e) => transcript_fails(*req, e@, r),
        },
{
    match finalized {
        Ok(_) => settle(req, p),
        Err(e) => transcript_fail(req, e.as_str()),
    }
}

/// The last step: plans that could not follow are a warning, no failure.
pub fn after_reload(
    req: &RestoreRequest,
    p: RestoreProgress,
    reloaded: Result<Option<String>, String>,
) -> (r: RestoreStep)
    ensures
        match reloaded {
            Ok(plan_id) => succeeds(*req, p, plan_id, r),
            Err(e) => exists|q: RestoreProgress|
                {
                    &&& #[trigger] succeeds(*req, q, None, r)
                    &&& texts(q.warnings@) == texts(p.warnings@).push(
                        "plan_runtime 重新对齐失败（仅警告）："@ + e@,
                    )
                    &&& q == (RestoreProgress { warnings: q.warnings, ..p })
                },
        },
{
    match reloaded {
        Ok(plan_id) => succeed(req, p, plan_id),
        Err(e) => {
            let mut warnings = p.warnings;
            push_text(
                &mut warnings,
                cat("plan_runtime 重新对齐失败（仅警告）：", e.as_str()),
            );
            let q = RestoreProgress {
                meta: p.meta,
                changed_paths: p.changed_paths,
                restored_paths: p.restored_paths,
                summary: p.summary,
                warnings,
            };
            let ghost witness = q;
            let step = succeed(req, q, None);
            assert(succeeds(*req, witness, None, step));
            step
        },
    }
}

// ---------------------------------------------------------------- what goes out

/// A checkpoint to be recorded.
#[derive(Clone, Debug, PartialEq, Eq)]
pub struct CheckpointRecordRequest {
    pub session_id: String,
    pub turn_id: String,
    pub kind: CheckpointKind,
    pub message_anchor: Option<String>,
    /// What else is noted with it, as JSON.
    pub notes: Option<String>,
}

/// The checkpoint that is recorded before a restore, at the time `now_ms`; `short_id` is the
/// short form of the id.
pub fn pre_rollback_request(
    checkpoint_id: &str,
    short_id: &str,
    session_id: &str,
    message_anchor: Option<String>,
    now_ms: u64,
) -> (r: CheckpointRecordRequest)
    ensures
        r.session_id@ == session_id@,
        r.turn_id@ == "restore::pre-rollback::"@ + checkpoint_id@ + "::"@ + decimal(now_ms as nat),
        r.kind matches CheckpointKind::Manual { label } && label@ == "pre-rollback to "@ + short_id@,
        r.message_anchor == message_anchor,
        r.notes is None,
{
    CheckpointRecordRequest {
        session_id: session_id.to_owned(),
        turn_id: cat4(
            "restore::pre-rollback::",
            checkpoint_id,
            "::",
            decimal_u64(now_ms).as_str(),
        ),
        kind: CheckpointKind::Manual { label: cat("pre-rollback to ", short_id) },
        message_anchor,
        notes: None,
    }
}

/// What the transcript is told of a restore.
#[derive(Clone, Debug, PartialEq, Eq)]
pub struct RestoreEntry {
    pub checkpoint_id: String,
    pub checkpoint_kind: String,
    /// The message behind which everything is superseded.
    pub anchor_message_id: String,
    pub restored_paths: Vec<String>,
}

/// What the transcript is told of a restore; a checkpoint without an anchor cannot be told of.
pub fn restore_entry(meta: &CheckpointMeta, restored_paths: &Vec<String>) -> (r: Result<
    RestoreEntry,
    String,
>)
    ensures
        match r {
            Ok(e) => {
                &&& opt_text(meta.message_anchor) == Some(e.anchor_message_id@)
                &&& e.checkpoint_id@ == meta.id@
                &&& e.checkpoint_kind@ == kind_label(meta.kind)
                &&& texts(e.restored_paths@) == texts(restored_paths@)
            },
            Err(m) => meta.message_anchor is None && m@
                == "checkpoint 缺少 message_anchor，无法安全标记 superseded"@,
        },
{
    match &meta.message_anchor {
        Some(anchor) => Ok(
            RestoreEntry {
                checkpoint_id: meta.id.clone(),
                checkpoint_kind: checkpoint_kind_label(&meta.kind).to_owned(),
                anchor_message_id: anchor.clone(),
                restored_paths: copy_texts(restored_paths),
            },
        ),
        None => Err(
            "checkpoint 缺少 message_anchor，无法安全标记 superseded".to_owned(),
        ),
    }
}

/// The lines of the warnings.
pub open spec fn warning_text(all: Seq<Seq<char>>) -> Seq<char>
    decreases all.len(),
{
    if all.len() == 0 {
        Seq::empty()
    } else {
        warning_text(all.drop_last()) + "警告："@ + all.last() + "\n"@
    }
}

/// What `/restore` prints of its result.
pub open spec fn result_text(id: Seq<char>, result: Result<RestoreCoreReport, String>) -> Seq<char> {
    match result {
        Err(m) => m@ + "\n"@,
        Ok(report) => warning_text(texts(report.warnings@)) + (if report.dry_run {
            "dry-run: "@ + id + "\n"@ + (match report.summary {
                Some(s) => s@,
                None => "当前工作区与目标 checkpoint 无差异。\n"@,
            })
        } else {
            (if report.restored_paths@.len() == 0 {
                "已恢复 checkpoint "@ + id + "。\n"@
            } else {
                "已恢复 checkpoint "@ + id + "："@ + joined(texts(report.restored_paths@), ", "@)
                    + "\n"@
            }) + (match report.reloaded_plan_id {
                Some(p) => "plan_runtime 已对齐磁盘：EXEC plan_id="@ + p@ + "\n"@,
                None => Seq::empty(),
            })
        }),
    }
}

fn format_warnings(all: &Vec<String>) -> (r: String)
    ensures
        r@ == warning_text(texts(all@)),
{
    let mut out: String = String::new();
    let mut i: usize = 0;
    assert(out@ =~= warning_text(texts(all@).take(0)));
    while i < all.len()
        invariant
            i <= all@.len(),
            out@ == warning_text(texts(all@).take(i as int)),
        decreases all@.len() - i,
    {
        assert(texts(all@).take(i + 1).drop_last() =~= texts(all@).take(i as int));
        out.append("警告：");
        out.append(all[i].as_str());
        out.append("\n");
        i = i + 1;
    }
    assert(texts(all@).take(all@.len() as int) =~= texts(all@));
    out
}

/// What `/restore` prints of its result.
pub fn render_restore_result(checkpoint_id: &str, result: &Result<RestoreCoreReport, String>) -> (r: String)
    ensures
        r@ == result_text(checkpoint_id@, *result),
{
    match result {
        Err(m) => cat(m.as_str(), "\n"),
        Ok(report) => {
            let mut out = format_warnings(&report.warnings);
            let ghost head = out@;
            let tail = if report.dry_run {
                let mut t = cat3("dry-run: ", checkpoint_id, "\n");
                match &report.summary {
                    Some(s) => t.append(s.as_str()),
                    None => t.append("当前工作区与目标 checkpoint 无差异。\n"),
                }
                t
            } else {
                let mut t = if report.restored_paths.len() == 0 {
                    cat3("已恢复 checkpoint ", checkpoint_id, "。\n")
                } else {
                    let mut u = cat3("已恢复 checkpoint ", checkpoint_id, "：");
                    u.append(join(&report.restored_paths, ", ").as_str());
                    u.append("\n");
                    u
                };
                let ghost before = t@;
                match &report.reloaded_plan_id {
                    Some(p) => {
                        let line = cat3("plan_runtime 已对齐磁盘：EXEC plan_id=", p.as_str(), "\n");
                        t.append(line.as_str());
                    },
                    None => {
                        assert(before + Seq::<char>::empty() =~= before);
                    },
                }
                t
            };
            out.append(tail.as_str());
            out
        },
    }
}

// ---------------------------------------------------------------- laws

/// Whether a step changes something: records a checkpoint, writes the transcript, or lets the
/// plans follow.
pub open spec fn writes(step: RestoreStep) -> bool {
    step is RecordPreRollback || step is FinalizeTranscript || step is ReloadPlan
}

/// A dry run changes nothing: none of the steps that its rules allow writes.
pub proof fn law_dry_run_writes_nothing(
    req: RestoreRequest,
    meta: CheckpointMeta,
    session: Seq<char>,
    paths: Seq<Seq<char>>,
    warnings: Seq<Seq<char>>,
    p: RestoreProgress,
    step: RestoreStep,
)
    requires
        req.dry_run,
    ensures
        begins(req, meta, session, step) ==> !writes(step),
        is_planned(req, meta, session, paths, warnings, step) ==> !writes(step),
        is_prepared(req, meta, paths, warnings, step) ==> !writes(step),
        proceeds(req, p, step) ==> !writes(step),
        settles(req, p, step) ==> !writes(step),
{
}

/// A restore of the conversation alone leaves the files, and does not look at other sessions.
pub proof fn law_conversation_only_leaves_files(
    req: RestoreRequest,
    meta: CheckpointMeta,
    session: Seq<char>,
    p: RestoreProgress,
    step: RestoreStep,
)
    requires
        !req.revert_files,
    ensures
        begins(req, meta, session, step) ==> !(step is RestoreFiles) && !(step is RecordPreRollback)
            && !(step is ScanSessions) && !(step is ReloadPlan),
        proceeds(req, p, step) ==> !(step is RestoreFiles) && !(step is ReloadPlan),
        settles(req, p, step) ==> !(step is RestoreFiles) && !(step is ReloadPlan),
{
}

/// The files of a finished turn are never taken back before the present state is recorded.
pub proof fn law_state_is_recorded_first(
    req: RestoreRequest,
    meta: CheckpointMeta,
    session: Seq<char>,
    paths: Seq<Seq<char>>,
    warnings: Seq<Seq<char>>,
    step: RestoreStep,
)
    requires
        !req.dry_run,
        meta.kind is TurnEnd,
    ensures
        begins(req, meta, session, step) ==> !(step is RestoreFiles),
        is_planned(req, meta, session, paths, warnings, step) ==> !(step is RestoreFiles),
        is_prepared(req, meta, paths, warnings, step) ==> !(step is RestoreFiles),
{
}

/// A restore of files that names paths takes back these paths: the first step already carries exactly
/// them, in order, and no warning.
pub proof fn law_requested_paths_go_through(
    req: RestoreRequest,
    meta: CheckpointMeta,
    session: Seq<char>,
    step: RestoreStep,
)
    requires
        req.revert_files,
        req.requested_paths@.len() > 0,
        begins(req, meta, session, step),
    ensures
        step is ScanSessions,
        step->ScanSessions_meta == meta,
        step->ScanSessions_session_id@ == session,
        step->plan.warning is None,
        step->plan.paths@.len() == req.requested_paths@.len(),
        forall|i: int|
            0 <= i < req.requested_paths@.len() ==> (#[trigger] step->plan.paths@[i])@
                == req.requested_paths@[i]@,
{
    let wanted = texts(req.requested_paths@);
    assert(wanted.len() == req.requested_paths@.len());
    crate::commands::cmd_restore::law_requested_paths_are_restored(wanted, texts(meta.noted_paths@));
    if step->plan.warning is Some {
        assert(plan_warning(step->plan).len() == 1);
    }
    let got = texts(step->plan.paths@);
    assert(got =~= wanted);
    assert(got.len() == step->plan.paths@.len());
    assert forall|i: int| 0 <= i < req.requested_paths@.len() implies (#[trigger] step->plan.paths@[i])@
        == req.requested_paths@[i]@ by {
        assert(got[i] == wanted[i]);
    }
}

/// Paths and warnings are carried on unchanged to the files: what was planned is what is taken back.
pub proof fn law_plans_are_carried_on(
    req: RestoreRequest,
    meta: CheckpointMeta,
    paths: Seq<Seq<char>>,
    warnings: Seq<Seq<char>>,
    step: RestoreStep,
)
    requires
        is_prepared(req, meta, paths, warnings, step),
    ensures
        step is RecordPreRollback || step is RestoreFiles,
        step is RecordPreRollback <==> !req.dry_run && meta.kind is TurnEnd,
        step matches RestoreStep::RecordPreRollback(p) ==> p.meta == meta && texts(p.paths@) == paths
            && texts(p.warnings@) == warnings,
        step matches RestoreStep::RestoreFiles(p) ==> p.meta == meta && texts(p.paths@) == paths
            && texts(p.warnings@) == warnings,
{
}

/// Conflicts are looked for whenever paths are named; only for the whole tree they are not.
pub proof fn law_conflicts_are_looked_for(
    req: RestoreRequest,
    meta: CheckpointMeta,
    session: Seq<char>,
    paths: Seq<Seq<char>>,
    warning: Seq<Seq<char>>,
    step: RestoreStep,
)
    requires
        is_planned(req, meta, session, paths, warning, step),
    ensures
        step is ScanSessions <==> paths.len() > 0,
        step is ScanSessions ==> texts(step->plan.paths@) == paths && step->ScanSessions_meta == meta
            && step->ScanSessions_session_id@ == session,
        !(step is ScanSessions) ==> step is RecordPreRollback || step is RestoreFiles,
{
}

/// A restore to the end of a turn, finished or broken off, takes the conversation back to the message that
/// the checkpoint is anchored at; without an anchor it fails. A restore to a checkpoint that was made by
/// hand, or one that only looks, leaves the conversation.
pub proof fn law_conversation_follows_the_files(
    req: RestoreRequest,
    p: RestoreProgress,
    step: RestoreStep,
)
    requires
        proceeds(req, p, step),
    ensures
        step is FinalizeTranscript <==> !req.dry_run && !(p.meta.kind is Manual)
            && p.meta.message_anchor is Some,
        step is FinalizeTranscript ==> Some(step->anchor@) == opt_text(p.meta.message_anchor)
            && step->progress == p,
        !req.dry_run && !(p.meta.kind is Manual) && p.meta.message_anchor is None ==> (
        step matches RestoreStep::Finish { audit, result } && !audit.success && result is Err),
        req.dry_run || p.meta.kind is Manual ==> step is ReloadPlan || (
        step matches RestoreStep::Finish { audit, result } && audit.success && result is Ok),
{
}

/// Plans follow the files exactly if files were changed; then, and at the end, everything that was found
/// out stands in the report.
pub proof fn law_plans_follow_changed_files(req: RestoreRequest, p: RestoreProgress, step: RestoreStep)
    requires
        settles(req, p, step),
    ensures
        step is ReloadPlan <==> req.revert_files && !req.dry_run,
        step matches RestoreStep::ReloadPlan(q) ==> q == p,
        !(step is ReloadPlan) ==> (step matches RestoreStep::Finish { audit, result } && audit.success && (
        result matches Ok(report) && report.changed_paths == p.changed_paths && report.restored_paths
            == p.restored_paths && report.warnings == p.warnings && report.summary == p.summary
            && report.meta == p.meta && report.reloaded_plan_id is None)),
{
}

/// The report of a restore is true: what was asked, what was found out and done, and that the conversation
/// was cut exactly if it was.
pub proof fn law_reports_are_true(
    req: RestoreRequest,
    p: RestoreProgress,
    reloaded: Option<String>,
    step: RestoreStep,
)
    requires
        succeeds(req, p, reloaded, step),
    ensures
        step is Finish,
        step->audit.success,
        step->result is Ok,
        step->result->Ok_0.changed_paths == p.changed_paths,
        step->result->Ok_0.restored_paths == p.restored_paths,
        step->result->Ok_0.warnings == p.warnings,
        step->result->Ok_0.summary == p.summary,
        step->result->Ok_0.meta == p.meta,
        step->result->Ok_0.dry_run == req.dry_run,
        step->result->Ok_0.revert_files == req.revert_files,
        step->result->Ok_0.reloaded_plan_id == reloaded,
        step->result->Ok_0.transcript_truncated <==> !req.dry_run && !(p.meta.kind is Manual),
{
}

/// The paths that are told as taken back are those that changed; if none did, those asked for; and if none
/// were, the whole tree.
pub proof fn law_restored_paths_are_told(p: RestorePrepared, files: RestoredFiles, q: RestoreProgress)
    requires
        is_file_progress(p, files, q),
    ensures
        files.changed_paths@.len() > 0 ==> texts(q.restored_paths@) == texts(files.changed_paths@)
            && texts(q.changed_paths@) == texts(files.changed_paths@),
        files.changed_paths@.len() == 0 && p.paths@.len() > 0 ==> texts(q.restored_paths@) == texts(
            p.paths@,
        ) && texts(q.changed_paths@) == texts(p.paths@),
        files.changed_paths@.len() == 0 && p.paths@.len() == 0 ==> texts(q.restored_paths@) == seq![
            seq!['.'],
        ] && q.changed_paths@.len() == 0,
        q.warnings == p.warnings,
        q.summary == files.summary,
        q.meta == p.meta,
{
    reveal_strlit(".");
    assert("."@ =~= seq!['.']);
    assert(texts(files.changed_paths@).len() == files.changed_paths@.len());
    assert(texts(p.paths@).len() == p.paths@.len());
    assert(texts(q.changed_paths@).len() == q.changed_paths@.len());
}

/// Every warning is printed, in full and on its own line, in the order of the warnings.
pub proof fn law_every_warning_is_printed(a: Seq<Seq<char>>, b: Seq<Seq<char>>, w: Seq<char>)
    ensures
        warning_text(a + b) == warning_text(a) + warning_text(b),
        warning_text(seq![w]) == "警告："@ + w + "\n"@,
        warning_text(Seq::empty()).len() == 0,
    decreases b.len(),
{
    if b.len() == 0 {
        assert(a + b =~= a);
        assert(warning_text(a) + warning_text(b) =~= warning_text(a));
    } else {
        law_every_warning_is_printed(a, b.drop_last(), w);
        assert((a + b).drop_last() =~= a + b.drop_last());
        assert((a + b).last() == b.last());
        assert(warning_text(a + b) =~= warning_text(a) + warning_text(b));
    }
    assert(seq![w].drop_last() =~= Seq::<Seq<char>>::empty());
    assert(warning_text(seq![w].drop_last()) =~= Seq::<char>::empty());
    assert(warning_text(seq![w]) =~= "警告："@ + w + "\n"@);
}

/// What is printed of a restore begins with its warnings, and then names the checkpoint and every path that
/// was taken back; a failure is printed as it is.
#[verifier::rlimit(40)]
#[verifier::spinoff_prover]
pub proof fn law_results_are_printed(id: Seq<char>, report: RestoreCoreReport, m: String, i: int)
    ensures
        crate::search::has_prefix(
            result_text(id, Ok(report)),
            warning_text(texts(report.warnings@)),
        ),
        crate::search::has_text(result_text(id, Ok(report)), id),
        !report.dry_run && 0 <= i < report.restored_paths@.len() ==> crate::search::has_text(
            result_text(id, Ok(report)),
            report.restored_paths@[i]@,
        ),
        report.dry_run ==> (report.summary matches Some(s) ==> crate::search::has_suffix(
            result_text(id, Ok(report)),
            s@,
        )),
        result_text(id, Err(m)) == m@ + "\n"@,
{
    let all = result_text(id, Ok(report));
    let head = warning_text(texts(report.warnings@));
    assert(all.subrange(0, head.len() as int) =~= head);
    crate::search::lemma_text_in_itself(id);
    if report.dry_run {
        let s = match report.summary {
            Some(s) => s@,
            None => "当前工作区与目标 checkpoint 无差异。\n"@,
        };
        crate::search::lemma_text_within(head + "dry-run: "@, id, "\n"@ + s, id);
        assert(all =~= (head + "dry-run: "@) + id + ("\n"@ + s));
        assert(all.subrange(all.len() - s.len(), all.len() as int) =~= s);
    } else {
        let end = match report.reloaded_plan_id {
            Some(p) => "plan_runtime 已对齐磁盘：EXEC plan_id="@ + p@ + "\n"@,
            None => Seq::empty(),
        };
        let front = head + "已恢复 checkpoint "@;
        if report.restored_paths@.len() == 0 {
            crate::search::lemma_text_within(front, id, "。\n"@ + end, id);
            assert(all =~= front + id + ("。\n"@ + end));
        } else {
            let ps = texts(report.restored_paths@);
            let list = joined(ps, ", "@);
            let back = "："@ + list + "\n"@ + end;
            crate::search::lemma_text_within(front, id, back, id);
            assert(all =~= front + id + back);
            if 0 <= i < report.restored_paths@.len() {
                assert(ps[i] == report.restored_paths@[i]@);
                crate::search::law_joined_holds_every_part(ps, ", "@, i);
                crate::search::lemma_text_within(front + id + "："@, list, "\n"@ + end, ps[i]);
                assert(all =~= (front + id + "："@) + list + ("\n"@ + end));
            }
        }
    }
}

/// A difference that says something is told as it is, and one that is blank or cannot be had is not.
pub proof fn law_differences_are_told(diff: Result<String, String>)
    ensures
        diff matches Ok(t) ==> (trimmed(t@).len() > 0 ==> summary_of(diff) == Some(t@)),
        diff matches Ok(t) ==> (trimmed(t@).len() == 0 ==> summary_of(diff) is None),
        diff is Err ==> summary_of(diff) is None,
{
}

/// A restore of the conversation alone tells the paths that the checkpoint notes, but takes none of them back
/// and warns of nothing.
pub proof fn law_talk_takes_no_files_back(
    meta: CheckpointMeta,
    summary: Option<Seq<char>>,
    p: RestoreProgress,
)
    requires
        is_talk_progress(meta, summary, p),
    ensures
        p.meta == meta,
        p.restored_paths@.len() == 0,
        p.warnings@.len() == 0,
        opt_text(p.summary) == summary,
        texts(p.changed_paths@) == texts(meta.noted_paths@).filter(
            |t: Seq<char>| trimmed(t).len() > 0,
        ),
{
    crate::commands::cmd_restore::law_noted_paths_are_restored_otherwise(texts(meta.noted_paths@));
}

/// A restore that fails says why, to the user and in the log, and never counts as done; if files were changed
/// before the conversation failed to follow, that is said too.
pub proof fn law_failures_say_why(req: RestoreRequest, error: Seq<char>, step: RestoreStep)
    requires
        transcript_fails(req, error, step),
    ensures
        step is Finish,
        !step->audit.success,
        step->result is Err,
        crate::search::has_suffix(step->result->Err_0@, error),
        crate::search::has_suffix(step->audit.detail@, error),
        req.revert_files ==> crate::search::has_prefix(step->audit.detail@, "restore applied"@),
        !req.revert_files ==> crate::search::has_prefix(step->audit.detail@, "transcript-only"@),
{
    let m = step->result->Err_0@;
    let d = step->audit.detail@;
    assert(m.subrange(m.len() - error.len(), m.len() as int) =~= error);
    assert(d.subrange(d.len() - error.len(), d.len() as int) =~= error);
    if req.revert_files {
        reveal_strlit("restore applied");
        reveal_strlit("restore applied but transcript finalize failed: ");
        let s = "restore applied but transcript finalize failed: "@;
        assert(s.subrange(0, 15) =~= "restore applied"@);
        assert(d.subrange(0, 15) =~= s.subrange(0, 15));
    } else {
        reveal_strlit("transcript-only");
        reveal_strlit("transcript-only restore failed: ");
        let s = "transcript-only restore failed: "@;
        assert(s.subrange(0, 15) =~= "transcript-only"@);
        assert(d.subrange(0, 15) =~= s.subrange(0, 15));
    }
}

/// The log of a restore that went through names the checkpoint, what was asked, and the paths that were taken
/// back, or else those that the checkpoint changed.
#[verifier::rlimit(40)]
#[verifier::spinoff_prover]
pub proof fn law_log_names_the_paths(req: RestoreRequest, p: RestoreProgress, i: int)
    ensures
        crate::search::has_prefix(success_detail(req, p), "restore "@ + req.checkpoint_id@ + " kind="@),
        0 <= i < p.restored_paths@.len() ==> crate::search::has_text(
            success_detail(req, p),
            p.restored_paths@[i]@,
        ),
        p.restored_paths@.len() == 0 && 0 <= i < p.changed_paths@.len() ==> crate::search::has_text(
            success_detail(req, p),
            p.changed_paths@[i]@,
        ),
{
    let all = success_detail(req, p);
    let head = "restore "@ + req.checkpoint_id@ + " kind="@;
    assert(all.subrange(0, head.len() as int) =~= head);
    let ps = if p.restored_paths@.len() == 0 {
        texts(p.changed_paths@)
    } else {
        texts(p.restored_paths@)
    };
    let list = joined(ps, ","@);
    let front = head + kind_label(p.meta.kind) + " revert_files="@ + bool_text(req.revert_files)
        + " dry_run="@ + bool_text(req.dry_run) + " paths="@;
    assert(all =~= front + list + Seq::<char>::empty());
    if 0 <= i < ps.len() {
        crate::search::law_joined_holds_every_part(ps, ","@, i);
        crate::search::lemma_text_within(front, list, Seq::empty(), ps[i]);
    }
}

} // verus!
