//! The tool `update_plan`: changes the todos and the milestones of a plan.

use vstd::prelude::*;
use vstd::string::*;

use crate::plan_runtime::file_store::{
    copy_todos, Milestone, PlanFile, PlanFileFrontmatter, PlanFileMode, TodoItem, TodoStatus,
};
#[allow(unused_imports)]
use crate::plan_runtime::file_store::{todos_view, Todo};
use crate::plan_runtime::mode::{PlanMode, PlanRuntime};
use crate::plan_runtime::ops::{active_in_progress, all_completed, apply_todos_ops, TodoOp};
#[allow(unused_imports)]
use crate::plan_runtime::ops::{is_all_completed, running_id, updated, Refusal};
#[allow(unused_imports)]
use crate::plan_runtime::tools::Fault;
use crate::plan_runtime::tools::ToolError;
use crate::text::{cat, cat5, copy_opt, copy_texts, same};
#[allow(unused_imports)]
use crate::text::{opt_text, texts};

verus! {

/// What the tool is called with.
#[derive(Clone, Debug, PartialEq, Eq)]
pub struct UpdatePlanArgs {
    pub plan_id: Option<String>,
    pub ops: Vec<UpdateOp>,
    pub milestones_ops: Vec<MilestoneOp>,
}

/// One change to the todos that is asked for.
#[derive(Clone, Debug, PartialEq, Eq)]
pub enum UpdateOp {
    AddTodo { id: String, content: String, status: TodoStatus, milestone_id: Option<String> },
    SetStatus { id: String, status: TodoStatus },
    SetContent { id: String, content: String },
    SetMilestone { id: String, milestone_id: Option<String> },
    RemoveTodo { id: String },
}

/// One change to the milestones that is asked for.
#[derive(Clone, Debug, PartialEq, Eq)]
pub enum MilestoneOp {
    Add { id: String, title: String, todo_ids: Vec<String> },
    SetTitle { id: String, title: String },
    SetTodoIds { id: String, todo_ids: Vec<String> },
    Remove { id: String },
}

// ---------------------------------------------------------------- which plan

/// The plan that a call is about: the one that it names, else the one that is worked on or waits,
/// else the one that was drafted last.
pub open spec fn target_plan(runtime: PlanRuntime, named: Option<Seq<char>>) -> Option<Seq<char>> {
    match named {
        Some(id) => Some(id),
        None => match runtime.mode {
            PlanMode::Executing { plan_id } => Some(plan_id@),
            PlanMode::Pending { plan_id } => Some(plan_id@),
            _ => opt_text(runtime.active_planning_plan_id),
        },
    }
}

/// The plan that a call is about.
pub fn resolve_target_plan_id(runtime: &PlanRuntime, explicit: Option<String>) -> (r: Result<
    String,
    ToolError,
>)
    ensures
        match r {
            Ok(id) => target_plan(*runtime, opt_text(explicit)) == Some(id@),
            Err(e) => target_plan(*runtime, opt_text(explicit)) is None && e@ == Fault::BadArgs(
                "update_plan 需要 plan_id；当前模式无 active plan"@,
            ),
        },
{
    if let Some(id) = explicit {
        return Ok(id);
    }
    match &runtime.mode {
        PlanMode::Executing { plan_id } => {
            return Ok(plan_id.clone());
        },
        PlanMode::Pending { plan_id } => {
            return Ok(plan_id.clone());
        },
        _ => {},
    }
    if let Some(id) = &runtime.active_planning_plan_id {
        return Ok(id.clone());
    }
    Err(
        ToolError::BadArgs(
            "update_plan 需要 plan_id；当前模式无 active plan".to_owned(),
        ),
    )
}

/// The session that works on a plan; no text if none does.
pub open spec fn owner(fm: PlanFileFrontmatter) -> Seq<char> {
    match fm.session_key {
        Some(k) => k@,
        None => ""@,
    }
}

/// Whether a session may write a plan: one that is worked on belongs to the session that does.
pub open spec fn may_write(session: Seq<char>, fm: PlanFileFrontmatter) -> bool {
    fm.mode is Executing ==> owner(fm) == session
}

/// Whether a session may write a plan.
pub fn enforce_cross_session_policy(runtime: &PlanRuntime, fm: &PlanFileFrontmatter) -> (r: Result<
    (),
    ToolError,
>)
    ensures
        match r {
            Ok(_) => may_write(runtime.session_key@, *fm),
            Err(e) => !may_write(runtime.session_key@, *fm) && e@ == Fault::CrossSessionDenied(
                "plan "@ + fm.plan_id@ + " 当前由 session "@ + owner(*fm)
                    + " 在 EXEC，本 session "@ + runtime.session_key@ + " 不能写入"@,
            ),
        },
{
    if fm.mode != PlanFileMode::Executing {
        return Ok(());
    }
    let owner_key: &str = match &fm.session_key {
        Some(k) => k.as_str(),
        None => "",
    };
    if !same(owner_key, runtime.session_key.as_str()) {
        let mut m = cat5(
            "plan ",
            fm.plan_id.as_str(),
            " 当前由 session ",
            owner_key,
            " 在 EXEC，本 session ",
        );
        m.append(runtime.session_key.as_str());
        m.append(" 不能写入");
        return Err(ToolError::CrossSessionDenied(m));
    }
    Ok(())
}

// ---------------------------------------------------------------- todos

/// The change that is asked for.
pub open spec fn todo_op(arg: UpdateOp) -> TodoOp {
    match arg {
        UpdateOp::AddTodo { id, content, status, milestone_id } => TodoOp::AddTodo(
            TodoItem { id, content, status, milestone_id },
        ),
        UpdateOp::SetStatus { id, status } => TodoOp::SetStatus { id, status },
        UpdateOp::SetContent { id, content } => TodoOp::SetContent { id, content },
        UpdateOp::SetMilestone { id, milestone_id } => TodoOp::SetMilestone { id, milestone_id },
        UpdateOp::RemoveTodo { id } => TodoOp::RemoveTodo { id },
    }
}

/// The changes that are asked for.
pub open spec fn todo_ops(ops: Seq<UpdateOp>) -> Seq<TodoOp> {
    ops.map_values(|a: UpdateOp| todo_op(a))
}

fn to_op(arg: &UpdateOp) -> (r: TodoOp)
    ensures
        r == todo_op(*arg),
{
    match arg {
        UpdateOp::AddTodo { id, content, status, milestone_id } => TodoOp::AddTodo(
            TodoItem {
                id: id.clone(),
                content: content.clone(),
                status: *status,
                milestone_id: copy_opt(milestone_id),
            },
        ),
        UpdateOp::SetStatus { id, status } => TodoOp::SetStatus {
            id: id.clone(),
            status: *status,
        },
        UpdateOp::SetContent { id, content } => TodoOp::SetContent {
            id: id.clone(),
            content: content.clone(),
        },
        UpdateOp::SetMilestone { id, milestone_id } => TodoOp::SetMilestone {
            id: id.clone(),
            milestone_id: copy_opt(milestone_id),
        },
        UpdateOp::RemoveTodo { id } => TodoOp::RemoveTodo { id: id.clone() },
    }
}

fn to_ops(args: &Vec<UpdateOp>) -> (r: Vec<TodoOp>)
    ensures
        r@ == todo_ops(args@),
{
    let mut out: Vec<TodoOp> = Vec::new();
    let mut i: usize = 0;
    while i < args.len()
        invariant
            i <= args@.len(),
            out@ == todo_ops(args@).take(i as int),
        decreases args@.len() - i,
    {
        out.push(to_op(&args[i]));
        assert(todo_ops(args@).take(i + 1) =~= todo_ops(args@).take(i as int).push(
            todo_ops(args@)[i as int],
        ));
        i = i + 1;
    }
    assert(todo_ops(args@).take(i as int) =~= todo_ops(args@));
    out
}

// ---------------------------------------------------------------- milestones

/// A milestone, as mathematics.
pub ghost struct Stone {
    pub id: Seq<char>,
    pub title: Seq<char>,
    pub todo_ids: Seq<Seq<char>>,
}

impl View for Milestone {
    type V = Stone;

    open spec fn view(&self) -> Stone {
        Stone { id: self.id@, title: self.title@, todo_ids: texts(self.todo_ids@) }
    }
}

/// The milestones of a list.
pub open spec fn stones(v: Seq<Milestone>) -> Seq<Stone> {
    v.map_values(|m: Milestone| m@)
}

/// The place of an id in a list; the length of the list if it is not there.
pub open spec fn stone_place(list: Seq<Stone>, id: Seq<char>, from: int) -> int
    decreases list.len() - from,
{
    if from >= list.len() {
        list.len() as int
    } else if list[from].id == id {
        from
    } else {
        stone_place(list, id, from + 1)
    }
}

/// The list without the milestones that have an id.
pub open spec fn without(list: Seq<Stone>, id: Seq<char>) -> Seq<Stone>
    decreases list.len(),
{
    if list.len() == 0 {
        Seq::empty()
    } else if list.last().id == id {
        without(list.drop_last(), id)
    } else {
        without(list.drop_last(), id).push(list.last())
    }
}

/// The error for an id that is not there.
pub open spec fn no_such_stone(id: Seq<char>) -> Fault {
    Fault::BadArgs("milestone 不存在: "@ + id)
}

/// The list after one change, or why the change is refused.
pub open spec fn stone_changed(list: Seq<Stone>, op: MilestoneOp) -> Result<Seq<Stone>, Fault> {
    match op {
        MilestoneOp::Add { id, title, todo_ids } => if stone_place(list, id@, 0) < list.len() {
            Err(Fault::BadArgs("milestone id 重复: "@ + id@))
        } else {
            Ok(list.push(Stone { id: id@, title: title@, todo_ids: texts(todo_ids@) }))
        },
        MilestoneOp::SetTitle { id, title } => {
            let i = stone_place(list, id@, 0);
            if i < list.len() {
                Ok(list.update(i, Stone { title: title@, ..list[i] }))
            } else {
                Err(no_such_stone(id@))
            }
        },
        MilestoneOp::SetTodoIds { id, todo_ids } => {
            let i = stone_place(list, id@, 0);
            if i < list.len() {
                Ok(list.update(i, Stone { todo_ids: texts(todo_ids@), ..list[i] }))
            } else {
                Err(no_such_stone(id@))
            }
        },
        MilestoneOp::Remove { id } => if without(list, id@).len() == list.len() {
            Err(no_such_stone(id@))
        } else {
            Ok(without(list, id@))
        },
    }
}

/// The list after all changes, one after the other; the first that is refused decides.
pub open spec fn stones_changed(list: Seq<Stone>, ops: Seq<MilestoneOp>) -> Result<
    Seq<Stone>,
    Fault,
>
    decreases ops.len(),
{
    if ops.len() == 0 {
        Ok(list)
    } else {
        match stones_changed(list, ops.drop_last()) {
            Ok(before) => stone_changed(before, ops.last()),
            Err(e) => Err(e),
        }
    }
}

proof fn lemma_refusal_stays(list: Seq<Stone>, ops: Seq<MilestoneOp>, n: int, e: Fault)
    requires
        0 <= n <= ops.len(),
        stones_changed(list, ops.take(n)) == Err::<Seq<Stone>, Fault>(e),
    ensures
        stones_changed(list, ops) == Err::<Seq<Stone>, Fault>(e),
    decreases ops.len() - n,
{
    if n == ops.len() {
        assert(ops.take(n) =~= ops);
    } else {
        assert(ops.take(n + 1).drop_last() =~= ops.take(n));
        lemma_refusal_stays(list, ops, n + 1, e);
    }
}

fn copy_stone(m: &Milestone) -> (r: Milestone)
    ensures
        r@ == m@,
{
    Milestone {
        id: m.id.clone(),
        title: m.title.clone(),
        todo_ids: copy_texts(&m.todo_ids),
    }
}

fn find_stone(list: &Vec<Milestone>, id: &str) -> (r: usize)
    ensures
        r == stone_place(stones(list@), id@, 0),
        r <= list@.len(),
{
    let ghost all = stones(list@);
    let mut i: usize = 0;
    while i < list.len()
        invariant
            i <= list@.len(),
            all == stones(list@),
            stone_place(all, id@, i as int) == stone_place(all, id@, 0),
        decreases list@.len() - i,
    {
        assert(all[i as int] == list@[i as int]@);
        if same(list[i].id.as_str(), id) {
            return i;
        }
        i = i + 1;
    }
    i
}

fn drop_stones(list: &Vec<Milestone>, id: &str) -> (r: Vec<Milestone>)
    ensures
        stones(r@) == without(stones(list@), id@),
{
    let ghost all = stones(list@);
    let mut out: Vec<Milestone> = Vec::new();
    let mut i: usize = 0;
    assert(stones(out@) =~= without(all.take(0), id@));
    while i < list.len()
        invariant
            i <= list@.len(),
            all == stones(list@),
            stones(out@) == without(all.take(i as int), id@),
        decreases list@.len() - i,
    {
        assert(all.take(i + 1).drop_last() =~= all.take(i as int));
        assert(all.take(i + 1).last() == list@[i as int]@);
        if !same(list[i].id.as_str(), id) {
            let ghost before = stones(out@);
            let m = copy_stone(&list[i]);
            out.push(m);
            assert(stones(out@) =~= before.push(m@));
        }
        i = i + 1;
    }
    assert(all.take(all.len() as int) =~= all);
    out
}

fn apply_milestone_op(list: &mut Vec<Milestone>, op: &MilestoneOp) -> (r: Result<(), ToolError>)
    ensures
        match r {
            Ok(_) => stone_changed(stones(old(list)@), *op) == Ok::<Seq<Stone>, Fault>(
                stones(final(list)@),
            ),
            Err(e) => stone_changed(stones(old(list)@), *op) == Err::<Seq<Stone>, Fault>(e@)
                && final(list)@ == old(list)@,
        },
{
    let ghost all = stones(list@);
    match op {
        MilestoneOp::Add { id, title, todo_ids } => {
            if find_stone(list, id.as_str()) < list.len() {
                return Err(ToolError::BadArgs(cat("milestone id 重复: ", id.as_str())));
            }
            let m = Milestone {
                id: id.clone(),
                title: title.clone(),
                todo_ids: copy_texts(todo_ids),
            };
            list.push(m);
            assert(stones(list@) =~= all.push(m@));
        },
        MilestoneOp::SetTitle { id, title } => {
            let i = find_stone(list, id.as_str());
            if i >= list.len() {
                return Err(ToolError::BadArgs(cat("milestone 不存在: ", id.as_str())));
            }
            let mut m = copy_stone(&list[i]);
            m.title = title.clone();
            list.set(i, m);
            assert(stones(list@) =~= all.update(
                i as int,
                Stone { title: title@, ..all[i as int] },
            ));
        },
        MilestoneOp::SetTodoIds { id, todo_ids } => {
            let i = find_stone(list, id.as_str());
            if i >= list.len() {
                return Err(ToolError::BadArgs(cat("milestone 不存在: ", id.as_str())));
            }
            let mut m = copy_stone(&list[i]);
            m.todo_ids = copy_texts(todo_ids);
            list.set(i, m);
            assert(stones(list@) =~= all.update(
                i as int,
                Stone { todo_ids: texts(todo_ids@), ..all[i as int] },
            ));
        },
        MilestoneOp::Remove { id } => {
            let left = drop_stones(list, id.as_str());
            assert(stones(left@).len() == left@.len());
            if left.len() == list.len() {
                return Err(ToolError::BadArgs(cat("milestone 不存在: ", id.as_str())));
            }
            *list = left;
        },
    }
    Ok(())
}

/// Applies the changes to the milestones, one after the other, up to the first that is refused; the
/// changes before that one stay.
pub fn apply_milestone_ops(milestones: &mut Vec<Milestone>, ops: &Vec<MilestoneOp>) -> (r: Result<
    (),
    ToolError,
>)
    ensures
        match r {
            Ok(_) => stones_changed(stones(old(milestones)@), ops@) == Ok::<Seq<Stone>, Fault>(
                stones(final(milestones)@),
            ),
            Err(e) => {
                &&& stones_changed(stones(old(milestones)@), ops@) == Err::<Seq<Stone>, Fault>(e@)
                &&& exists|n: int|
                    0 <= n < ops@.len() && stones_changed(
                        stones(old(milestones)@),
                        #[trigger] ops@.take(n),
                    ) == Ok::<Seq<Stone>, Fault>(stones(final(milestones)@)) && stones_changed(
                        stones(old(milestones)@),
                        ops@.take(n + 1),
                    ) is Err
            },
        },
{
    let ghost start = stones(milestones@);
    let mut i: usize = 0;
    while i < ops.len()
        invariant
            i <= ops@.len(),
            start == stones(old(milestones)@),
            stones_changed(start, ops@.take(i as int)) == Ok::<Seq<Stone>, Fault>(
                stones(milestones@),
            ),
        decreases ops@.len() - i,
    {
        assert(ops@.take(i + 1).drop_last() =~= ops@.take(i as int));
        if let Err(e) = apply_milestone_op(milestones, &ops[i]) {
            proof {
                lemma_refusal_stays(start, ops@, i + 1, e@);
            }
            return Err(e);
        }
        i = i + 1;
    }
    assert(ops@.take(ops@.len() as int) =~= ops@);
    Ok(())
}

// ---------------------------------------------------------------- the whole call

/// What the tool answers.
#[derive(Clone, Debug, PartialEq, Eq)]
pub struct UpdatePlanOutcome {
    pub plan_id: String,
    /// How many todos the plan has now.
    pub applied: usize,
    pub plan_mode_before: String,
    pub plan_mode_after: String,
    pub active_in_progress: Option<String>,
    pub items: Vec<TodoItem>,
    pub milestones: Vec<Milestone>,
}

/// Why a call is refused, or nothing if it is not.
pub open spec fn refusal(session: Seq<char>, plan: PlanFile, args: UpdatePlanArgs) -> Option<Fault> {
    let fm = plan.frontmatter;
    if !may_write(session, fm) {
        Some(
            Fault::CrossSessionDenied(
                "plan "@ + fm.plan_id@ + " 当前由 session "@ + owner(fm) + " 在 EXEC，本 session "@
                    + session + " 不能写入"@,
            ),
        )
    } else {
        match updated(todos_view(fm.todos@), todo_ops(args.ops@)) {
            Err(e) => Some(Fault::Op(e)),
            Ok(_) => match stones_changed(stones(fm.milestones@), args.milestones_ops@) {
                Err(e) => Some(e),
                Ok(_) => None,
            },
        }
    }
}

/// Whether a plan is done by its todos: it is being worked on, and all of them are done.
pub open spec fn gets_done(before: PlanFile, todos: Seq<TodoItem>) -> bool {
    before.frontmatter.mode is Executing && is_all_completed(todos)
}

/// Whether `after` is the plan `before` with the changes that are asked for, and no others: done
/// if its todos are.
pub open spec fn is_updated(before: PlanFile, after: PlanFile, args: UpdatePlanArgs) -> bool {
    &&& updated(todos_view(before.frontmatter.todos@), todo_ops(args.ops@)) == Ok::<
        Seq<Todo>,
        Refusal,
    >(todos_view(after.frontmatter.todos@))
    &&& stones_changed(stones(before.frontmatter.milestones@), args.milestones_ops@) == Ok::<
        Seq<Stone>,
        Fault,
    >(stones(after.frontmatter.milestones@))
    &&& after.body == before.body
    &&& after.frontmatter == (PlanFileFrontmatter {
        todos: after.frontmatter.todos,
        milestones: after.frontmatter.milestones,
        mode: if gets_done(before, after.frontmatter.todos@) {
            PlanFileMode::Completed
        } else {
            before.frontmatter.mode
        },
        ..before.frontmatter
    })
}

fn copy_stones(list: &Vec<Milestone>) -> (r: Vec<Milestone>)
    ensures
        stones(r@) == stones(list@),
{
    let ghost all = stones(list@);
    let mut out: Vec<Milestone> = Vec::new();
    let mut i: usize = 0;
    assert(stones(out@) =~= all.take(0));
    while i < list.len()
        invariant
            i <= list@.len(),
            all == stones(list@),
            stones(out@) == all.take(i as int),
        decreases list@.len() - i,
    {
        let ghost before = stones(out@);
        let m = copy_stone(&list[i]);
        out.push(m);
        assert(stones(out@) =~= before.push(m@));
        assert(all.take(i + 1) =~= all.take(i as int).push(all[i as int]));
        i = i + 1;
    }
    assert(all.take(all.len() as int) =~= all);
    out
}

/// Changes a plan as asked: the plan to be written and the answer, or why not.
pub fn execute(runtime: &PlanRuntime, target: &str, plan: PlanFile, args: &UpdatePlanArgs) -> (r:
    Result<(PlanFile, UpdatePlanOutcome), ToolError>)
    ensures
        match r {
            Ok(p) => {
                &&& refusal(runtime.session_key@, plan, *args) is None
                &&& is_updated(plan, p.0, *args)
                &&& p.1.plan_id@ == target@
                &&& p.1.applied == p.0.frontmatter.todos@.len()
                &&& p.1.plan_mode_before@
                    == crate::plan_runtime::file_store::file_mode_word(plan.frontmatter.mode)
                &&& p.1.plan_mode_after@
                    == crate::plan_runtime::file_store::file_mode_word(p.0.frontmatter.mode)
                &&& opt_text(p.1.active_in_progress) == running_id(p.0.frontmatter.todos@)
                &&& p.1.items@ == p.0.frontmatter.todos@
                &&& stones(p.1.milestones@) == stones(p.0.frontmatter.milestones@)
            },
            Err(e) => refusal(runtime.session_key@, plan, *args) == Some(e@),
        },
{
    if let Err(e) = enforce_cross_session_policy(runtime, &plan.frontmatter) {
        return Err(e);
    }
    let before = plan.frontmatter.mode;
    let ops = to_ops(&args.ops);
    let mut changed = plan;
    if let Err(e) = apply_todos_ops(&mut changed.frontmatter.todos, &ops) {
        return Err(ToolError::Op(e));
    }
    if let Err(e) = apply_milestone_ops(
        &mut changed.frontmatter.milestones,
        &args.milestones_ops,
    ) {
        return Err(e);
    }
    if before == PlanFileMode::Executing && all_completed(&changed.frontmatter.todos) {
        changed.frontmatter.mode = PlanFileMode::Completed;
    }
    let outcome = UpdatePlanOutcome {
        plan_id: target.to_owned(),
        applied: changed.frontmatter.todos.len(),
        plan_mode_before: before.as_str().to_owned(),
        plan_mode_after: changed.frontmatter.mode.as_str().to_owned(),
        active_in_progress: active_in_progress(&changed.frontmatter.todos),
        items: copy_todos(&changed.frontmatter.todos),
        milestones: copy_stones(&changed.frontmatter.milestones),
    };
    Ok((changed, outcome))
}

/// After the plan is written: a plan that was worked on and is done now takes the session out of
/// the work.
pub fn written(runtime: &mut PlanRuntime, target: &str, before: PlanFileMode, after: &PlanFile)
    ensures
        if before is Executing && after.frontmatter.mode is Completed {
            final(runtime).mode matches PlanMode::Completed { plan_id } && plan_id@ == target@
                && *final(runtime) == (PlanRuntime { mode: final(runtime).mode, ..*old(runtime) })
        } else {
            *final(runtime) == *old(runtime)
        },
{
    if before == PlanFileMode::Executing && after.frontmatter.mode == PlanFileMode::Completed {
        runtime.set_mode_completed(target.to_owned());
    }
}

// ---------------------------------------------------------------- laws

/// Whether no id stands twice among milestones.
pub open spec fn distinct_stones(list: Seq<Stone>) -> bool {
    forall|i: int, j: int|
        0 <= i < j < list.len() ==> (#[trigger] list[i]).id != (#[trigger] list[j]).id
}

proof fn lemma_stone_place(list: Seq<Stone>, id: Seq<char>, from: int)
    requires
        0 <= from <= list.len(),
    ensures
        from <= stone_place(list, id, from) <= list.len(),
        stone_place(list, id, from) < list.len() ==> list[stone_place(list, id, from)].id == id,
        forall|j: int| from <= j < stone_place(list, id, from) ==> (#[trigger] list[j]).id != id,
    decreases list.len() - from,
{
    if from < list.len() && list[from].id != id {
        lemma_stone_place(list, id, from + 1);
    }
}

proof fn lemma_without(list: Seq<Stone>, id: Seq<char>)
    requires
        distinct_stones(list),
    ensures
        distinct_stones(without(list, id)),
        forall|k: int|
            0 <= k < without(list, id).len() ==> (#[trigger] without(list, id)[k]).id != id
                && exists|j: int| 0 <= j < list.len() && list[j] == without(list, id)[k],
    decreases list.len(),
{
    if list.len() > 0 {
        let front = list.drop_last();
        assert(distinct_stones(front)) by {
            assert forall|i: int, j: int| 0 <= i < j < front.len() implies (#[trigger] front[i]).id
                != (#[trigger] front[j]).id by {
                assert(front[i] == list[i] && front[j] == list[j]);
            }
        }
        lemma_without(front, id);
        let rest = without(front, id);
        let all = without(list, id);
        assert forall|k: int| 0 <= k < rest.len() implies exists|j: int|
            0 <= j < list.len() - 1 && #[trigger] list[j] == #[trigger] rest[k] by {
            let j = choose|j: int| 0 <= j < front.len() && front[j] == rest[k];
            assert(list[j] == rest[k]);
        }
        assert forall|k: int| 0 <= k < all.len() implies (#[trigger] all[k]).id != id && exists|j: int|
            0 <= j < list.len() && list[j] == all[k] by {
            if k < rest.len() {
                assert(all[k] == rest[k]);
                let j = choose|j: int| 0 <= j < list.len() - 1 && #[trigger] list[j] == rest[k];
                assert(list[j] == all[k]);
            } else {
                assert(all[k] == list[list.len() - 1]);
            }
        }
        assert forall|i: int, j: int| 0 <= i < j < all.len() implies (#[trigger] all[i]).id != (
        #[trigger] all[j]).id by {
            assert(all[i] == rest[i]);
            if j < rest.len() {
                assert(all[j] == rest[j]);
            } else {
                let a = choose|a: int| 0 <= a < list.len() - 1 && #[trigger] list[a] == rest[i];
                assert(all[j] == list[list.len() - 1]);
            }
        }
    }
}

/// Changes never let an id stand twice among the milestones.
pub proof fn law_milestone_ids_stay_distinct(list: Seq<Stone>, ops: Seq<MilestoneOp>)
    requires
        distinct_stones(list),
    ensures
        stones_changed(list, ops) matches Ok(after) ==> distinct_stones(after),
    decreases ops.len(),
{
    if ops.len() > 0 {
        law_milestone_ids_stay_distinct(list, ops.drop_last());
        if let Ok(before) = stones_changed(list, ops.drop_last()) {
            match ops.last() {
                MilestoneOp::Add { id, .. } => {
                    lemma_stone_place(before, id@, 0);
                },
                MilestoneOp::SetTitle { id, .. } => {
                    lemma_stone_place(before, id@, 0);
                },
                MilestoneOp::SetTodoIds { id, .. } => {
                    lemma_stone_place(before, id@, 0);
                },
                MilestoneOp::Remove { id } => {
                    lemma_without(before, id@);
                },
            }
        }
    }
}

/// A changed plan keeps its id, goal, owner, version and body, and its mode changes only where a plan
/// that is worked on gets done.
pub proof fn law_updates_leave_the_rest(before: PlanFile, after: PlanFile, args: UpdatePlanArgs)
    requires
        is_updated(before, after, args),
    ensures
        after.frontmatter.plan_id == before.frontmatter.plan_id,
        after.frontmatter.goal == before.frontmatter.goal,
        after.frontmatter.session_key == before.frontmatter.session_key,
        after.frontmatter.schema_version == before.frontmatter.schema_version,
        after.body == before.body,
        after.frontmatter.mode != before.frontmatter.mode ==> before.frontmatter.mode is Executing
            && after.frontmatter.mode is Completed,
{
}

/// The id that a change of milestones names.
pub open spec fn stone_named(op: MilestoneOp) -> Seq<char> {
    match op {
        MilestoneOp::Add { id, .. } => id@,
        MilestoneOp::SetTitle { id, .. } => id@,
        MilestoneOp::SetTodoIds { id, .. } => id@,
        MilestoneOp::Remove { id } => id@,
    }
}

/// The milestones of a list that have another id.
pub open spec fn other_stones(list: Seq<Stone>, id: Seq<char>) -> Seq<Stone> {
    list.filter(|m: Stone| m.id != id)
}

/// Whether a milestone of a list has an id.
pub open spec fn has_stone(list: Seq<Stone>, id: Seq<char>) -> bool {
    exists|i: int| 0 <= i < list.len() && (#[trigger] list[i]).id == id
}

#[verifier::rlimit(40)]
#[verifier::spinoff_prover]
proof fn lemma_stones_around(a: Seq<Stone>, m: Stone, b: Seq<Stone>, id: Seq<char>)
    requires
        m.id == id,
    ensures
        other_stones(a + seq![m] + b, id) == other_stones(a, id) + other_stones(b, id),
        other_stones(a + b, id) == other_stones(a, id) + other_stones(b, id),
{
    let p = |m: Stone| m.id != id;
    Seq::filter_distributes_over_add(a + seq![m], b, p);
    Seq::filter_distributes_over_add(a, seq![m], p);
    Seq::filter_distributes_over_add(a, b, p);
    reveal(Seq::filter);
    assert(seq![m].drop_last() =~= Seq::<Stone>::empty());
    assert(Seq::<Stone>::empty().filter(p) =~= Seq::<Stone>::empty());
    assert(seq![m].filter(p) =~= Seq::<Stone>::empty());
    assert(a.filter(p) + Seq::<Stone>::empty() =~= a.filter(p));
}

proof fn lemma_stone_found(list: Seq<Stone>, id: Seq<char>)
    ensures
        0 <= stone_place(list, id, 0) <= list.len(),
        stone_place(list, id, 0) < list.len() <==> has_stone(list, id),
        stone_place(list, id, 0) < list.len() ==> list[stone_place(list, id, 0)].id == id,
{
    lemma_stone_place(list, id, 0);
    let k = stone_place(list, id, 0);
    if k < list.len() {
        assert(has_stone(list, id));
    }
    if has_stone(list, id) {
        let i = choose|i: int| 0 <= i < list.len() && (#[trigger] list[i]).id == id;
        assert(i >= k);
    }
}

/// Without a milestone, the others stay: all that have another id, in order, and nothing else.
pub proof fn law_without_keeps_the_others(list: Seq<Stone>, id: Seq<char>)
    ensures
        without(list, id) == other_stones(list, id),
        !has_stone(without(list, id), id),
        without(list, id).len() == list.len() <==> !has_stone(list, id),
        without(list, id).len() <= list.len(),
        other_stones(without(list, id), id) == without(list, id),
    decreases list.len(),
{
    reveal(Seq::filter);
    if list.len() > 0 {
        let front = list.drop_last();
        law_without_keeps_the_others(front, id);
        let rest = without(front, id);
        let all = without(list, id);
        if has_stone(front, id) {
            let i = choose|i: int| 0 <= i < front.len() && (#[trigger] front[i]).id == id;
            assert(list[i].id == id);
        }
        if list.last().id == id {
            assert(list[list.len() - 1].id == id);
        } else {
            assert(all.drop_last() =~= rest);
            if has_stone(all, id) {
                let i = choose|i: int| 0 <= i < all.len() && (#[trigger] all[i]).id == id;
                assert(rest[i].id == id);
            }
            if has_stone(list, id) {
                let i = choose|i: int| 0 <= i < list.len() && (#[trigger] list[i]).id == id;
                assert(front[i].id == id);
            }
        }
    }
}

/// A change touches the milestone that it names and no other: all with another id are still there,
/// unchanged and in the same order.
#[verifier::rlimit(40)]
#[verifier::spinoff_prover]
pub proof fn law_milestone_changes_leave_the_others(list: Seq<Stone>, op: MilestoneOp)
    ensures
        stone_changed(list, op) matches Ok(after) ==> other_stones(after, stone_named(op))
            == other_stones(list, stone_named(op)),
{
    let id = stone_named(op);
    if let Ok(after) = stone_changed(list, op) {
        if op is Remove {
            law_without_keeps_the_others(list, id);
        } else if op is Add {
            lemma_stones_around(list, after.last(), Seq::empty(), id);
            assert(after =~= list + seq![after.last()] + Seq::empty());
            assert(list + Seq::empty() =~= list);
        } else {
            lemma_stone_found(list, id);
            let k = stone_place(list, id, 0);
            let a = list.take(k);
            let b = list.skip(k + 1);
            assert(list =~= a + seq![list[k]] + b);
            lemma_stones_around(a, list[k], b, id);
            assert(after =~= a + seq![after[k]] + b);
            assert(after[k].id == id);
            lemma_stones_around(a, after[k], b, id);
        }
    }
}

/// A change is refused exactly if its milestone is there already, for a new one, or is not there, for
/// any other change.
pub proof fn law_milestone_changes_need_their_milestone(list: Seq<Stone>, op: MilestoneOp)
    ensures
        op is Add ==> (stone_changed(list, op) is Ok <==> !has_stone(list, stone_named(op))),
        !(op is Add) ==> (stone_changed(list, op) is Ok <==> has_stone(list, stone_named(op))),
        stone_changed(list, op) matches Err(e) ==> e == Fault::BadArgs(
            (if op is Add {
                "milestone id 重复: "@
            } else {
                "milestone 不存在: "@
            }) + stone_named(op),
        ),
{
    lemma_stone_found(list, stone_named(op));
    law_without_keeps_the_others(list, stone_named(op));
}

/// A new milestone goes to the end of the list as it is given; a removed one is gone; setting one thing
/// of a milestone sets it, and leaves its place and everything else of it: `k` is where it stands.
pub proof fn law_milestone_changes_do_what_they_say(list: Seq<Stone>, op: MilestoneOp, k: int)
    requires
        distinct_stones(list),
        stone_changed(list, op) is Ok,
        0 <= k < list.len() && list[k].id == stone_named(op) || op is Add,
    ensures
        ({
            let after = stone_changed(list, op)->Ok_0;
            match op {
                MilestoneOp::Add { id, title, todo_ids } => after.len() == list.len() + 1
                    && after.last().id == id@ && after.last().title == title@
                    && after.last().todo_ids == texts(todo_ids@) && after.take(list.len() as int)
                    == list,
                MilestoneOp::Remove { id } => !has_stone(after, id@),
                MilestoneOp::SetTitle { title, .. } => after.len() == list.len() && after[k].id
                    == list[k].id && after[k].title == title@ && after[k].todo_ids
                    == list[k].todo_ids,
                MilestoneOp::SetTodoIds { todo_ids, .. } => after.len() == list.len() && after[k].id
                    == list[k].id && after[k].title == list[k].title && after[k].todo_ids == texts(
                    todo_ids@,
                ),
            }
        }),
{
    let id = stone_named(op);
    let after = stone_changed(list, op)->Ok_0;
    lemma_stone_found(list, id);
    law_without_keeps_the_others(list, id);
    let p = stone_place(list, id, 0);
    if op is Add {
        assert(after.take(list.len() as int) =~= list);
    } else if p < k {
        assert(list[p].id != list[k].id);
    } else if k < p {
        assert(has_stone(list, id));
        assert(list[k].id != list[p].id);
    }
}

/// Changes of milestones are made one after the other, each on what the one before it left.
pub proof fn law_milestone_changes_follow_one_another(
    list: Seq<Stone>,
    first: Seq<MilestoneOp>,
    rest: Seq<MilestoneOp>,
)
    ensures
        stones_changed(list, Seq::empty()) == Ok::<Seq<Stone>, Fault>(list),
        stones_changed(list, first + rest) == (match stones_changed(list, first) {
            Ok(between) => stones_changed(between, rest),
            Err(e) => Err(e),
        }),
        rest.len() == 1 ==> stones_changed(list, rest) == stone_changed(list, rest[0]),
    decreases rest.len(),
{
    if rest.len() == 0 {
        assert(first + rest =~= first);
    } else {
        law_milestone_changes_follow_one_another(list, first, rest.drop_last());
        assert((first + rest).drop_last() =~= first + rest.drop_last());
        assert((first + rest).last() == rest.last());
        if rest.len() == 1 {
            assert(rest.drop_last() =~= Seq::<MilestoneOp>::empty());
        }
    }
}

/// What is asked for is what is done: as many changes, each in its place, of its kind, with its id and
/// its values.
pub proof fn law_asked_changes_are_made(ops: Seq<UpdateOp>, i: int)
    requires
        0 <= i < ops.len(),
    ensures
        todo_ops(ops).len() == ops.len(),
        match ops[i] {
            UpdateOp::AddTodo { id, content, status, milestone_id } => todo_ops(
                ops,
            )[i] matches TodoOp::AddTodo(t) && t.id == id && t.content == content && t.status
                == status && t.milestone_id == milestone_id,
            UpdateOp::SetStatus { id, status } => todo_ops(ops)[i] == (TodoOp::SetStatus {
                id,
                status,
            }),
            UpdateOp::SetContent { id, content } => todo_ops(ops)[i] == (TodoOp::SetContent {
                id,
                content,
            }),
            UpdateOp::SetMilestone { id, milestone_id } => todo_ops(ops)[i] == (
            TodoOp::SetMilestone { id, milestone_id }),
            UpdateOp::RemoveTodo { id } => todo_ops(ops)[i] == (TodoOp::RemoveTodo { id }),
        },
{
}

/// A plan that is worked on is written by the session that works on it and by no other; a plan that is
/// not is written by every session.
pub proof fn law_only_the_owner_writes_a_running_plan(session: Seq<char>, fm: PlanFileFrontmatter)
    ensures
        !(fm.mode is Executing) ==> may_write(session, fm),
        fm.mode is Executing ==> (fm.session_key matches Some(k) ==> (may_write(session, fm) <==> k@
            == session)),
        fm.mode is Executing && fm.session_key is None && session.len() > 0 ==> !may_write(
            session,
            fm,
        ),
{
    reveal_strlit("");
}

/// The plan that is named is the one that is meant; without a name it is the one that is worked on or
/// waits, and in the other modes the one that was drafted last, if there is one.
pub proof fn law_named_plans_are_meant(runtime: PlanRuntime, named: Option<Seq<char>>)
    ensures
        named is Some ==> target_plan(runtime, named) == named,
        named is None ==> (runtime.mode matches PlanMode::Executing { plan_id } ==> target_plan(
            runtime,
            named,
        ) == Some(plan_id@)),
        named is None ==> (runtime.mode matches PlanMode::Pending { plan_id } ==> target_plan(
            runtime,
            named,
        ) == Some(plan_id@)),
        named is None && !(runtime.mode is Executing) && !(runtime.mode is Pending) ==> (
        runtime.active_planning_plan_id matches Some(id) ==> target_plan(runtime, named) == Some(
            id@,
        )),
        named is None && !(runtime.mode is Executing) && !(runtime.mode is Pending)
            && runtime.active_planning_plan_id is None ==> target_plan(runtime, named) is None,
{
}

/// A call is refused for three reasons and no other: the plan is another session's, the todos cannot be
/// changed so, or the milestones cannot.
pub proof fn law_updates_are_refused_for_cause(session: Seq<char>, plan: PlanFile, args: UpdatePlanArgs)
    ensures
        refusal(session, plan, args) is None <==> {
            &&& !(plan.frontmatter.mode is Executing) || owner(plan.frontmatter) == session
            &&& updated(todos_view(plan.frontmatter.todos@), todo_ops(args.ops@)) is Ok
            &&& stones_changed(stones(plan.frontmatter.milestones@), args.milestones_ops@) is Ok
        },
{
}

/// A plan that is worked on is done exactly when it has todos and every one of them is.
pub proof fn law_plans_get_done_by_their_todos(before: PlanFile, after: PlanFile, args: UpdatePlanArgs)
    requires
        is_updated(before, after, args),
        before.frontmatter.mode is Executing,
    ensures
        after.frontmatter.mode is Completed || after.frontmatter.mode is Executing,
        after.frontmatter.mode is Completed <==> after.frontmatter.todos@.len() > 0 && forall|i: int|
            0 <= i < after.frontmatter.todos@.len() ==> (
            #[trigger] after.frontmatter.todos@[i]).status is Completed,
{
}

/// The milestones that changes speak of are those of the plan: every one in its place, with all that it says.
pub proof fn law_milestones_are_seen_as_they_are(list: Seq<Milestone>, i: int)
    requires
        0 <= i < list.len(),
    ensures
        stones(list).len() == list.len(),
        stones(list)[i].id == list[i].id@,
        stones(list)[i].title == list[i].title@,
        stones(list)[i].todo_ids == texts(list[i].todo_ids@),
{
}

} // verus!
