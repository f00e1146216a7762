//! The tool `todos`: changes the todos of the session.

use vstd::prelude::*;
use vstd::string::*;

use crate::plan_runtime::file_store::{copy_todos, TodoItem, TodoStatus};
#[allow(unused_imports)]
use crate::plan_runtime::file_store::{todos_view, Todo};
use crate::plan_runtime::mode::PlanRuntime;
#[allow(unused_imports)]
use crate::plan_runtime::mode::mode_word;
use crate::plan_runtime::ops::{active_in_progress, apply_todos_ops, TodoOp};
#[allow(unused_imports)]
use crate::plan_runtime::ops::{running_id, updated, Refusal};
use crate::plan_runtime::tools::ToolError;
use crate::text::copy_opt;
#[allow(unused_imports)]
use crate::text::opt_text;

verus! {

/// What the tool is called with.
#[derive(Clone, Debug, PartialEq, Eq)]
pub struct TodosArgs {
    pub ops: Vec<TodoOpArg>,
}

/// One change that is asked for.
#[derive(Clone, Debug, PartialEq, Eq)]
pub enum TodoOpArg {
    AddTodo { id: String, content: String, status: TodoStatus, milestone_id: Option<String> },
    SetStatus { id: String, status: TodoStatus },
    SetContent { id: String, content: String },
    RemoveTodo { id: String },
}

/// The change that is asked for.
pub open spec fn todo_op(arg: TodoOpArg) -> TodoOp {
    match arg {
        TodoOpArg::AddTodo { id, content, status, milestone_id } => TodoOp::AddTodo(
            TodoItem { id, content, status, milestone_id },
        ),
        TodoOpArg::SetStatus { id, status } => TodoOp::SetStatus { id, status },
        TodoOpArg::SetContent { id, content } => TodoOp::SetContent { id, content },
        TodoOpArg::RemoveTodo { id } => TodoOp::RemoveTodo { id },
    }
}

/// The changes that are asked for.
pub open spec fn todo_ops(args: TodosArgs) -> Seq<TodoOp> {
    args.ops@.map_values(|a: TodoOpArg| todo_op(a))
}

fn to_op(arg: &TodoOpArg) -> (r: TodoOp)
    ensures
        r == todo_op(*arg),
{
    match arg {
        TodoOpArg::AddTodo { id, content, status, milestone_id } => TodoOp::AddTodo(
            TodoItem {
                id: id.clone(),
                content: content.clone(),
                status: *status,
                milestone_id: copy_opt(milestone_id),
            },
        ),
        TodoOpArg::SetStatus { id, status } => TodoOp::SetStatus {
            id: id.clone(),
            status: *status,
        },
        TodoOpArg::SetContent { id, content } => TodoOp::SetContent {
            id: id.clone(),
            content: content.clone(),
        },
        TodoOpArg::RemoveTodo { id } => TodoOp::RemoveTodo { id: id.clone() },
    }
}

/// The changes that are asked for.
pub fn to_ops(args: &TodosArgs) -> (r: Vec<TodoOp>)
    ensures
        r@ == todo_ops(*args),
{
    let mut out: Vec<TodoOp> = Vec::new();
    let mut i: usize = 0;
    while i < args.ops.len()
        invariant
            i <= args.ops@.len(),
            out@ == todo_ops(*args).take(i as int),
        decreases args.ops@.len() - i,
    {
        out.push(to_op(&args.ops[i]));
        assert(todo_ops(*args).take(i + 1) =~= todo_ops(*args).take(i as int).push(
            todo_ops(*args)[i as int],
        ));
        i = i + 1;
    }
    assert(todo_ops(*args).take(i as int) =~= todo_ops(*args));
    out
}

/// What the tool answers.
#[derive(Clone, Debug, PartialEq, Eq)]
pub struct TodosOutcome {
    /// Whose todos these are: always `session`.
    pub scope: String,
    pub mode: String,
    /// How many changes were applied.
    pub applied: usize,
    pub active_in_progress: Option<String>,
    pub items: Vec<TodoItem>,
}

/// What a call with these changes makes of a session: its todos are changed and nothing else, or the
/// changes are refused and nothing is changed.
pub open spec fn is_session_change(
    before: PlanRuntime,
    after: PlanRuntime,
    ops: Seq<TodoOp>,
    r: Result<TodosOutcome, ToolError>,
) -> bool {
    match r {
        Ok(o) => {
            &&& updated(todos_view(before.session_todos@), ops) == Ok::<Seq<Todo>, Refusal>(
                todos_view(after.session_todos@),
            )
            &&& after == (PlanRuntime { session_todos: after.session_todos, ..before })
            &&& o.scope@ == "session"@
            &&& o.mode@ == mode_word(before.mode)
            &&& o.applied == ops.len()
            &&& opt_text(o.active_in_progress) == running_id(after.session_todos@)
            &&& o.items@ == after.session_todos@
        },
        Err(e) => {
            &&& after == before
            &&& e@ is Op
            &&& updated(todos_view(before.session_todos@), ops) == Err::<Seq<Todo>, Refusal>(
                e@->Op_0,
            )
        },
    }
}

/// Changes the todos of the session as asked, in every mode; refused changes leave them as they are.
/// The file of a plan is never changed this way.
pub fn execute(runtime: &mut PlanRuntime, args: &TodosArgs) -> (r: Result<TodosOutcome, ToolError>)
    ensures
        is_session_change(*old(runtime), *final(runtime), todo_ops(*args), r),
{
    let ops = to_ops(args);
    session_path(runtime, &ops)
}

/// Changes the todos of the session; refused changes leave them as they are.
pub fn session_path(runtime: &mut PlanRuntime, ops: &Vec<TodoOp>) -> (r: Result<
    TodosOutcome,
    ToolError,
>)
    ensures
        is_session_change(*old(runtime), *final(runtime), ops@, r),
{
    let mut todos = copy_todos(&runtime.session_todos);
    match apply_todos_ops(&mut todos, ops) {
        Ok(_) => {},
        Err(e) => {
            return Err(ToolError::Op(e));
        },
    }
    let items = copy_todos(&todos);
    let active = active_in_progress(&todos);
    runtime.replace_session_todos(todos);
    Ok(
        TodosOutcome {
            scope: "session".to_owned(),
            mode: runtime.mode.as_str().to_owned(),
            applied: ops.len(),
            active_in_progress: active,
            items,
        },
    )
}

// ---------------------------------------------------------------- laws

/// What is asked for is what is done: as many changes, each in its place, of its kind, with its id and its
/// values.
pub proof fn law_asked_todo_changes_are_made(args: TodosArgs, i: int)
    requires
        0 <= i < args.ops@.len(),
    ensures
        todo_ops(args).len() == args.ops@.len(),
        match args.ops@[i] {
            TodoOpArg::AddTodo { id, content, status, milestone_id } => todo_ops(
                args,
            )[i] matches TodoOp::AddTodo(t) && t.id == id && t.content == content && t.status == status
                && t.milestone_id == milestone_id,
            TodoOpArg::SetStatus { id, status } => todo_ops(args)[i] == (TodoOp::SetStatus { id, status }),
            TodoOpArg::SetContent { id, content } => todo_ops(args)[i] == (TodoOp::SetContent {
                id,
                content,
            }),
            TodoOpArg::RemoveTodo { id } => todo_ops(args)[i] == (TodoOp::RemoveTodo { id }),
        },
{
}

/// Changing the todos of a session changes nothing else of it, neither its mode nor its plan, and a call that
/// is refused changes nothing at all; the answer lists the todos as they are now.
pub proof fn law_only_the_todos_change(
    before: PlanRuntime,
    after: PlanRuntime,
    ops: Seq<TodoOp>,
    r: Result<TodosOutcome, ToolError>,
)
    requires
        is_session_change(before, after, ops, r),
    ensures
        after.mode == before.mode,
        after.session_key == before.session_key,
        after.active_planning_plan_id == before.active_planning_plan_id,
        r is Err ==> after.session_todos == before.session_todos,
        r is Ok <==> updated(todos_view(before.session_todos@), ops) is Ok,
        r matches Ok(o) ==> o.items@ == after.session_todos@ && todos_view(o.items@) == updated(
            todos_view(before.session_todos@),
            ops,
        )->Ok_0 && o.applied == ops.len(),
{
}

} // verus!
