//! Changes to a list of todos.

use vstd::prelude::*;

use crate::numerals::decimal_usize;
#[allow(unused_imports)]
use crate::numerals::decimal;
use crate::plan_runtime::file_store::{copy_todos, count_in_progress, TodoItem, TodoStatus};
#[allow(unused_imports)]
use crate::plan_runtime::file_store::{in_progress_count, todos_view, Todo};
use crate::text::{cat, cat3, copy_opt, same};
#[allow(unused_imports)]
use crate::text::opt_text;

verus! {

/// One change to a list of todos.
#[derive(Clone, Debug, PartialEq, Eq)]
pub enum TodoOp {
    AddTodo(TodoItem),
    SetStatus { id: String, status: TodoStatus },
    SetContent { id: String, content: String },
    SetMilestone { id: String, milestone_id: Option<String> },
    RemoveTodo { id: String },
}

/// Why changes are refused.
#[derive(Clone, Debug, PartialEq, Eq)]
pub enum OpError {
    /// A todo with this id is there already.
    DuplicateId(String),
    /// There is no todo with this id.
    UnknownId(String),
    /// More than one todo would be in progress.
    MultipleInProgress(usize),
}

/// Why changes are refused, as mathematics.
pub ghost enum Refusal {
    DuplicateId(Seq<char>),
    UnknownId(Seq<char>),
    MultipleInProgress(nat),
}

impl View for OpError {
    type V = Refusal;

    open spec fn view(&self) -> Refusal {
        match *self {
            OpError::DuplicateId(id) => Refusal::DuplicateId(id@),
            OpError::UnknownId(id) => Refusal::UnknownId(id@),
            OpError::MultipleInProgress(n) => Refusal::MultipleInProgress(n as nat),
        }
    }
}

impl OpError {
    /// The error in words.
    pub fn message(&self) -> (r: String)
        ensures
            r@ == (match self@ {
                Refusal::DuplicateId(id) => "todo id 重复: "@ + id,
                Refusal::UnknownId(id) => "todo 不存在: "@ + id,
                Refusal::MultipleInProgress(n) => "同时只能有一个 in_progress（当前 "@ + decimal(n)
                    + "）"@,
            }),
    {
        match self {
            OpError::DuplicateId(id) => cat("todo id 重复: ", id.as_str()),
            OpError::UnknownId(id) => cat("todo 不存在: ", id.as_str()),
            OpError::MultipleInProgress(n) => cat3(
                "同时只能有一个 in_progress（当前 ",
                decimal_usize(*n).as_str(),
                "）",
            ),
        }
    }
}

/// The place of an id in a list; the length of the list if it is not there.
pub open spec fn place(list: Seq<Todo>, id: Seq<char>, from: int) -> int
    decreases list.len() - from,
{
    if from >= list.len() {
        list.len() as int
    } else if list[from].id == id {
        from
    } else {
        place(list, id, from + 1)
    }
}

/// `place` is the first place of the id.
pub proof fn lemma_place(list: Seq<Todo>, id: Seq<char>, from: int)
    requires
        0 <= from <= list.len(),
    ensures
        from <= place(list, id, from) <= list.len(),
        place(list, id, from) < list.len() ==> list[place(list, id, from)].id == id,
        forall|j: int| from <= j < place(list, id, from) ==> (#[trigger] list[j]).id != id,
    decreases list.len() - from,
{
    if from < list.len() && list[from].id != id {
        lemma_place(list, id, from + 1);
    }
}

/// The list after one change, or why the change is refused.
pub open spec fn changed(list: Seq<Todo>, op: TodoOp) -> Result<Seq<Todo>, Refusal> {
    match op {
        TodoOp::AddTodo(t) => if place(list, t.id@, 0) < list.len() {
            Err(Refusal::DuplicateId(t.id@))
        } else {
            Ok(list.push(t@))
        },
        TodoOp::SetStatus { id, status } => {
            let i = place(list, id@, 0);
            if i < list.len() {
                Ok(list.update(i, Todo { status, ..list[i] }))
            } else {
                Err(Refusal::UnknownId(id@))
            }
        },
        TodoOp::SetContent { id, content } => {
            let i = place(list, id@, 0);
            if i < list.len() {
                Ok(list.update(i, Todo { content: content@, ..list[i] }))
            } else {
                Err(Refusal::UnknownId(id@))
            }
        },
        TodoOp::SetMilestone { id, milestone_id } => {
            let i = place(list, id@, 0);
            if i < list.len() {
                Ok(list.update(i, Todo { milestone_id: opt_text(milestone_id), ..list[i] }))
            } else {
                Err(Refusal::UnknownId(id@))
            }
        },
        TodoOp::RemoveTodo { id } => {
            let i = place(list, id@, 0);
            if i < list.len() {
                Ok(list.remove(i))
            } else {
                Err(Refusal::UnknownId(id@))
            }
        },
    }
}

/// The list after all changes, one after the other; the first that is refused decides.
pub open spec fn all_changed(list: Seq<Todo>, ops: Seq<TodoOp>) -> Result<Seq<Todo>, Refusal>
    decreases ops.len(),
{
    if ops.len() == 0 {
        Ok(list)
    } else {
        match all_changed(list, ops.drop_last()) {
            Ok(before) => changed(before, ops.last()),
            Err(e) => Err(e),
        }
    }
}

/// How many todos of a list are in progress.
pub open spec fn running(list: Seq<Todo>) -> nat
    decreases list.len(),
{
    if list.len() == 0 {
        0
    } else {
        running(list.drop_last()) + (if list.last().status is InProgress {
            1nat
        } else {
            0nat
        })
    }
}

/// The list after all changes, in which at most one todo may be in progress.
pub open spec fn updated(list: Seq<Todo>, ops: Seq<TodoOp>) -> Result<Seq<Todo>, Refusal> {
    match all_changed(list, ops) {
        Ok(after) => if running(after) > 1 {
            Err(Refusal::MultipleInProgress(running(after)))
        } else {
            Ok(after)
        },
        Err(e) => Err(e),
    }
}

proof fn lemma_running(todos: Seq<TodoItem>)
    ensures
        running(todos_view(todos)) == in_progress_count(todos),
    decreases todos.len(),
{
    if todos.len() > 0 {
        lemma_running(todos.drop_last());
        assert(todos_view(todos).drop_last() =~= todos_view(todos.drop_last()));
        assert(todos_view(todos).last() == todos.last()@);
    }
}

fn find_todo(todos: &Vec<TodoItem>, id: &str) -> (r: usize)
    ensures
        r == place(todos_view(todos@), id@, 0),
        r <= todos@.len(),
{
    let ghost list = todos_view(todos@);
    let mut i: usize = 0;
    while i < todos.len()
        invariant
            i <= todos@.len(),
            list == todos_view(todos@),
            place(list, id@, i as int) == place(list, id@, 0),
        decreases todos@.len() - i,
    {
        assert(list[i as int] == todos@[i as int]@);
        if same(todos[i].id.as_str(), id) {
            return i;
        }
        i = i + 1;
    }
    i
}

fn apply_op(todos: &mut Vec<TodoItem>, op: &TodoOp) -> (r: Result<(), OpError>)
    ensures
        match r {
            Ok(_) => changed(todos_view(old(todos)@), *op) == Ok::<Seq<Todo>, Refusal>(
                todos_view(final(todos)@),
            ),
            Err(e) => changed(todos_view(old(todos)@), *op) == Err::<Seq<Todo>, Refusal>(e@)
                && final(todos)@ == old(todos)@,
        },
{
    let ghost before = todos@;
    let ghost list = todos_view(before);
    match op {
        TodoOp::AddTodo(t) => {
            if find_todo(todos, t.id.as_str()) < todos.len() {
                return Err(OpError::DuplicateId(t.id.clone()));
            }
            todos.push(t.copied());
            assert(todos_view(todos@) =~= list.push(t@));
        },
        TodoOp::SetStatus { id, status } => {
            let i = find_todo(todos, id.as_str());
            if i >= todos.len() {
                return Err(OpError::UnknownId(id.clone()));
            }
            let mut t = todos[i].copied();
            t.status = *status;
            todos.set(i, t);
            assert(todos_view(todos@) =~= list.update(
                i as int,
                Todo { status: *status, ..list[i as int] },
            ));
        },
        TodoOp::SetContent { id, content } => {
            let i = find_todo(todos, id.as_str());
            if i >= todos.len() {
                return Err(OpError::UnknownId(id.clone()));
            }
            let mut t = todos[i].copied();
            t.content = content.clone();
            todos.set(i, t);
            assert(todos_view(todos@) =~= list.update(
                i as int,
                Todo { content: content@, ..list[i as int] },
            ));
        },
        TodoOp::SetMilestone { id, milestone_id } => {
            let i = find_todo(todos, id.as_str());
            if i >= todos.len() {
                return Err(OpError::UnknownId(id.clone()));
            }
            let mut t = todos[i].copied();
            t.milestone_id = copy_opt(milestone_id);
            todos.set(i, t);
            assert(todos_view(todos@) =~= list.update(
                i as int,
                Todo { milestone_id: opt_text(*milestone_id), ..list[i as int] },
            ));
        },
        TodoOp::RemoveTodo { id } => {
            let i = find_todo(todos, id.as_str());
            if i >= todos.len() {
                return Err(OpError::UnknownId(id.clone()));
            }
            todos.remove(i);
            assert(todos_view(todos@) =~= list.remove(i as int));
        },
    }
    Ok(())
}

/// Applies the changes to the list, all of them or, if one is refused, none.
pub fn apply_todos_ops(todos: &mut Vec<TodoItem>, ops: &Vec<TodoOp>) -> (r: Result<(), OpError>)
    ensures
        match r {
            Ok(_) => updated(todos_view(old(todos)@), ops@) == Ok::<Seq<Todo>, Refusal>(
                todos_view(final(todos)@),
            ),
            Err(e) => updated(todos_view(old(todos)@), ops@) == Err::<Seq<Todo>, Refusal>(e@)
                && final(todos)@ == old(todos)@,
        },
{
    let ghost start = todos_view(todos@);
    let mut work = copy_todos(todos);
    let mut i: usize = 0;
    while i < ops.len()
        invariant
            i <= ops@.len(),
            todos@ == old(todos)@,
            start == todos_view(old(todos)@),
            all_changed(start, ops@.take(i as int)) == Ok::<Seq<Todo>, Refusal>(
                todos_view(work@),
            ),
        decreases ops@.len() - i,
    {
        assert(ops@.take(i + 1).drop_last() =~= ops@.take(i as int));
        if let Err(e) = apply_op(&mut work, &ops[i]) {
            proof {
                lemma_refusal_stays(start, ops@, i + 1, e@);
            }
            return Err(e);
        }
        i = i + 1;
    }
    assert(ops@.take(ops@.len() as int) =~= ops@);
    proof {
        lemma_running(work@);
    }
    let n = count_in_progress(&work);
    if n > 1 {
        return Err(OpError::MultipleInProgress(n));
    }
    *todos = work;
    Ok(())
}

proof fn lemma_refusal_stays(list: Seq<Todo>, ops: Seq<TodoOp>, n: int, e: Refusal)
    requires
        0 <= n <= ops.len(),
        all_changed(list, ops.take(n)) == Err::<Seq<Todo>, Refusal>(e),
    ensures
        all_changed(list, ops) == Err::<Seq<Todo>, Refusal>(e),
    decreases ops.len() - n,
{
    if n == ops.len() {
        assert(ops.take(n) =~= ops);
    } else {
        assert(ops.take(n + 1).drop_last() =~= ops.take(n));
        lemma_refusal_stays(list, ops, n + 1, e);
    }
}

/// Whether there are todos and all of them are done.
pub open spec fn is_all_completed(todos: Seq<TodoItem>) -> bool {
    todos.len() > 0 && forall|i: int| 0 <= i < todos.len() ==> (#[trigger] todos[i]).status is Completed
}

/// Whether there are todos and all of them are done.
pub fn all_completed(todos: &Vec<TodoItem>) -> (r: bool)
    ensures
        r == is_all_completed(todos@),
{
    if todos.len() == 0 {
        return false;
    }
    let mut i: usize = 0;
    while i < todos.len()
        invariant
            i <= todos@.len(),
            forall|j: int| 0 <= j < i ==> (#[trigger] todos@[j]).status is Completed,
        decreases todos@.len() - i,
    {
        if todos[i].status != TodoStatus::Completed {
            return false;
        }
        i = i + 1;
    }
    true
}

/// The id of the todo in progress, if there is one.
pub open spec fn running_id(todos: Seq<TodoItem>) -> Option<Seq<char>>
    decreases todos.len(),
{
    if todos.len() == 0 {
        None
    } else if todos[0].status is InProgress {
        Some(todos[0].id@)
    } else {
        running_id(todos.drop_first())
    }
}

/// The id of the todo in progress, if there is one.
pub fn active_in_progress(todos: &Vec<TodoItem>) -> (r: Option<String>)
    ensures
        opt_text(r) == running_id(todos@),
{
    let mut i: usize = 0;
    assert(todos@.skip(0) =~= todos@);
    while i < todos.len()
        invariant
            i <= todos@.len(),
            running_id(todos@.skip(i as int)) == running_id(todos@),
        decreases todos@.len() - i,
    {
        assert(todos@.skip(i as int).drop_first() =~= todos@.skip(i + 1));
        if todos[i].status == TodoStatus::InProgress {
            return Some(todos[i].id.clone());
        }
        i = i + 1;
    }
    None
}

// ---------------------------------------------------------------- laws

/// Whether no id stands twice in a list.
pub open spec fn distinct(list: Seq<Todo>) -> bool {
    forall|i: int, j: int| 0 <= i < j < list.len() ==> (#[trigger] list[i]).id != (#[trigger] list[j]).id
}

proof fn lemma_changed_distinct(list: Seq<Todo>, op: TodoOp)
    requires
        distinct(list),
    ensures
        changed(list, op) matches Ok(after) ==> distinct(after),
{
    match op {
        TodoOp::AddTodo(t) => {
            lemma_place(list, t.id@, 0);
        },
        TodoOp::SetStatus { id, .. } => {
            lemma_place(list, id@, 0);
        },
        TodoOp::SetContent { id, .. } => {
            lemma_place(list, id@, 0);
        },
        TodoOp::SetMilestone { id, .. } => {
            lemma_place(list, id@, 0);
        },
        TodoOp::RemoveTodo { id } => {
            lemma_place(list, id@, 0);
            let k = place(list, id@, 0);
            if k < list.len() {
                let after = list.remove(k);
                assert forall|i: int, j: int| 0 <= i < j < after.len() implies (#[trigger] after[i]).id
                    != (#[trigger] after[j]).id by {
                    let a = if i < k { i } else { i + 1 };
                    let b = if j < k { j } else { j + 1 };
                    assert(after[i] == list[a]);
                    assert(after[j] == list[b]);
                }
            }
        },
    }
}

/// Changes keep a list in order: no id ever stands twice, and at most one todo is in progress.
pub proof fn law_changes_keep_order(list: Seq<Todo>, ops: Seq<TodoOp>)
    requires
        distinct(list),
    ensures
        updated(list, ops) matches Ok(after) ==> distinct(after) && running(after) <= 1,
        all_changed(list, ops) matches Ok(after) ==> distinct(after),
    decreases ops.len(),
{
    if ops.len() > 0 {
        law_changes_keep_order(list, ops.drop_last());
        if let Ok(before) = all_changed(list, ops.drop_last()) {
            lemma_changed_distinct(before, ops.last());
        }
    }
}

/// The id that a change names.
pub open spec fn named_id(op: TodoOp) -> Seq<char> {
    match op {
        TodoOp::AddTodo(t) => t.id@,
        TodoOp::SetStatus { id, .. } => id@,
        TodoOp::SetContent { id, .. } => id@,
        TodoOp::SetMilestone { id, .. } => id@,
        TodoOp::RemoveTodo { id } => id@,
    }
}

/// The todos of a list that have another id.
pub open spec fn others(list: Seq<Todo>, id: Seq<char>) -> Seq<Todo> {
    list.filter(|t: Todo| t.id != id)
}

/// Whether a todo of a list has an id.
pub open spec fn has_id(list: Seq<Todo>, id: Seq<char>) -> bool {
    exists|i: int| 0 <= i < list.len() && (#[trigger] list[i]).id == id
}

#[verifier::rlimit(40)]
#[verifier::spinoff_prover]
proof fn lemma_others_around(a: Seq<Todo>, t: Todo, b: Seq<Todo>, id: Seq<char>)
    requires
        t.id == id,
    ensures
        others(a + seq![t] + b, id) == others(a, id) + others(b, id),
        others(a + b, id) == others(a, id) + others(b, id),
{
    let p = |t: Todo| t.id != id;
    Seq::filter_distributes_over_add(a + seq![t], b, p);
    Seq::filter_distributes_over_add(a, seq![t], p);
    Seq::filter_distributes_over_add(a, b, p);
    reveal(Seq::filter);
    assert(seq![t].drop_last() =~= Seq::<Todo>::empty());
    assert(Seq::<Todo>::empty().filter(p) =~= Seq::<Todo>::empty());
    assert(seq![t].filter(p) =~= Seq::<Todo>::empty());
    assert(a.filter(p) + Seq::<Todo>::empty() =~= a.filter(p));
}

proof fn lemma_place_found(list: Seq<Todo>, id: Seq<char>)
    ensures
        0 <= place(list, id, 0) <= list.len(),
        place(list, id, 0) < list.len() <==> has_id(list, id),
        place(list, id, 0) < list.len() ==> list[place(list, id, 0)].id == id,
{
    lemma_place(list, id, 0);
    let k = place(list, id, 0);
    if k < list.len() {
        assert(has_id(list, id));
    }
    if has_id(list, id) {
        let i = choose|i: int| 0 <= i < list.len() && (#[trigger] list[i]).id == id;
        assert(i >= k);
    }
}

/// A change touches the todo that it names and no other: all todos with another id are still there,
/// unchanged and in the same order.
#[verifier::rlimit(40)]
#[verifier::spinoff_prover]
pub proof fn law_changes_leave_the_others(list: Seq<Todo>, op: TodoOp)
    ensures
        changed(list, op) matches Ok(after) ==> others(after, named_id(op)) == others(
            list,
            named_id(op),
        ),
{
    let id = named_id(op);
    lemma_place_found(list, id);
    let k = place(list, id, 0);
    if let Ok(after) = changed(list, op) {
        if let TodoOp::AddTodo(t) = op {
            lemma_others_around(list, t@, Seq::empty(), id);
            assert(after =~= list + seq![t@] + Seq::empty());
            assert(list + Seq::empty() =~= list);
        } else {
            let a = list.take(k);
            let b = list.skip(k + 1);
            assert(list =~= a + seq![list[k]] + b);
            lemma_others_around(a, list[k], b, id);
            if op is RemoveTodo {
                assert(after =~= a + b);
            } else {
                assert(after =~= a + seq![after[k]] + b);
                lemma_others_around(a, after[k], b, id);
            }
        }
    }
}

/// A change is refused exactly if its todo is there already, for a new one, or is not there, for any
/// other change; and the refusal names it.
pub proof fn law_changes_need_their_todo(list: Seq<Todo>, op: TodoOp)
    ensures
        op is AddTodo ==> (changed(list, op) is Ok <==> !has_id(list, named_id(op))),
        !(op is AddTodo) ==> (changed(list, op) is Ok <==> has_id(list, named_id(op))),
        changed(list, op) matches Err(e) ==> e == (if op is AddTodo {
            Refusal::DuplicateId(named_id(op))
        } else {
            Refusal::UnknownId(named_id(op))
        }),
{
    lemma_place_found(list, named_id(op));
}

/// A new todo goes to the end of the list, as it is given, and the list before it stays.
pub proof fn law_new_todos_go_last(list: Seq<Todo>, t: TodoItem)
    ensures
        changed(list, TodoOp::AddTodo(t)) matches Ok(after) ==> {
            &&& after.len() == list.len() + 1
            &&& after.last().id == t.id@
            &&& after.last().content == t.content@
            &&& after.last().status == t.status
            &&& after.last().milestone_id == opt_text(t.milestone_id)
            &&& forall|i: int| 0 <= i < list.len() ==> #[trigger] after[i] == list[i]
        },
{
}

/// Removing a todo makes the list shorter by exactly one; if no id stands twice, the id is gone.
pub proof fn law_removal_takes_one(list: Seq<Todo>, id: String)
    ensures
        changed(list, TodoOp::RemoveTodo { id }) matches Ok(after) ==> {
            &&& after.len() == list.len() - 1
            &&& distinct(list) ==> !has_id(after, id@)
        },
{
    lemma_place_found(list, id@);
    let k = place(list, id@, 0);
    if let Ok(after) = changed(list, TodoOp::RemoveTodo { id }) {
        if distinct(list) && has_id(after, id@) {
            let i = choose|i: int| 0 <= i < after.len() && (#[trigger] after[i]).id == id@;
            let j = if i < k {
                i
            } else {
                i + 1
            };
            assert(after[i] == list[j]);
            if j < k {
                assert(list[j].id != list[k].id);
            } else {
                assert(list[k].id != list[j].id);
            }
        }
    }
}

/// Setting one thing of a todo sets it, and leaves the todo's place and everything else of it as they
/// were: `k` is where the todo stands.
pub proof fn law_setting_leaves_the_rest_of_a_todo(list: Seq<Todo>, op: TodoOp, k: int)
    requires
        distinct(list),
        0 <= k < list.len(),
        list[k].id == named_id(op),
        op is SetStatus || op is SetContent || op is SetMilestone,
    ensures
        changed(list, op) is Ok,
        changed(list, op)->Ok_0.len() == list.len(),
        changed(list, op)->Ok_0[k].id == list[k].id,
        changed(list, op)->Ok_0[k].status == (match op {
            TodoOp::SetStatus { status, .. } => status,
            _ => list[k].status,
        }),
        changed(list, op)->Ok_0[k].content == (match op {
            TodoOp::SetContent { content, .. } => content@,
            _ => list[k].content,
        }),
        changed(list, op)->Ok_0[k].milestone_id == (match op {
            TodoOp::SetMilestone { milestone_id, .. } => opt_text(milestone_id),
            _ => list[k].milestone_id,
        }),
        forall|i: int| 0 <= i < list.len() && i != k ==> #[trigger] changed(list, op)->Ok_0[i] == list[i],
{
    let id = named_id(op);
    lemma_place_found(list, id);
    assert(has_id(list, id));
    let p = place(list, id, 0);
    if p < k {
        assert(list[p].id != list[k].id);
    } else if k < p {
        assert(list[k].id != list[p].id);
    }
}

/// Changes are made one after the other, each on what the one before it left: a list of changes does
/// what its first part and then its second part do. Without changes the list stays.
pub proof fn law_changes_follow_one_another(list: Seq<Todo>, first: Seq<TodoOp>, rest: Seq<TodoOp>)
    ensures
        all_changed(list, Seq::empty()) == Ok::<Seq<Todo>, Refusal>(list),
        all_changed(list, first + rest) == (match all_changed(list, first) {
            Ok(between) => all_changed(between, rest),
            Err(e) => Err(e),
        }),
    decreases rest.len(),
{
    if rest.len() == 0 {
        assert(first + rest =~= first);
    } else {
        law_changes_follow_one_another(list, first, rest.drop_last());
        assert((first + rest).drop_last() =~= first + rest.drop_last());
        assert((first + rest).last() == rest.last());
    }
}

/// One change in a list of changes is that change.
pub proof fn law_one_change_alone(list: Seq<Todo>, op: TodoOp)
    ensures
        all_changed(list, seq![op]) == changed(list, op),
{
    assert(seq![op].drop_last() =~= Seq::<TodoOp>::empty());
    assert(all_changed(list, seq![op].drop_last()) == Ok::<Seq<Todo>, Refusal>(list));
}

proof fn lemma_running_filters(list: Seq<Todo>)
    ensures
        running(list) == list.filter(|t: Todo| t.status is InProgress).len(),
    decreases list.len(),
{
    reveal(Seq::filter);
    if list.len() > 0 {
        lemma_running_filters(list.drop_last());
    }
}

/// Changes are refused as a whole if they would leave more than one todo in progress, and for no
/// other reason than this or that one of them is refused; what is accepted is exactly what they make.
pub proof fn law_one_todo_in_progress(list: Seq<Todo>, ops: Seq<TodoOp>)
    ensures
        all_changed(list, ops) matches Err(e) ==> updated(list, ops) == Err::<Seq<Todo>, Refusal>(e),
        all_changed(list, ops) matches Ok(after) ==> {
            let busy = after.filter(|t: Todo| t.status is InProgress).len();
            updated(list, ops) == if busy > 1 {
                Err::<Seq<Todo>, Refusal>(Refusal::MultipleInProgress(busy))
            } else {
                Ok(after)
            }
        },
{
    if let Ok(after) = all_changed(list, ops) {
        lemma_running_filters(after);
    }
}

/// The todo that is told to be in progress is in progress, and none before it is; none is told of
/// exactly if none is.
pub proof fn law_told_todo_is_in_progress(todos: Seq<TodoItem>)
    ensures
        match running_id(todos) {
            Some(id) => exists|i: int|
                0 <= i < todos.len() && (#[trigger] todos[i]).id@ == id && todos[i].status is InProgress
                    && forall|j: int| 0 <= j < i ==> !((#[trigger] todos[j]).status is InProgress),
            None => forall|i: int| 0 <= i < todos.len() ==> !((#[trigger] todos[i]).status is InProgress),
        },
    decreases todos.len(),
{
    if todos.len() > 0 && !(todos[0].status is InProgress) {
        let rest = todos.drop_first();
        law_told_todo_is_in_progress(rest);
        if let Some(id) = running_id(rest) {
            let i = choose|i: int|
                0 <= i < rest.len() && (#[trigger] rest[i]).id@ == id && rest[i].status is InProgress
                    && forall|j: int| 0 <= j < i ==> !((#[trigger] rest[j]).status is InProgress);
            assert(todos[i + 1] == rest[i]);
            assert forall|j: int| 0 <= j < i + 1 implies !((#[trigger] todos[j]).status is InProgress) by {
                if j > 0 {
                    assert(todos[j] == rest[j - 1]);
                }
            }
        } else {
            assert forall|i: int| 0 <= i < todos.len() implies !((#[trigger] todos[i]).status is InProgress) by {
                if i > 0 {
                    assert(todos[i] == rest[i - 1]);
                }
            }
        }
    }
}

/// The list that changes speak of is the list of the plan or the session: every todo in its place, with all
/// that it says.
pub proof fn law_lists_are_seen_as_they_are(todos: Seq<TodoItem>, i: int)
    requires
        0 <= i < todos.len(),
    ensures
        todos_view(todos).len() == todos.len(),
        todos_view(todos)[i].id == todos[i].id@,
        todos_view(todos)[i].content == todos[i].content@,
        todos_view(todos)[i].status == todos[i].status,
        todos_view(todos)[i].milestone_id == opt_text(todos[i].milestone_id),
{
}

} // verus!
