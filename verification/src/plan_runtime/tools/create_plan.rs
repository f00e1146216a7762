//! The tool `create_plan`: drafts a plan.

use vstd::prelude::*;
use vstd::string::*;

use crate::plan_runtime::file_store::{
    plan_path_for_id, Milestone, PlanFile, PlanFileFrontmatter, PlanFileMode, TodoItem,
    TodoStatus, PLAN_FILE_SCHEMA_VERSION,
};
#[allow(unused_imports)]
use crate::plan_runtime::file_store::{plan_path, todos_view, Todo};
use crate::plan_runtime::mode::{PlanMode, PlanRuntime};
#[allow(unused_imports)]
use crate::plan_runtime::mode::mode_word;
use crate::plan_runtime::ops::{apply_todos_ops, TodoOp};
#[allow(unused_imports)]
use crate::plan_runtime::ops::{distinct, law_changes_keep_order, running, updated, Refusal};
use crate::plan_runtime::review::ReviewSummary;
#[allow(unused_imports)]
use crate::plan_runtime::review::{is_aborted_review, nobody_reviews};
use crate::plan_runtime::safety::assert_plan_id_safe;
#[allow(unused_imports)]
use crate::plan_runtime::safety::{complaint, is_safe, plain};
#[allow(unused_imports)]
use crate::plan_runtime::tools::Fault;
use crate::plan_runtime::tools::ToolError;
use crate::search::{join, lines_of};
#[allow(unused_imports)]
use crate::search::{joined, lines};
use crate::text::{cat, cat3, cat5, chars_of, copy_opt, lower_char, push_text, same, text_of, trim};
#[allow(unused_imports)]
use crate::text::{ascii_lower, opt_str, opt_text, texts, trimmed};

verus! {

/// What the tool is called with.
#[derive(Clone, Debug, PartialEq, Eq)]
pub struct CreatePlanArgs {
    /// Made from the goal if none is given.
    pub plan_id: Option<String>,
    pub goal: String,
    /// What the plan says, with or without headings of its own.
    pub body: Option<String>,
    pub milestones: Vec<MilestoneArg>,
    pub todos: Vec<TodoArg>,
}

/// A milestone that is asked for.
#[derive(Clone, Debug, PartialEq, Eq)]
pub struct MilestoneArg {
    pub id: String,
    pub title: String,
    pub todo_ids: Vec<String>,
}

/// A todo that is asked for.
#[derive(Clone, Debug, PartialEq, Eq)]
pub struct TodoArg {
    pub id: String,
    pub content: String,
    pub status: TodoStatus,
    pub milestone_id: Option<String>,
}

/// The status of a todo for which none is given.
pub fn default_pending() -> (r: TodoStatus)
    ensures
        r is Pending,
{
    TodoStatus::Pending
}

/// The todo that is asked for.
pub open spec fn todo_item(t: TodoArg) -> TodoItem {
    TodoItem { id: t.id, content: t.content, status: t.status, milestone_id: t.milestone_id }
}

/// The todos that are asked for.
pub open spec fn todo_items(args: CreatePlanArgs) -> Seq<TodoItem> {
    args.todos@.map_values(|t: TodoArg| todo_item(t))
}

/// The changes that put todos into an empty list.
pub open spec fn additions(items: Seq<TodoItem>) -> Seq<TodoOp> {
    items.map_values(|t: TodoItem| TodoOp::AddTodo(t))
}

/// What becomes of the todos that are asked for, put into an empty list one after the other.
pub open spec fn listed(args: CreatePlanArgs) -> Result<Seq<Todo>, Refusal> {
    updated(Seq::empty(), additions(todo_items(args)))
}

/// Whether a line is a heading that a plan has once, or had once.
pub open spec fn is_heading(line: Seq<char>) -> bool {
    let t = trimmed(line);
    t == "## Goal"@ || t == "## Plan"@ || t == "## Draft"@ || t == "## Notes"@ || t == "## Review"@
}

/// The lines that are no such headings.
pub open spec fn unheaded(ls: Seq<Seq<char>>) -> Seq<Seq<char>>
    decreases ls.len(),
{
    if ls.len() == 0 {
        Seq::empty()
    } else {
        let rest = unheaded(ls.drop_last());
        if is_heading(ls.last()) {
            rest
        } else {
            rest.push(ls.last())
        }
    }
}

/// What stands under the heading for the plan: what is given, without headings of its own, or that
/// `agent` is to fill it in.
pub open spec fn plan_part(body: Option<Seq<char>>, agent: Seq<char>) -> Seq<char> {
    match body {
        Some(b) => trimmed(joined(unheaded(lines(b)), "\n"@)),
        None => "（待 "@ + agent + " 子 Agent 填入草案要点）"@,
    }
}

/// The body of a new plan: its goal, what it says, and a place for its todos.
pub open spec fn body_text(goal: Seq<char>, body: Option<Seq<char>>, agent: Seq<char>) -> Seq<char> {
    "## Goal\n\n"@ + goal + "\n\n## Plan\n\n"@ + plan_part(body, agent)
        + "\n\n## Todos Board\n\n（由 update_plan / todos 自动维护）\n"@
}

fn heads(line: &str) -> (r: bool)
    ensures
        r == is_heading(line@),
{
    let t = trim(line);
    same(t.as_str(), "## Goal") || same(t.as_str(), "## Plan") || same(t.as_str(), "## Draft")
        || same(t.as_str(), "## Notes") || same(t.as_str(), "## Review")
}

/// What is given, without headings of its own.
fn without_headings(body: &str) -> (r: String)
    ensures
        r@ == trimmed(joined(unheaded(lines(body@)), "\n"@)),
{
    let ls = lines_of(body);
    let ghost all = texts(ls@);
    let mut kept: Vec<String> = Vec::new();
    let mut i: usize = 0;
    assert(texts(kept@) =~= unheaded(all.take(0)));
    while i < ls.len()
        invariant
            i <= ls@.len(),
            all == texts(ls@),
            texts(kept@) == unheaded(all.take(i as int)),
        decreases ls@.len() - i,
    {
        assert(all.take(i + 1).drop_last() =~= all.take(i as int));
        assert(all.take(i + 1).last() == ls@[i as int]@);
        if !heads(ls[i].as_str()) {
            push_text(&mut kept, ls[i].clone());
        }
        i = i + 1;
    }
    assert(all.take(all.len() as int) =~= all);
    trim(join(&kept, "\n").as_str())
}

/// The body of a new plan.
pub fn default_body(goal: &str, body: Option<&str>, agent: &str) -> (r: String)
    ensures
        r@ == body_text(goal@, opt_str(body), agent@),
{
    let part = match body {
        Some(b) => without_headings(b),
        None => cat3("（待 ", agent, " 子 Agent 填入草案要点）"),
    };
    cat5(
        "## Goal\n\n",
        goal,
        "\n\n## Plan\n\n",
        part.as_str(),
        "\n\n## Todos Board\n\n（由 update_plan / todos 自动维护）\n",
    )
}

/// The character that stands for `c` in an id.
pub open spec fn id_char(c: char) -> char {
    if plain(ascii_lower(c)) {
        ascii_lower(c)
    } else {
        '-'
    }
}

/// The id that is made from a goal.
pub open spec fn derived_id(goal: Seq<char>) -> Seq<char> {
    "plan_"@ + goal.map_values(|c: char| id_char(c))
}

/// The id of the plan that is asked for.
pub open spec fn asked_id(args: CreatePlanArgs) -> Seq<char> {
    match args.plan_id {
        Some(id) => id@,
        None => derived_id(args.goal@),
    }
}

/// The id of a plan, made from its goal: each character that an id may not hold becomes a dash.
pub fn derive_plan_id(goal: &str) -> (r: String)
    ensures
        r@ == derived_id(goal@),
        is_safe(r@),
{
    let v = chars_of(goal);
    let mut out: Vec<char> = Vec::new();
    let ghost all = goal@.map_values(|c: char| id_char(c));
    let mut i: usize = 0;
    while i < v.len()
        invariant
            i <= v@.len(),
            v@ == goal@,
            all == goal@.map_values(|c: char| id_char(c)),
            out@ == all.take(i as int),
        decreases v@.len() - i,
    {
        let c = lower_char(v[i]);
        let d: char = if ('a' <= c && c <= 'z') || ('0' <= c && c <= '9') || c == '_' || c == '-' {
            c
        } else {
            '-'
        };
        out.push(d);
        assert(all.take(i + 1) =~= all.take(i as int).push(all[i as int]));
        i = i + 1;
    }
    assert(all.take(all.len() as int) =~= all);
    let r = cat("plan_", text_of(&out).as_str());
    proof {
        reveal_strlit("plan_");
        assert forall|k: int| 0 <= k < r@.len() implies plain(#[trigger] r@[k]) by {
            if k < 5 {
                assert(r@[k] == "plan_"@[k]);
            } else {
                assert(r@[k] == all[k - 5]);
                assert(all[k - 5] == id_char(goal@[k - 5]));
            }
        }
    }
    r
}

/// A plan that is to be written, and where.
#[derive(Clone, Debug, PartialEq, Eq)]
pub struct PlannedFile {
    pub path: String,
    pub plan: PlanFile,
}

/// Why a plan cannot be drafted, or nothing if it can.
pub open spec fn objection(mode: PlanMode, args: CreatePlanArgs) -> Option<Fault> {
    if !(mode is Planning) {
        Some(Fault::InvisibleInMode { tool: "create_plan"@, mode: mode_word(mode) })
    } else if args.plan_id is Some && !is_safe(asked_id(args)) {
        Some(
            Fault::BadArgs(
                "plan_id 非法: "@ + "plan_id 非法或不安全："@ + complaint(asked_id(args)),
            ),
        )
    } else if trimmed(args.goal@).len() == 0 {
        Some(Fault::BadArgs("goal 不可为空"@))
    } else if args.body matches Some(b) && trimmed(b@).len() == 0 {
        Some(Fault::BadArgs("body 不可为空"@))
    } else if args.todos@.len() == 0 {
        Some(Fault::BadArgs("todos 不可为空"@))
    } else {
        match listed(args) {
            Err(e) => Some(Fault::Op(e)),
            Ok(_) => None,
        }
    }
}

/// Whether `m` is the milestone that is asked for.
pub open spec fn is_milestone(m: Milestone, a: MilestoneArg) -> bool {
    m.id == a.id && m.title == a.title && m.todo_ids == a.todo_ids
}

/// Whether `plan` is the plan that is asked for at the time `now`, for `agent` to review.
pub open spec fn is_drafted(
    plan: PlanFile,
    args: CreatePlanArgs,
    now: Seq<char>,
    agent: Seq<char>,
) -> bool {
    let fm = plan.frontmatter;
    &&& fm.plan_id@ == asked_id(args)
    &&& fm.goal == args.goal
    &&& fm.mode is Planning
    &&& fm.session_key is None
    &&& fm.session_id is None
    &&& fm.created_at@ == now
    &&& fm.schema_version == PLAN_FILE_SCHEMA_VERSION
    &&& fm.todos@ == todo_items(args)
    &&& fm.milestones@.len() == args.milestones@.len()
    &&& forall|i: int|
        0 <= i < fm.milestones@.len() ==> is_milestone(
            #[trigger] fm.milestones@[i],
            args.milestones@[i],
        )
    &&& plan.body@ == body_text(args.goal@, opt_text(args.body), agent)
}

/// Drafts a plan: what is to be written and where, or why not. A plan can be drafted only while
/// planning, with a safe id or none, a goal, a body that is not blank if one is given, and at least one
/// todo; no two todos have the same id, and at most one is in progress.
pub fn prepare(
    runtime: &PlanRuntime,
    args: CreatePlanArgs,
    home: &str,
    now: &str,
    agent: &str,
) -> (r: Result<PlannedFile, ToolError>)
    ensures
        match r {
            Ok(p) => objection(runtime.mode, args) is None && is_drafted(p.plan, args, now@, agent@)
                && p.path@ == plan_path(home@, asked_id(args)),
            Err(e) => objection(runtime.mode, args) == Some(e@),
        },
{
    match &runtime.mode {
        PlanMode::Planning => {},
        other => {
            return Err(
                ToolError::InvisibleInMode {
                    tool: "create_plan".to_owned(),
                    mode: other.as_str().to_owned(),
                },
            );
        },
    }
    let plan_id = match &args.plan_id {
        Some(id) => {
            if let Err(e) = assert_plan_id_safe(id.as_str()) {
                let m = e.message();
                let out = cat("plan_id 非法: ", m.as_str());
                proof {
                    let e1 = e->UnsafePlanId_0@;
                    assert(out@ =~= "plan_id 非法: "@ + "plan_id 非法或不安全："@ + e1);
                }
                return Err(ToolError::BadArgs(out));
            }
            id.clone()
        },
        None => derive_plan_id(args.goal.as_str()),
    };
    let goal_words = trim(args.goal.as_str());
    if goal_words.as_str().is_empty() {
        return Err(ToolError::BadArgs("goal 不可为空".to_owned()));
    }
    if let Some(b) = &args.body {
        if trim(b.as_str()).as_str().is_empty() {
            return Err(ToolError::BadArgs("body 不可为空".to_owned()));
        }
    }
    if args.todos.len() == 0 {
        return Err(ToolError::BadArgs("todos 不可为空".to_owned()));
    }
    let mut todos: Vec<TodoItem> = Vec::new();
    let mut adds: Vec<TodoOp> = Vec::new();
    let mut i: usize = 0;
    let ghost items = todo_items(args);
    while i < args.todos.len()
        invariant
            i <= args.todos@.len(),
            items == todo_items(args),
            todos@ == items.take(i as int),
            adds@ == additions(items.take(i as int)),
        decreases args.todos@.len() - i,
    {
        let t = &args.todos[i];
        let item = TodoItem {
            id: t.id.clone(),
            content: t.content.clone(),
            status: t.status,
            milestone_id: copy_opt(&t.milestone_id),
        };
        assert(item == items[i as int]);
        adds.push(TodoOp::AddTodo(item.copied()));
        todos.push(item);
        assert(items.take(i + 1) =~= items.take(i as int).push(items[i as int]));
        assert(additions(items.take(i + 1)) =~= additions(items.take(i as int)).push(
            TodoOp::AddTodo(items[i as int]),
        ));
        i = i + 1;
    }
    assert(items.take(items.len() as int) =~= items);
    let mut fresh: Vec<TodoItem> = Vec::new();
    assert(todos_view(fresh@) =~= Seq::<Todo>::empty());
    if let Err(e) = apply_todos_ops(&mut fresh, &adds) {
        return Err(ToolError::Op(e));
    }
    let path = match plan_path_for_id(home, plan_id.as_str()) {
        Ok(p) => p,
        Err(e) => {
            return Err(ToolError::Plan(e));
        },
    };
    let ghost asked = args;
    let CreatePlanArgs { plan_id: _, goal, body, milestones: wanted, todos: _ } = args;
    let text = match &body {
        Some(b) => default_body(goal.as_str(), Some(b.as_str()), agent),
        None => default_body(goal.as_str(), None, agent),
    };
    let mut milestones: Vec<Milestone> = Vec::new();
    let mut left: Vec<MilestoneArg> = wanted;
    let mut k: usize = 0;
    let n: usize = left.len();
    while k < n
        invariant
            k <= n,
            n == asked.milestones@.len(),
            left@ == asked.milestones@.skip(k as int),
            milestones@.len() == k,
            forall|j: int|
                0 <= j < k ==> is_milestone(#[trigger] milestones@[j], asked.milestones@[j]),
        decreases n - k,
    {
        assert(left@.len() == n - k);
        let m = left.remove(0);
        assert(left@ =~= asked.milestones@.skip(k + 1));
        milestones.push(Milestone { id: m.id, title: m.title, todo_ids: m.todo_ids });
        k = k + 1;
    }
    Ok(
        PlannedFile {
            path,
            plan: PlanFile {
                frontmatter: PlanFileFrontmatter {
                    plan_id,
                    goal,
                    mode: PlanFileMode::Planning,
                    session_key: None,
                    session_id: None,
                    created_at: now.to_owned(),
                    schema_version: PLAN_FILE_SCHEMA_VERSION,
                    milestones,
                    todos,
                },
                body: text,
            },
        },
    )
}

/// What the tool answers.
#[derive(Clone, Debug, PartialEq, Eq)]
pub struct CreatePlanOutcome {
    pub plan_id: String,
    pub path: String,
    pub mode: String,
    pub review: ReviewSummary,
}

/// After the plan is written: the session remembers it, and the answer says where it is, with a
/// word about `agent`, who has not reviewed it yet.
pub fn written(runtime: &mut PlanRuntime, planned: &PlannedFile, agent: &str) -> (r:
    CreatePlanOutcome)
    ensures
        final(runtime).active_planning_plan_id is Some,
        final(runtime).active_planning_plan_id->0@ == planned.plan.frontmatter.plan_id@,
        *final(runtime) == (PlanRuntime {
            active_planning_plan_id: final(runtime).active_planning_plan_id,
            ..*old(runtime)
        }),
        r.plan_id@ == planned.plan.frontmatter.plan_id@,
        r.path@ == planned.path@,
        r.mode@ == "planning"@,
        is_aborted_review(r.review, nobody_reviews(agent@), "not_dispatched"@),
{
    runtime.set_active_planning_plan_id(planned.plan.frontmatter.plan_id.clone());
    CreatePlanOutcome {
        plan_id: planned.plan.frontmatter.plan_id.clone(),
        path: planned.path.clone(),
        mode: "planning".to_owned(),
        review: ReviewSummary::placeholder_pending(agent),
    }
}

/// After the review: the answer holds it, whatever it says. The second part says whether the plan
/// is to be read once more, because the review changed it.
pub fn reviewed(outcome: CreatePlanOutcome, review: ReviewSummary) -> (r: (
    CreatePlanOutcome,
    bool,
))
    ensures
        r.0 == (CreatePlanOutcome { review, ..outcome }),
        r.1 == review.applied_changes,
{
    let reload = review.applied_changes;
    (
        CreatePlanOutcome {
            plan_id: outcome.plan_id,
            path: outcome.path,
            mode: outcome.mode,
            review,
        },
        reload,
    )
}

/// A drafted plan is in order: no id stands twice among its todos.
pub proof fn law_drafts_are_in_order(args: CreatePlanArgs)
    ensures
        listed(args) matches Ok(list) ==> distinct(list) && running(list) <= 1 && list
            == todos_view(todo_items(args)),
{
    law_changes_keep_order(Seq::empty(), additions(todo_items(args)));
    lemma_additions(todo_items(args));
}

/// What a new plan says has no heading of its own: each heading stands once, where the plan puts it.
pub proof fn law_headings_stand_once(ls: Seq<Seq<char>>)
    ensures
        forall|i: int| 0 <= i < unheaded(ls).len() ==> !is_heading(#[trigger] unheaded(ls)[i]),
        forall|l: Seq<char>| #[trigger] ls.contains(l) && !is_heading(l) ==> unheaded(ls).contains(l),
    decreases ls.len(),
{
    if ls.len() > 0 {
        let front = ls.drop_last();
        let rest = unheaded(front);
        law_headings_stand_once(front);
        assert forall|l: Seq<char>| #[trigger] ls.contains(l) && !is_heading(l) implies unheaded(
            ls,
        ).contains(l) by {
            let i = choose|i: int| 0 <= i < ls.len() && ls[i] == l;
            if i < front.len() {
                assert(front[i] == l);
                assert(front.contains(l));
                let k = choose|k: int| 0 <= k < rest.len() && rest[k] == l;
                assert(unheaded(ls)[k] == l);
            } else {
                assert(unheaded(ls)[rest.len() as int] == l);
            }
        }
    }
}

proof fn lemma_additions(items: Seq<TodoItem>)
    ensures
        crate::plan_runtime::ops::all_changed(Seq::empty(), additions(items)) matches Ok(list)
            ==> list == todos_view(items),
    decreases items.len(),
{
    let ops = additions(items);
    if items.len() > 0 {
        lemma_additions(items.drop_last());
        assert(ops.drop_last() =~= additions(items.drop_last()));
        assert(ops.last() == TodoOp::AddTodo(items.last()));
        assert(todos_view(items) =~= todos_view(items.drop_last()).push(items.last()@));
    } else {
        assert(todos_view(items) =~= Seq::<Todo>::empty());
    }
}

/// A draft keeps its lines: those that stay are exactly the lines that are no headings of a plan, each
/// as often as it is given and in the same order; without such headings all of them stay.
pub proof fn law_lines_of_a_draft_stay(ls: Seq<Seq<char>>)
    ensures
        unheaded(ls) == ls.filter(|l: Seq<char>| !is_heading(l)),
        (forall|i: int| 0 <= i < ls.len() ==> !is_heading(#[trigger] ls[i])) ==> unheaded(ls) == ls,
    decreases ls.len(),
{
    reveal(Seq::filter);
    if ls.len() > 0 {
        let front = ls.drop_last();
        law_lines_of_a_draft_stay(front);
        if forall|i: int| 0 <= i < ls.len() ==> !is_heading(#[trigger] ls[i]) {
            assert forall|i: int| 0 <= i < front.len() implies !is_heading(#[trigger] front[i]) by {
                assert(!is_heading(ls[i]));
            }
            assert(!is_heading(ls[ls.len() - 1]));
            assert(unheaded(ls) =~= ls);
        }
    } else {
        assert(unheaded(ls) =~= ls);
    }
}

/// Lines that are added to a draft are added to what stays of it, and nothing else changes.
pub proof fn law_draft_lines_add_up(a: Seq<Seq<char>>, b: Seq<Seq<char>>)
    ensures
        unheaded(a + b) == unheaded(a) + unheaded(b),
{
    law_lines_of_a_draft_stay(a);
    law_lines_of_a_draft_stay(b);
    law_lines_of_a_draft_stay(a + b);
    Seq::filter_distributes_over_add(a, b, |l: Seq<char>| !is_heading(l));
}

/// Only second level headings are dropped, and of those only the five that a plan has or had: a line
/// that does not begin with two number signs is kept whatever it says.
pub proof fn law_only_plan_headings_are_dropped(line: Seq<char>)
    ensures
        is_heading(line) ==> trimmed(line).len() >= 3 && trimmed(line)[0] == '#' && trimmed(line)[1]
            == '#' && trimmed(line)[2] == ' ',
        is_heading(line) <==> exists|name: Seq<char>| #[trigger]
            is_section(name) && trimmed(line) == "## "@ + name,
{
    reveal_strlit("## ");
    reveal_strlit("## Goal");
    reveal_strlit("## Plan");
    reveal_strlit("## Draft");
    reveal_strlit("## Notes");
    reveal_strlit("## Review");
    reveal_strlit("Goal");
    reveal_strlit("Plan");
    reveal_strlit("Draft");
    reveal_strlit("Notes");
    reveal_strlit("Review");
    assert("## Goal"@ =~= "## "@ + "Goal"@);
    assert("## Plan"@ =~= "## "@ + "Plan"@);
    assert("## Draft"@ =~= "## "@ + "Draft"@);
    assert("## Notes"@ =~= "## "@ + "Notes"@);
    assert("## Review"@ =~= "## "@ + "Review"@);
    assert(is_section("Goal"@) && is_section("Plan"@) && is_section("Draft"@) && is_section("Notes"@)
        && is_section("Review"@));
}

/// The names of the sections that a plan has or had.
pub open spec fn is_section(name: Seq<char>) -> bool {
    name == "Goal"@ || name == "Plan"@ || name == "Draft"@ || name == "Notes"@ || name == "Review"@
}

/// A draft without headings of a plan and without carriage returns stands in the plan as it is written,
/// but for white space at its ends.
pub proof fn law_plain_drafts_are_kept_word_for_word(body: Seq<char>, agent: Seq<char>)
    requires
        !body.contains('\r'),
        forall|i: int| 0 <= i < lines(body).len() ==> !is_heading(#[trigger] lines(body)[i]),
    ensures
        plan_part(Some(body), agent) == trimmed(body),
{
    law_lines_of_a_draft_stay(lines(body));
    crate::search::law_lines_are_joined_again(body);
    reveal_strlit("\n");
    assert("\n"@ =~= seq!['\n']);
    let j = joined(lines(body), seq!['\n']);
    crate::text::law_white_space_behind_does_not_count(j, '\n');
}

/// A new plan tells its goal, then what it says, then keeps a place for its todos: each in full, in this
/// order, below its own heading.
#[verifier::rlimit(40)]
#[verifier::spinoff_prover]
pub proof fn law_new_plans_tell_goal_and_draft(
    goal: Seq<char>,
    body: Option<Seq<char>>,
    agent: Seq<char>,
)
    ensures
        crate::search::has_prefix(
            body_text(goal, body, agent),
            "## Goal\n\n"@ + goal + "\n\n## Plan\n\n"@ + plan_part(body, agent)
                + "\n\n## Todos Board\n\n"@,
        ),
        body is None ==> crate::search::has_text(plan_part(body, agent), agent),
{
    let head = "## Goal\n\n"@ + goal + "\n\n## Plan\n\n"@ + plan_part(body, agent);
    reveal_strlit("\n\n## Todos Board\n\n");
    reveal_strlit("\n\n## Todos Board\n\n（由 update_plan / todos 自动维护）\n");
    let tail = "\n\n## Todos Board\n\n（由 update_plan / todos 自动维护）\n"@;
    let mark = "\n\n## Todos Board\n\n"@;
    assert(tail.take(mark.len() as int) =~= mark);
    let all = body_text(goal, body, agent);
    assert(all == head + tail);
    assert(all.subrange(0, (head + mark).len() as int) =~= head + tail.take(mark.len() as int));
    if body is None {
        crate::search::lemma_text_in_itself(agent);
        crate::search::lemma_text_within("（待 "@, agent, " 子 Agent 填入草案要点）"@, agent);
    }
}

/// The id that is made from a goal shows it character by character: letters in lower case, digits, dashes
/// and underscores stay, and everything else becomes a dash.
pub proof fn law_derived_ids_show_the_goal(goal: Seq<char>, i: int)
    requires
        0 <= i < goal.len(),
    ensures
        derived_id(goal).len() == goal.len() + 5,
        derived_id(goal).take(5) == "plan_"@,
        'a' <= goal[i] <= 'z' || '0' <= goal[i] <= '9' || goal[i] == '_' || goal[i] == '-' ==> derived_id(
            goal,
        )[i + 5] == goal[i],
        'A' <= goal[i] <= 'Z' ==> derived_id(goal)[i + 5] as u32 == goal[i] as u32 + 32,
        !('a' <= goal[i] <= 'z' || 'A' <= goal[i] <= 'Z' || '0' <= goal[i] <= '9' || goal[i] == '_')
            ==> derived_id(goal)[i + 5] == '-',
{
    reveal_strlit("plan_");
    assert(derived_id(goal).take(5) =~= "plan_"@);
}

/// A plan that is asked for under an id gets that id, and else one that is made from its goal.
pub proof fn law_given_ids_are_kept(args: CreatePlanArgs)
    ensures
        args.plan_id matches Some(id) ==> asked_id(args) == id@,
        args.plan_id is None ==> asked_id(args) == derived_id(args.goal@),
{
}

proof fn lemma_additions_accepted(items: Seq<TodoItem>)
    ensures
        crate::plan_runtime::ops::all_changed(Seq::empty(), additions(items)) is Ok <==> distinct(
            todos_view(items),
        ),
    decreases items.len(),
{
    let ops = additions(items);
    let all = todos_view(items);
    if items.len() > 0 {
        let front = items.drop_last();
        lemma_additions_accepted(front);
        lemma_additions(front);
        assert(ops.drop_last() =~= additions(front));
        let op = TodoOp::AddTodo(items.last());
        assert(ops.last() == op);
        let before = todos_view(front);
        assert(all =~= before.push(items.last()@));
        crate::plan_runtime::ops::law_changes_need_their_todo(before, op);
        let n = before.len() as int;
        if distinct(all) {
            assert forall|i: int, j: int| 0 <= i < j < before.len() implies (#[trigger] before[i]).id
                != (#[trigger] before[j]).id by {
                assert(all[i] == before[i] && all[j] == before[j]);
            }
            assert forall|i: int| 0 <= i < before.len() implies (#[trigger] before[i]).id
                != items.last().id@ by {
                assert(all[i].id != all[n].id);
            }
        }
        if distinct(before) && !crate::plan_runtime::ops::has_id(before, items.last().id@) {
            assert forall|i: int, j: int| 0 <= i < j < all.len() implies (#[trigger] all[i]).id != (
            #[trigger] all[j]).id by {
                assert(all[i] == before[i]);
                if j < n {
                    assert(all[j] == before[j]);
                }
            }
        }
    }
}

/// A plan can be drafted exactly while planning, with a safe id or none, a goal, a draft that is not
/// blank if there is one, and at least one todo, if no two todos have the same id and at most one is in
/// progress.
pub proof fn law_when_a_plan_can_be_drafted(mode: PlanMode, args: CreatePlanArgs)
    ensures
        objection(mode, args) is None <==> {
            &&& mode is Planning
            &&& args.plan_id matches Some(id) ==> is_safe(id@)
            &&& trimmed(args.goal@).len() > 0
            &&& args.body matches Some(b) ==> trimmed(b@).len() > 0
            &&& args.todos@.len() > 0
            &&& forall|i: int, j: int|
                0 <= i < j < args.todos@.len() ==> (#[trigger] args.todos@[i]).id@ != (
                #[trigger] args.todos@[j]).id@
            &&& todos_view(todo_items(args)).filter(|t: Todo| t.status is InProgress).len() <= 1
        },
{
    let items = todo_items(args);
    let all = todos_view(items);
    lemma_additions_accepted(items);
    lemma_additions(items);
    crate::plan_runtime::ops::law_one_todo_in_progress(Seq::empty(), additions(items));
    assert forall|i: int| 0 <= i < all.len() implies (#[trigger] all[i]).id == args.todos@[i].id@ by {}
    if distinct(all) {
        assert forall|i: int, j: int| 0 <= i < j < args.todos@.len() implies (
        #[trigger] args.todos@[i]).id@ != (#[trigger] args.todos@[j]).id@ by {
            assert(all[i].id != all[j].id);
        }
    }
}

/// A drafted plan is what was asked for: the goal, every todo in its place with its text, status and
/// milestone, every milestone in its place; it waits for no one and is worked on by no one.
pub proof fn law_drafts_hold_what_was_asked(
    plan: PlanFile,
    args: CreatePlanArgs,
    now: Seq<char>,
    agent: Seq<char>,
)
    requires
        is_drafted(plan, args, now, agent),
    ensures
        args.plan_id matches Some(id) ==> plan.frontmatter.plan_id@ == id@,
        args.plan_id is None ==> plan.frontmatter.plan_id@ == derived_id(args.goal@),
        args.body matches Some(b) ==> plan.body@ == body_text(args.goal@, Some(b@), agent),
        args.body is None ==> plan.body@ == body_text(args.goal@, None, agent),
        plan.frontmatter.goal == args.goal,
        plan.frontmatter.mode is Planning,
        plan.frontmatter.session_key is None && plan.frontmatter.session_id is None,
        plan.frontmatter.created_at@ == now,
        plan.frontmatter.schema_version == 1,
        plan.frontmatter.todos@.len() == args.todos@.len(),
        forall|i: int|
            0 <= i < args.todos@.len() ==> {
                let t = #[trigger] plan.frontmatter.todos@[i];
                &&& t.id == args.todos@[i].id
                &&& t.content == args.todos@[i].content
                &&& t.status == args.todos@[i].status
                &&& t.milestone_id == args.todos@[i].milestone_id
            },
        plan.frontmatter.milestones@.len() == args.milestones@.len(),
        forall|i: int|
            0 <= i < args.milestones@.len() ==> {
                let m = #[trigger] plan.frontmatter.milestones@[i];
                &&& m.id == args.milestones@[i].id
                &&& m.title == args.milestones@[i].title
                &&& m.todo_ids == args.milestones@[i].todo_ids
            },
{
    assert forall|i: int| 0 <= i < args.milestones@.len() implies is_milestone(
        #[trigger] plan.frontmatter.milestones@[i],
        args.milestones@[i],
    ) by {}
}

} // verus!
