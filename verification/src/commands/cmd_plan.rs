//! `/plan`: entering and leaving plan mode, building a plan, listing the plans.

use vstd::prelude::*;
use vstd::string::*;

use crate::commands::parse::{usage, ChatCommand, ChatCommandOutcome};
#[allow(unused_imports)]
use crate::commands::parse::is_usage;
use crate::numerals::decimal_usize;
#[allow(unused_imports)]
use crate::numerals::decimal;
use crate::order::sorting_order;
#[allow(unused_imports)]
use crate::order::{is_arrangement, sorts};
use crate::plan_runtime::mode::{PlanMode, PlanRuntime};
#[allow(unused_imports)]
use crate::plan_runtime::mode::{may_enter_planning, mode_in_the_way};
use crate::search::lines_of;
#[allow(unused_imports)]
use crate::search::lines;
use crate::text::{cat, cat5, one_text, pad, push_text, same};
#[allow(unused_imports)]
use crate::text::{padded, texts};

verus! {

/// What `/plan` is told to do.
#[derive(Clone, Debug, PartialEq, Eq)]
pub enum PlanCommand {
    /// Enter plan mode.
    Enter,
    /// Back to chat.
    Exit,
    /// Build the plan; without a target, the one the session has.
    Build { plan_target: Option<String> },
    /// List the plans.
    List,
}

/// The usage message.
pub open spec fn usage_message() -> Seq<char> {
    "用法错误：/plan | /plan exit | /plan build [plan_id/path] | /plan list"@
}

/// `/plan` alone, `/plan exit`, `/plan list`, or `/plan build` with at most one target.
pub open spec fn means(tokens: Seq<Seq<char>>, r: ChatCommand) -> bool {
    if tokens.len() == 1 {
        r == ChatCommand::Plan(PlanCommand::Enter)
    } else if tokens.len() == 2 && tokens[1] == "exit"@ {
        r == ChatCommand::Plan(PlanCommand::Exit)
    } else if tokens.len() == 2 && tokens[1] == "list"@ {
        r == ChatCommand::Plan(PlanCommand::List)
    } else if tokens.len() == 2 && tokens[1] == "build"@ {
        r == ChatCommand::Plan(PlanCommand::Build { plan_target: None })
    } else if tokens.len() == 3 && tokens[1] == "build"@ {
        r matches ChatCommand::Plan(PlanCommand::Build { plan_target: Some(t) }) && t@ == tokens[2]
    } else {
        is_usage(r, usage_message())
    }
}

/// Reads the words of a `/plan` line.
pub fn parse_args(tokens: Vec<String>) -> (r: ChatCommand)
    ensures
        means(texts(tokens@), r),
{
    if tokens.len() == 1 {
        ChatCommand::Plan(PlanCommand::Enter)
    } else if tokens.len() == 2 && same(tokens[1].as_str(), "exit") {
        ChatCommand::Plan(PlanCommand::Exit)
    } else if tokens.len() == 2 && same(tokens[1].as_str(), "list") {
        ChatCommand::Plan(PlanCommand::List)
    } else if tokens.len() == 2 && same(tokens[1].as_str(), "build") {
        ChatCommand::Plan(PlanCommand::Build { plan_target: None })
    } else if tokens.len() == 3 && same(tokens[1].as_str(), "build") {
        ChatCommand::Plan(PlanCommand::Build { plan_target: Some(tokens[2].clone()) })
    } else {
        usage("用法错误：/plan | /plan exit | /plan build [plan_id/path] | /plan list")
    }
}

/// A plan as the list shows it.
#[derive(Clone, Debug, PartialEq, Eq)]
pub struct PlanRow {
    pub plan_id: String,
    pub state: String,
    pub goal: String,
    pub created_at: String,
}

/// The first line of a text; nothing if there is none.
pub open spec fn first_line(s: Seq<char>) -> Seq<char> {
    if lines(s).len() == 0 {
        Seq::empty()
    } else {
        lines(s)[0]
    }
}

/// The line of one plan in the list.
pub open spec fn plan_line(row: PlanRow) -> Seq<char> {
    "  - "@ + padded(row.plan_id@, 32) + " ["@ + padded(row.state@, 10) + "]  "@ + first_line(
        row.goal@,
    ) + "  (created "@ + row.created_at@ + ")"@
}

/// The first line of a text.
pub fn first_line_of(s: &str) -> (r: String)
    ensures
        r@ == first_line(s@),
{
    let all = lines_of(s);
    proof {
        assert(texts(all@).len() == all@.len());
    }
    if all.len() == 0 {
        let none: String = String::new();
        assert(none@ =~= Seq::empty());
        none
    } else {
        assert(texts(all@)[0] == all@[0]@);
        all[0].clone()
    }
}

fn format_plan_line(row: &PlanRow) -> (r: String)
    ensures
        r@ == plan_line(*row),
{
    let mut line = cat("  - ", pad(row.plan_id.as_str(), 32).as_str());
    line.append(" [");
    line.append(pad(row.state.as_str(), 10).as_str());
    line.append("]  ");
    line.append(first_line_of(row.goal.as_str()).as_str());
    line.append("  (created ");
    line.append(row.created_at.as_str());
    line.append(")");
    line
}

/// The ids of the rows.
pub open spec fn row_ids(rows: Seq<PlanRow>) -> Seq<String> {
    rows.map_values(|r: PlanRow| r.plan_id)
}

/// What `/plan list` prints: the plans in the order of their ids.
pub fn plan_list_lines(rows: &Vec<PlanRow>, plans_dir: &str) -> (r: Vec<String>)
    ensures
        if rows@.len() == 0 {
            texts(r@) == seq!["[plan list] 暂无 plan："@ + plans_dir@]
        } else {
            exists|p: Seq<usize>| #[trigger]
                sorts(row_ids(rows@), p) && texts(r@) == seq![
                    "[plan list] "@ + decimal(rows@.len()) + " plan(s) in "@ + plans_dir@ + "："@,
                ] + p.map_values(|i: usize| plan_line(rows@[i as int]))
        },
{
    if rows.len() == 0 {
        return one_text(cat("[plan list] 暂无 plan：", plans_dir));
    }
    let mut ids: Vec<String> = Vec::new();
    let mut k: usize = 0;
    while k < rows.len()
        invariant
            k <= rows@.len(),
            ids@ == row_ids(rows@).take(k as int),
        decreases rows@.len() - k,
    {
        ids.push(rows[k].plan_id.clone());
        assert(row_ids(rows@).take(k + 1) =~= row_ids(rows@).take(k as int).push(
            rows@[k as int].plan_id,
        ));
        k = k + 1;
    }
    assert(row_ids(rows@).take(rows@.len() as int) =~= row_ids(rows@));
    let p = sorting_order(&ids);
    let ghost listed = p@.map_values(|i: usize| plan_line(rows@[i as int]));
    let head = cat5(
        "[plan list] ",
        decimal_usize(rows.len()).as_str(),
        " plan(s) in ",
        plans_dir,
        "：",
    );
    let ghost head_text = head@;
    let mut out = one_text(head);
    let mut n: usize = 0;
    assert(texts(out@) =~= seq![head_text] + listed.take(0));
    while n < p.len()
        invariant
            n <= p@.len(),
            is_arrangement(p@, rows@.len()),
            listed == p@.map_values(|i: usize| plan_line(rows@[i as int])),
            texts(out@) == seq![head_text] + listed.take(n as int),
        decreases p@.len() - n,
    {
        push_text(&mut out, format_plan_line(&rows[p[n]]));
        assert(texts(out@) =~= seq![head_text] + listed.take(n + 1));
        n = n + 1;
    }
    assert(listed.take(listed.len() as int) =~= listed);
    assert(sorts(row_ids(rows@), p@));
    out
}

/// What `/plan list` prints if the directory of the plans cannot be read.
pub fn plan_list_missing_line(plans_dir: &str) -> (r: String)
    ensures
        r@ == "[plan list] 暂无 plan（目录不存在或为空）："@ + plans_dir@,
{
    cat("[plan list] 暂无 plan（目录不存在或为空）：", plans_dir)
}

/// What `/plan list` prints if it is not known where the plans are.
pub fn plan_list_unresolved_line(error: &str) -> (r: String)
    ensures
        r@ == "[plan list] 无法解析 plans 目录："@ + error@,
{
    cat("[plan list] 无法解析 plans 目录：", error)
}

// ---------------------------------------------------------------- carrying it out

/// What a command says, and whether that is an error.
#[derive(Clone, Debug, PartialEq, Eq)]
pub struct PlanSaying {
    pub line: String,
    pub is_error: bool,
}

/// `/plan`: enters plan mode, or says why not.
pub fn run_enter(runtime: &mut PlanRuntime) -> (r: PlanSaying)
    ensures
        if may_enter_planning(old(runtime).mode) {
            &&& *final(runtime) == (PlanRuntime { mode: PlanMode::Planning, ..*old(runtime) })
            &&& !r.is_error
            &&& r.line@
                == "[plan] 已进入 PLAN 模式。\n[plan] 先与模型讨论目标；用 /plan exit 退回 Chat；用 /plan build <plan_id/path> 进入 EXEC。"@
        } else {
            &&& *final(runtime) == *old(runtime)
            &&& r.is_error
            &&& r.line@ == "[plan] 进入 PLAN 失败："@ + "当前已经在 "@ + mode_in_the_way(
                old(runtime).mode,
            ) + " 模式，无法重复进入"@
        },
{
    match runtime.enter_planning() {
        Ok(_) => PlanSaying {
            line:
                "[plan] 已进入 PLAN 模式。\n[plan] 先与模型讨论目标；用 /plan exit 退回 Chat；用 /plan build <plan_id/path> 进入 EXEC。".to_owned(),
            is_error: false,
        },
        Err(e) => {
            let line = cat("[plan] 进入 PLAN 失败：", e.message().as_str());
            assert(line@ =~= "[plan] 进入 PLAN 失败："@ + "当前已经在 "@ + e->AlreadyInMode_0@
                + " 模式，无法重复进入"@);
            PlanSaying { line, is_error: true }
        },
    }
}

/// `/plan exit`: goes back to chat, or says why not.
pub fn run_exit(runtime: &mut PlanRuntime) -> (r: PlanSaying)
    ensures
        if old(runtime).mode is Chat {
            &&& *final(runtime) == *old(runtime)
            &&& r.is_error
            &&& r.line@ == "[plan] /plan exit 失败："@ + "当前已经在 "@ + "chat"@
                + " 模式，无法重复进入"@
        } else {
            &&& *final(runtime) == (PlanRuntime { mode: PlanMode::Chat, ..*old(runtime) })
            &&& !r.is_error
            &&& r.line@ == "[plan] 已退回 Chat 模式。"@
        },
{
    match runtime.exit_to_chat() {
        Ok(_) => PlanSaying { line: "[plan] 已退回 Chat 模式。".to_owned(), is_error: false },
        Err(e) => {
            let line = cat("[plan] /plan exit 失败：", e.message().as_str());
            assert(line@ =~= "[plan] /plan exit 失败："@ + "当前已经在 "@ + "chat"@
                + " 模式，无法重复进入"@);
            PlanSaying { line, is_error: true }
        },
    }
}

/// What came of asking which session this is.
#[derive(Clone, Debug, PartialEq, Eq)]
pub enum SessionLookup {
    Found(String),
    /// There is none.
    Missing,
    Failed(String),
}

/// What is built: for which session, and which plan.
#[derive(Clone, Debug, PartialEq, Eq)]
pub struct BuildRequest {
    pub session_id: String,
    pub target: String,
}

/// A plan that there is to build when none is named, or why there is none.
#[derive(Clone, Debug, PartialEq, Eq)]
pub enum DefaultTarget {
    Plan(String),
    Refused(String),
}

/// Why nothing is built, or nothing if something is.
pub open spec fn build_refusal(
    session: SessionLookup,
    named: Option<String>,
    default: DefaultTarget,
) -> Option<Seq<char>> {
    match session {
        SessionLookup::Missing => Some(
            "[plan] /plan build 失败：当前无会话，无法确定 session_id"@,
        ),
        SessionLookup::Failed(e) => Some(
            "[plan] /plan build 失败：读取当前 session_id 失败："@ + e@,
        ),
        SessionLookup::Found(_) => match named {
            Some(_) => None,
            None => match default {
                DefaultTarget::Plan(_) => None,
                DefaultTarget::Refused(e) => Some("[plan] /plan build 失败："@ + e@),
            },
        },
    }
}

/// `/plan build`: what is built, or why nothing is. The plan that is named goes before the one there
/// is by default.
pub fn plan_build(session: SessionLookup, named: Option<String>, default: DefaultTarget) -> (r: Result<
    BuildRequest,
    String,
>)
    ensures
        match r {
            Ok(b) => {
                &&& build_refusal(session, named, default) is None
                &&& session == SessionLookup::Found(b.session_id)
                &&& b.target == (match named {
                    Some(t) => t,
                    None => default->Plan_0,
                })
            },
            Err(m) => build_refusal(session, named, default) == Some(m@),
        },
{
    let session_id = match session {
        SessionLookup::Found(s) => s,
        SessionLookup::Missing => {
            return Err("[plan] /plan build 失败：当前无会话，无法确定 session_id".to_owned());
        },
        SessionLookup::Failed(e) => {
            return Err(cat("[plan] /plan build 失败：读取当前 session_id 失败：", e.as_str()));
        },
    };
    let target = match named {
        Some(t) => t,
        None => match default {
            DefaultTarget::Plan(t) => t,
            DefaultTarget::Refused(e) => {
                return Err(cat("[plan] /plan build 失败：", e.as_str()));
            },
        },
    };
    Ok(BuildRequest { session_id, target })
}

/// What came of building.
#[derive(Clone, Debug, PartialEq, Eq)]
pub enum BuildEnd {
    Built { plan_id: String, plan_path: String, warnings: Vec<String> },
    Refused(String),
}

/// What the command comes to once the plan was built: the session works on it, and the model is told
/// to start; or why it was not. The lines are errors and warnings.
pub fn build_finished(runtime: &mut PlanRuntime, end: BuildEnd) -> (r: (
    ChatCommandOutcome,
    Vec<String>,
))
    ensures
        match end {
            BuildEnd::Built { plan_id, plan_path, warnings } => {
                &&& *final(runtime) == (PlanRuntime {
                    mode: PlanMode::Executing { plan_id },
                    ..*old(runtime)
                })
                &&& (r.0 matches ChatCommandOutcome::Continue { line, echo_user, history_line }
                    && line@ == "start building "@ + plan_path@ && echo_user && history_line is None)
                &&& texts(r.1@) == texts(warnings@).map_values(
                    |w: Seq<char>| "[plan] warning: "@ + w,
                )
            },
            BuildEnd::Refused(e) => {
                &&& *final(runtime) == *old(runtime)
                &&& r.0 is Handled
                &&& texts(r.1@) == seq!["[plan] /plan build 拒绝："@ + e@]
            },
        },
{
    match end {
        BuildEnd::Built { plan_id, plan_path, warnings } => {
            let ghost all = texts(warnings@);
            let ghost told = all.map_values(|w: Seq<char>| "[plan] warning: "@ + w);
            let mut out: Vec<String> = Vec::new();
            let mut i: usize = 0;
            assert(texts(out@) =~= told.take(0));
            while i < warnings.len()
                invariant
                    i <= warnings@.len(),
                    all == texts(warnings@),
                    told == all.map_values(|w: Seq<char>| "[plan] warning: "@ + w),
                    texts(out@) == told.take(i as int),
                decreases warnings@.len() - i,
            {
                assert(all[i as int] == warnings@[i as int]@);
                push_text(&mut out, cat("[plan] warning: ", warnings[i].as_str()));
                assert(told.take(i + 1) =~= told.take(i as int).push(told[i as int]));
                i = i + 1;
            }
            assert(told.take(told.len() as int) =~= told);
            runtime.set_executing(plan_id);
            (
                ChatCommandOutcome::Continue {
                    line: cat("start building ", plan_path.as_str()),
                    echo_user: true,
                    history_line: None,
                },
                out,
            )
        },
        BuildEnd::Refused(e) => (
            ChatCommandOutcome::Handled,
            one_text(cat("[plan] /plan build 拒绝：", e.as_str())),
        ),
    }
}

// ---------------------------------------------------------------- laws

/// `/plan build` builds the plan that it names, whatever its name is; without a name the default is meant.
pub proof fn law_named_plans_are_built(target: Seq<char>, r: ChatCommand)
    ensures
        means(seq!["/plan"@], r) ==> r == ChatCommand::Plan(PlanCommand::Enter),
        means(seq!["/plan"@, "exit"@], r) ==> r == ChatCommand::Plan(PlanCommand::Exit),
        means(seq!["/plan"@, "list"@], r) ==> r == ChatCommand::Plan(PlanCommand::List),
        means(seq!["/plan"@, "build"@], r) ==> r == ChatCommand::Plan(
            PlanCommand::Build { plan_target: None },
        ),
        means(seq!["/plan"@, "build"@, target], r) ==> (r matches ChatCommand::Plan(
            PlanCommand::Build { plan_target: Some(t) },
        ) && t@ == target),
        target != "exit"@ && target != "list"@ && target != "build"@ && means(seq!["/plan"@, target], r)
            ==> r is UsageError,
{
    reveal_strlit("exit");
    reveal_strlit("list");
    reveal_strlit("build");
    assert("exit"@[0] == 'e' && "list"@[0] == 'l' && "build"@[0] == 'b');
    assert(seq!["/plan"@, target][1] == target);
    assert(seq!["/plan"@, "exit"@][1] == "exit"@);
    assert(seq!["/plan"@, "list"@][1] == "list"@);
    assert(seq!["/plan"@, "build"@][1] == "build"@);
}

/// A line of the list names the plan and tells its state and the first line of its goal.
#[verifier::rlimit(40)]
#[verifier::spinoff_prover]
pub proof fn law_plan_lines_tell_the_plan(row: PlanRow)
    ensures
        crate::search::has_prefix(plan_line(row), "  - "@ + row.plan_id@),
        crate::search::has_text(plan_line(row), row.state@),
        crate::search::has_suffix(
            plan_line(row),
            "]  "@ + first_line(row.goal@) + "  (created "@ + row.created_at@ + ")"@,
        ),
{
    let all = plan_line(row);
    let id = padded(row.plan_id@, 32);
    let state = padded(row.state@, 10);
    crate::text::law_padding_adds_spaces_behind(row.plan_id@, 32);
    crate::text::law_padding_adds_spaces_behind(row.state@, 10);
    let tail = "]  "@ + first_line(row.goal@) + "  (created "@ + row.created_at@ + ")"@;
    assert(all =~= "  - "@ + id + " ["@ + state + tail);
    let head = "  - "@ + row.plan_id@;
    assert(all.subrange(0, head.len() as int) =~= "  - "@ + id.take(row.plan_id@.len() as int));
    assert(all.subrange(all.len() - tail.len(), all.len() as int) =~= tail);
    let front = "  - "@ + id + " ["@;
    let n = row.state@.len() as int;
    crate::search::lemma_text_in_itself(row.state@);
    crate::search::lemma_text_within(front, row.state@, state.skip(n) + tail, row.state@);
    assert(state =~= state.take(n) + state.skip(n));
    assert(all =~= front + row.state@ + (state.skip(n) + tail));
}

/// A plan is built exactly if there is a session and a plan to build: the one that is named, else the default.
pub proof fn law_builds_need_a_session_and_a_plan(
    session: SessionLookup,
    named: Option<String>,
    default: DefaultTarget,
)
    ensures
        build_refusal(session, named, default) is None <==> session is Found && (named is Some
            || default is Plan),
{
}

/// The first line of a text holds no line feed and is its start.
pub proof fn law_first_line_is_the_start(s: Seq<char>)
    requires
        !s.contains('\r'),
    ensures
        crate::search::has_prefix(s, first_line(s)),
        !first_line(s).contains('\n'),
        s.len() > 0 && s[0] != '\n' ==> first_line(s).len() > 0,
{
    crate::search::law_lines_are_joined_again(s);
    let l = first_line(s);
    if s.len() > 0 {
        crate::search::lemma_next_char(s, '\n', 0);
        let i = crate::search::next_char(s, '\n', 0);
        if i < s.len() {
            if i > 0 {
                assert(s.contains(s[i - 1]));
                assert(s.take(i).last() == s[i - 1]);
            }
            assert(l == s.take(i));
            assert(s.subrange(0, l.len() as int) =~= l);
        } else {
            assert(l == s);
            assert(s.subrange(0, l.len() as int) =~= l);
        }
    } else {
        assert(s.subrange(0, 0) =~= l);
    }
}

} // verus!
