//! Which tools the model sees in which mode.

use vstd::prelude::*;

use crate::plan_runtime::mode::PlanMode;
use crate::text::same;

verus! {

/// A tool of the catalog.
#[derive(Clone, Debug, PartialEq, Eq)]
pub struct ToolEntry {
    pub name: String,
    /// Whether the tool is for work with plans only.
    pub plan_only: bool,
}

/// The tools that change things, and are hidden while a plan is drafted.
pub open spec fn hidden_in_planning(name: Seq<char>) -> bool {
    name == "write"@ || name == "edit"@ || name == "hashline_edit"@ || name == "bash"@
}

/// The tools that draft plans, and are hidden while one is worked on.
pub open spec fn hidden_in_executing(name: Seq<char>) -> bool {
    name == "create_plan"@ || name == "ask_question"@
}

/// Whether the model sees a tool in a mode.
pub open spec fn visible(name: Seq<char>, plan_only: bool, mode: PlanMode) -> bool {
    match mode {
        PlanMode::Planning => !hidden_in_planning(name),
        PlanMode::Executing { .. } => !(plan_only && hidden_in_executing(name)),
        _ => !plan_only,
    }
}

/// Whether the model sees a tool in a mode.
pub fn filter_for_mode(name: &str, plan_only: bool, mode: &PlanMode) -> (r: bool)
    ensures
        r == visible(name@, plan_only, *mode),
{
    match mode {
        PlanMode::Planning => !(same(name, "write") || same(name, "edit") || same(
            name,
            "hashline_edit",
        ) || same(name, "bash")),
        PlanMode::Executing { .. } => !(plan_only && (same(name, "create_plan") || same(
            name,
            "ask_question",
        ))),
        _ => !plan_only,
    }
}

/// The places of the visible tools in the catalog.
pub open spec fn visible_places(catalog: Seq<ToolEntry>, mode: PlanMode) -> Seq<int>
    decreases catalog.len(),
{
    if catalog.len() == 0 {
        Seq::empty()
    } else {
        let rest = visible_places(catalog.drop_last(), mode);
        if visible(catalog.last().name@, catalog.last().plan_only, mode) {
            rest.push(catalog.len() - 1)
        } else {
            rest
        }
    }
}

/// The places of the tools that the model sees in a mode, in the order of the catalog.
pub fn visible_tools_for_mode(catalog: &Vec<ToolEntry>, mode: &PlanMode) -> (r: Vec<usize>)
    ensures
        r@.map_values(|i: usize| i as int) == visible_places(catalog@, *mode),
{
    let mut out: Vec<usize> = Vec::new();
    let mut i: usize = 0;
    assert(out@.map_values(|i: usize| i as int) =~= visible_places(catalog@.take(0), *mode));
    while i < catalog.len()
        invariant
            i <= catalog@.len(),
            out@.map_values(|i: usize| i as int) == visible_places(catalog@.take(i as int), *mode),
        decreases catalog@.len() - i,
    {
        let ghost before = out@;
        assert(catalog@.take(i + 1).drop_last() =~= catalog@.take(i as int));
        assert(catalog@.take(i + 1).last() == catalog@[i as int]);
        if filter_for_mode(catalog[i].name.as_str(), catalog[i].plan_only, mode) {
            out.push(i);
            assert(out@.map_values(|i: usize| i as int) =~= before.map_values(
                |i: usize| i as int,
            ).push(i as int));
        }
        i = i + 1;
    }
    assert(catalog@.take(catalog@.len() as int) =~= catalog@);
    out
}

/// Whether a name is in a list.
pub open spec fn named(list: Seq<String>, name: Seq<char>) -> bool {
    exists|i: int| 0 <= i < list.len() && (#[trigger] list[i])@ == name
}

/// The places of the tools with a name of the list.
pub open spec fn allowed_places(catalog: Seq<ToolEntry>, allowed: Seq<String>) -> Seq<int>
    decreases catalog.len(),
{
    if catalog.len() == 0 {
        Seq::empty()
    } else {
        let rest = allowed_places(catalog.drop_last(), allowed);
        if named(allowed, catalog.last().name@) {
            rest.push(catalog.len() - 1)
        } else {
            rest
        }
    }
}

fn is_named(list: &Vec<String>, name: &str) -> (r: bool)
    ensures
        r == named(list@, name@),
{
    let mut i: usize = 0;
    while i < list.len()
        invariant
            i <= list@.len(),
            forall|j: int| 0 <= j < i ==> (#[trigger] list@[j])@ != name@,
        decreases list@.len() - i,
    {
        if same(list[i].as_str(), name) {
            return true;
        }
        i = i + 1;
    }
    false
}

/// The places of the tools that an internal agent may use, in the order of the catalog: those on
/// its list, and no others.
pub fn resolve_internal_tools(catalog: &Vec<ToolEntry>, allowed: &Vec<String>) -> (r: Vec<usize>)
    ensures
        r@.map_values(|i: usize| i as int) == allowed_places(catalog@, allowed@),
{
    let mut out: Vec<usize> = Vec::new();
    let mut i: usize = 0;
    assert(out@.map_values(|i: usize| i as int) =~= allowed_places(catalog@.take(0), allowed@));
    while i < catalog.len()
        invariant
            i <= catalog@.len(),
            out@.map_values(|i: usize| i as int) == allowed_places(
                catalog@.take(i as int),
                allowed@,
            ),
        decreases catalog@.len() - i,
    {
        let ghost before = out@;
        assert(catalog@.take(i + 1).drop_last() =~= catalog@.take(i as int));
        assert(catalog@.take(i + 1).last() == catalog@[i as int]);
        if is_named(allowed, catalog[i].name.as_str()) {
            out.push(i);
            assert(out@.map_values(|i: usize| i as int) =~= before.map_values(
                |i: usize| i as int,
            ).push(i as int));
        }
        i = i + 1;
    }
    assert(catalog@.take(catalog@.len() as int) =~= catalog@);
    out
}

/// A waiting plan and a finished one show the tools that chat shows.
pub proof fn law_idle_modes_look_like_chat(catalog: Seq<ToolEntry>, plan_id: String)
    ensures
        visible_places(catalog, PlanMode::Pending { plan_id }) == visible_places(
            catalog,
            PlanMode::Chat,
        ),
        visible_places(catalog, PlanMode::Completed { plan_id }) == visible_places(
            catalog,
            PlanMode::Chat,
        ),
    decreases catalog.len(),
{
    if catalog.len() > 0 {
        law_idle_modes_look_like_chat(catalog.drop_last(), plan_id);
    }
}

/// Chat shows no tool for plans; planning shows all of them and no tool that writes; executing
/// shows the tools that write, and of those for plans all but the two that draft.
pub proof fn law_tools_by_mode(plan_id: String)
    ensures
        forall|name: Seq<char>| !#[trigger] visible(name, true, PlanMode::Chat),
        visible("create_plan"@, true, PlanMode::Planning),
        visible("ask_question"@, true, PlanMode::Planning),
        visible("todos"@, true, PlanMode::Planning),
        visible("update_plan"@, true, PlanMode::Planning),
        !visible("write"@, false, PlanMode::Planning),
        !visible("edit"@, false, PlanMode::Planning),
        !visible("hashline_edit"@, false, PlanMode::Planning),
        !visible("bash"@, false, PlanMode::Planning),
        visible("todos"@, true, PlanMode::Executing { plan_id }),
        visible("update_plan"@, true, PlanMode::Executing { plan_id }),
        forall|name: Seq<char>| #[trigger] visible(name, false, PlanMode::Executing { plan_id }),
        !visible("create_plan"@, true, PlanMode::Executing { plan_id }),
        !visible("ask_question"@, true, PlanMode::Executing { plan_id }),
{
    reveal_strlit("write");
    reveal_strlit("edit");
    reveal_strlit("hashline_edit");
    reveal_strlit("bash");
    reveal_strlit("create_plan");
    reveal_strlit("ask_question");
    reveal_strlit("todos");
    reveal_strlit("update_plan");
    assert("write"@.len() == 5 && "edit"@.len() == 4 && "hashline_edit"@.len() == 13
        && "bash"@.len() == 4);
    assert("create_plan"@.len() == 11 && "ask_question"@.len() == 12 && "todos"@.len() == 5
        && "update_plan"@.len() == 11);
    assert("todos"@[0] == 't' && "write"@[0] == 'w');
    assert("update_plan"@[0] == 'u' && "create_plan"@[0] == 'c');
}

/// The tools that a mode shows are exactly those that are visible in it, each once, in the order of the
/// catalog.
pub proof fn law_every_visible_tool_is_shown(catalog: Seq<ToolEntry>, mode: PlanMode)
    ensures
        forall|i: int| #[trigger]
            visible_places(catalog, mode).contains(i) <==> 0 <= i < catalog.len() && visible(
                catalog[i].name@,
                catalog[i].plan_only,
                mode,
            ),
        forall|a: int, b: int|
            0 <= a < b < visible_places(catalog, mode).len() ==> #[trigger] visible_places(
                catalog,
                mode,
            )[a] < #[trigger] visible_places(catalog, mode)[b],
    decreases catalog.len(),
{
    if catalog.len() > 0 {
        let front = catalog.drop_last();
        law_every_visible_tool_is_shown(front, mode);
        let rest = visible_places(front, mode);
        let all = visible_places(catalog, mode);
        let n = catalog.len() - 1;
        lemma_places_added(rest, all, n, |i: int| visible(catalog[i].name@, catalog[i].plan_only, mode));
    }
}

proof fn lemma_places_added(rest: Seq<int>, all: Seq<int>, n: int, shown: spec_fn(int) -> bool)
    requires
        0 <= n,
        all == (if shown(n) {
            rest.push(n)
        } else {
            rest
        }),
        forall|i: int| #[trigger] rest.contains(i) <==> 0 <= i < n && shown(i),
        forall|a: int, b: int| 0 <= a < b < rest.len() ==> #[trigger] rest[a] < #[trigger] rest[b],
    ensures
        forall|i: int| #[trigger] all.contains(i) <==> 0 <= i < n + 1 && shown(i),
        forall|a: int, b: int| 0 <= a < b < all.len() ==> #[trigger] all[a] < #[trigger] all[b],
{
    assert forall|i: int| #[trigger] all.contains(i) <==> 0 <= i < n + 1 && shown(i) by {
        if all.contains(i) {
            let k = choose|k: int| 0 <= k < all.len() && all[k] == i;
            if k < rest.len() {
                assert(rest[k] == i);
                assert(rest.contains(i));
            }
        }
        if 0 <= i < n && shown(i) {
            assert(rest.contains(i));
            let k = choose|k: int| 0 <= k < rest.len() && rest[k] == i;
            assert(all[k] == i);
        }
        if i == n && shown(i) {
            assert(all[rest.len() as int] == i);
        }
    }
    assert forall|a: int, b: int| 0 <= a < b < all.len() implies #[trigger] all[a] < #[trigger] all[b] by {
        assert(all[a] == rest[a]);
        if b < rest.len() {
            assert(all[b] == rest[b]);
        } else {
            assert(rest.contains(rest[a]));
        }
    }
}

/// The tools that are resolved for an agent are exactly those of the catalog that it is allowed, each once,
/// in the order of the catalog.
pub proof fn law_every_allowed_tool_is_resolved(catalog: Seq<ToolEntry>, allowed: Seq<String>)
    ensures
        forall|i: int| #[trigger]
            allowed_places(catalog, allowed).contains(i) <==> 0 <= i < catalog.len() && exists|k: int|
                0 <= k < allowed.len() && (#[trigger] allowed[k])@ == catalog[i].name@,
        forall|a: int, b: int|
            0 <= a < b < allowed_places(catalog, allowed).len() ==> #[trigger] allowed_places(
                catalog,
                allowed,
            )[a] < #[trigger] allowed_places(catalog, allowed)[b],
    decreases catalog.len(),
{
    if catalog.len() > 0 {
        let front = catalog.drop_last();
        law_every_allowed_tool_is_resolved(front, allowed);
        let rest = allowed_places(front, allowed);
        let all = allowed_places(catalog, allowed);
        let n = catalog.len() - 1;
        let shown = |i: int| named(allowed, catalog[i].name@);
        assert forall|i: int| #[trigger] rest.contains(i) <==> 0 <= i < n && shown(i) by {
            if 0 <= i < n {
                assert(front[i] == catalog[i]);
            }
        }
        lemma_places_added(rest, all, n, shown);
        assert forall|i: int| #[trigger] all.contains(i) <==> 0 <= i < catalog.len() && exists|k: int|
            0 <= k < allowed.len() && (#[trigger] allowed[k])@ == catalog[i].name@ by {
            assert(all.contains(i) <==> 0 <= i < n + 1 && shown(i));
        }
    }
}

/// Chat shows every tool but those for plans; planning hides four tools that change things, by whatever
/// name the others go; a plan that is worked on hides two of the tools for plans and nothing else.
pub proof fn law_what_each_mode_hides(name: Seq<char>, plan_only: bool, plan_id: String)
    ensures
        visible(name, plan_only, PlanMode::Chat) <==> !plan_only,
        visible(name, plan_only, PlanMode::Pending { plan_id }) <==> !plan_only,
        visible(name, plan_only, PlanMode::Completed { plan_id }) <==> !plan_only,
        visible(name, plan_only, PlanMode::Planning) <==> !(seq![
            "write"@,
            "edit"@,
            "hashline_edit"@,
            "bash"@,
        ].contains(name)),
        !plan_only ==> visible(name, plan_only, PlanMode::Executing { plan_id }),
        plan_only ==> (visible(name, plan_only, PlanMode::Executing { plan_id }) <==> !(seq![
            "create_plan"@,
            "ask_question"@,
        ].contains(name))),
{
    let w = seq!["write"@, "edit"@, "hashline_edit"@, "bash"@];
    assert(w[0] == "write"@ && w[1] == "edit"@ && w[2] == "hashline_edit"@ && w[3] == "bash"@);
    let e = seq!["create_plan"@, "ask_question"@];
    assert(e[0] == "create_plan"@ && e[1] == "ask_question"@);
}

} // verus!
