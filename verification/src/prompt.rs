//! The prompts at which the user types and the agent speaks.

use vstd::prelude::*;
use vstd::string::*;

use crate::plan_runtime::mode::PlanMode;
use crate::text::{cat3, cat5, trim};
#[allow(unused_imports)]
use crate::text::trimmed;

verus! {

/// How a mode of a plan is called at a prompt; the modes without a plan in sight have no name.
pub open spec fn plan_label(mode: PlanMode) -> Option<Seq<char>> {
    match mode {
        PlanMode::Planning => Some("Plan:planning"@),
        PlanMode::Executing { .. } => Some("Plan:executing"@),
        PlanMode::Pending { .. } => Some("Plan:pending"@),
        _ => None,
    }
}

/// How a mode is called where the user types.
pub open spec fn user_label(mode: PlanMode) -> Seq<char> {
    match plan_label(mode) {
        Some(l) => l,
        None => "Chat"@,
    }
}

/// How a mode is called where the user types.
pub fn user_prompt_label(mode: &PlanMode) -> (r: &'static str)
    ensures
        r@ == user_label(*mode),
{
    match agent_prompt_label(mode) {
        Some(l) => l,
        None => "Chat",
    }
}

/// How a mode is called where the agent speaks.
pub fn agent_prompt_label(mode: &PlanMode) -> (r: Option<&'static str>)
    ensures
        match r {
            Some(l) => plan_label(*mode) == Some(l@),
            None => plan_label(*mode) is None,
        },
{
    match mode {
        PlanMode::Planning => Some("Plan:planning"),
        PlanMode::Executing { .. } => Some("Plan:executing"),
        PlanMode::Pending { .. } => Some("Plan:pending"),
        _ => None,
    }
}

/// The prompt at which the user types.
pub fn user_prompt_for_mode(mode: &PlanMode) -> (r: String)
    ensures
        r@ == "u["@ + user_label(*mode) + "]> "@,
{
    cat3("u[", user_prompt_label(mode), "]> ")
}

/// The prompt at which the user types, with the model, if that has a name.
pub fn user_prompt_for_mode_with_model(mode: &PlanMode, model: &str) -> (r: String)
    ensures
        r@ == (if trimmed(model@).len() == 0 {
            "u["@ + user_label(*mode) + "]> "@
        } else {
            "u["@ + user_label(*mode) + "|"@ + trimmed(model@) + "]> "@
        }),
{
    let name = trim(model);
    if name.as_str().is_empty() {
        return user_prompt_for_mode(mode);
    }
    cat5("u[", user_prompt_label(mode), "|", name.as_str(), "]> ")
}

/// The prompt at which the agent speaks.
pub fn agent_prompt_for_mode(agent_id: &str, mode: &PlanMode) -> (r: String)
    ensures
        r@ == (match plan_label(*mode) {
            Some(l) => "agent."@ + agent_id@ + "["@ + l + "]> "@,
            None => "agent."@ + agent_id@ + "> "@,
        }),
{
    match agent_prompt_label(mode) {
        Some(label) => cat5("agent.", agent_id, "[", label, "]> "),
        None => cat3("agent.", agent_id, "> "),
    }
}

/// Every mode in which a plan is in sight is told from the others where the user types, and the others look
/// like chat.
pub proof fn law_prompts_tell_the_mode(mode: PlanMode)
    ensures
        user_label(mode) == "Plan:planning"@ <==> mode is Planning,
        user_label(mode) == "Plan:executing"@ <==> mode is Executing,
        user_label(mode) == "Plan:pending"@ <==> mode is Pending,
        user_label(mode) == "Chat"@ <==> mode is Chat || mode is Completed,
        plan_label(mode) is Some <==> user_label(mode) != "Chat"@,
        plan_label(mode) matches Some(l) ==> l == user_label(mode),
{
    reveal_strlit("Plan:planning");
    reveal_strlit("Plan:executing");
    reveal_strlit("Plan:pending");
    reveal_strlit("Chat");
    assert("Plan:planning"@.len() == 13 && "Plan:executing"@.len() == 14 && "Plan:pending"@.len() == 12
        && "Chat"@.len() == 4);
}

} // verus!
