//! How an agent that works for a plan is started, and what is read off its run.

use vstd::prelude::*;
use vstd::string::*;

use crate::numerals::decimal_u64;
#[allow(unused_imports)]
use crate::numerals::decimal;
use crate::text::{cat3, trim};
#[allow(unused_imports)]
use crate::text::trimmed;

verus! {

/// A message of a run.
#[derive(Clone, Debug, PartialEq, Eq)]
pub struct RunMessage {
    /// Whether the agent said it.
    pub assistant: bool,
    pub text: Option<String>,
}

/// What a run left behind.
#[derive(Clone, Debug, PartialEq, Eq)]
pub struct AgentRunResult {
    pub final_text: String,
    pub new_messages: Vec<RunMessage>,
}

/// How a run ended.
#[derive(Clone, Debug, PartialEq, Eq)]
pub enum AgentRunOutcome {
    Completed(AgentRunResult),
    Interrupted(AgentRunResult),
    Failed(String),
}

/// How a run is recorded.
#[derive(Clone, Copy, Debug, PartialEq, Eq, Structural)]
pub enum SubagentOutcomeLabel {
    Completed,
    Failed,
    Interrupted,
}

/// What came of the attempt to run an agent.
pub enum SpawnEnd<S> {
    /// It ran and handed over a summary.
    Summary(S),
    /// It ran and handed over nothing.
    NoSummary,
    /// It could not be started.
    Failed(String),
}

/// What an agent is started with.
#[derive(Clone, Debug, PartialEq, Eq)]
pub struct SpawnRequest {
    pub system_text: String,
    pub user_text: String,
    /// The names of the tools it may use.
    pub tools: Vec<String>,
    pub turns_limit: u32,
    pub max_attempts: u32,
    pub retry_base_delay_ms: u64,
}

/// What the agent is told first, with the number of turns it has.
pub open spec fn system_text(prompt: Seq<char>, turns: nat) -> Seq<char> {
    prompt + "\n(max_turns budget: "@ + decimal(turns) + " reasoning turns)\n"@
}

/// What the agent is told first, with the number of turns it has.
pub fn build_system_text(prompt: &str, turns: u32) -> (r: String)
    ensures
        r@ == system_text(prompt@, turns as nat),
{
    let mut out = cat3(prompt, "\n(max_turns budget: ", decimal_u64(turns as u64).as_str());
    out.append(" reasoning turns)\n");
    out
}

/// Whether a text says anything.
pub open spec fn says_something(s: Seq<char>) -> bool {
    trimmed(s).len() > 0
}

/// Whether a text says anything.
pub fn speaks(s: &str) -> (r: bool)
    ensures
        r == says_something(s@),
{
    let t = trim(s);
    !t.as_str().is_empty()
}

/// How many messages the agent said.
pub open spec fn assistant_count(messages: Seq<RunMessage>) -> nat
    decreases messages.len(),
{
    if messages.len() == 0 {
        0
    } else {
        assistant_count(messages.drop_last()) + (if messages.last().assistant {
            1nat
        } else {
            0nat
        })
    }
}

/// How many turns the agent took: the messages it said.
pub fn count_assistant_turns(messages: &Vec<RunMessage>) -> (r: u32)
    ensures
        r == assistant_count(messages@) as u32,
{
    let mut n: usize = 0;
    let mut i: usize = 0;
    while i < messages.len()
        invariant
            n <= i <= messages@.len(),
            n == assistant_count(messages@.take(i as int)),
        decreases messages@.len() - i,
    {
        assert(messages@.take(i + 1).drop_last() =~= messages@.take(i as int));
        if messages[i].assistant {
            n = n + 1;
        }
        i = i + 1;
    }
    assert(messages@.take(messages@.len() as int) =~= messages@);
    #[verifier::truncate]
    (n as u32)
}

/// The last thing that the agent said and that says anything; nothing if there is none.
pub open spec fn last_said(messages: Seq<RunMessage>) -> Seq<char>
    decreases messages.len(),
{
    if messages.len() == 0 {
        Seq::empty()
    } else {
        let m = messages.last();
        if m.assistant && m.text is Some && says_something(m.text->0@) {
            m.text->0@
        } else {
            last_said(messages.drop_last())
        }
    }
}

/// The answer of a run: its final text if that says anything, else the last thing said.
pub open spec fn answer_of(result: AgentRunResult) -> Seq<char> {
    if says_something(result.final_text@) {
        result.final_text@
    } else {
        last_said(result.new_messages@)
    }
}

/// The answer of a run: its final text if that says anything, else the last thing said.
pub fn extract_answer(result: &AgentRunResult) -> (r: String)
    ensures
        r@ == answer_of(*result),
{
    if speaks(result.final_text.as_str()) {
        return result.final_text.clone();
    }
    let messages = &result.new_messages;
    let mut n: usize = messages.len();
    assert(messages@.take(n as int) =~= messages@);
    while n > 0
        invariant
            n <= messages@.len(),
            messages@ == result.new_messages@,
            !says_something(result.final_text@),
            last_said(messages@.take(n as int)) == last_said(messages@),
        decreases n,
    {
        assert(messages@.take(n as int).last() == messages@[n - 1]);
        assert(messages@.take(n as int).drop_last() =~= messages@.take(n - 1));
        if messages[n - 1].assistant {
            if let Some(t) = &messages[n - 1].text {
                if speaks(t.as_str()) {
                    return t.clone();
                }
            }
        }
        n = n - 1;
    }
    let none: String = String::new();
    assert(none@ =~= Seq::empty());
    none
}

/// How a run that answered ended: by itself, or because its turns were used up.
pub open spec fn end_word(used: u32, limit: u32) -> Seq<char> {
    if used >= limit {
        "max_turns"@
    } else {
        "completed"@
    }
}

/// How a run that answered ended: by itself, or because its turns were used up.
pub fn word_for_end(used: u32, limit: u32) -> (r: String)
    ensures
        r@ == end_word(used, limit),
{
    if used >= limit {
        "max_turns".to_owned()
    } else {
        "completed".to_owned()
    }
}

// ---------------------------------------------------------------- laws

/// The turns of a run are the messages of the agent in it.
pub proof fn law_turns_are_the_agents_messages(messages: Seq<RunMessage>)
    ensures
        assistant_count(messages) == messages.filter(|m: RunMessage| m.assistant).len(),
    decreases messages.len(),
{
    reveal(Seq::filter);
    if messages.len() > 0 {
        law_turns_are_the_agents_messages(messages.drop_last());
    }
}

/// The answer of a run is its final text, if that says anything; else it is the last thing that the agent
/// said, and never what someone else said or a message without words.
pub proof fn law_answer_is_the_last_thing_said(result: AgentRunResult, i: int)
    ensures
        trimmed(result.final_text@).len() > 0 ==> answer_of(result) == result.final_text@,
        trimmed(result.final_text@).len() == 0 && 0 <= i < result.new_messages@.len()
            && result.new_messages@[i].assistant && (result.new_messages@[i].text matches Some(t)
            && trimmed(t@).len() > 0) && (forall|j: int|
            i < j < result.new_messages@.len() ==> !((#[trigger] result.new_messages@[j]).assistant && (
            result.new_messages@[j].text matches Some(t) && trimmed(t@).len() > 0))) ==> answer_of(result)
            == result.new_messages@[i].text->0@,
        trimmed(result.final_text@).len() == 0 && (forall|j: int|
            0 <= j < result.new_messages@.len() ==> !((#[trigger] result.new_messages@[j]).assistant && (
            result.new_messages@[j].text matches Some(t) && trimmed(t@).len() > 0))) ==> answer_of(
            result,
        ).len() == 0,
{
    lemma_last_said(result.new_messages@, i);
}

proof fn lemma_last_said(messages: Seq<RunMessage>, i: int)
    ensures
        0 <= i < messages.len() && messages[i].assistant && (messages[i].text matches Some(t) && trimmed(
            t@,
        ).len() > 0) && (forall|j: int|
            i < j < messages.len() ==> !((#[trigger] messages[j]).assistant && (
            messages[j].text matches Some(t) && trimmed(t@).len() > 0))) ==> last_said(messages)
            == messages[i].text->0@,
        (forall|j: int|
            0 <= j < messages.len() ==> !((#[trigger] messages[j]).assistant && (
            messages[j].text matches Some(t) && trimmed(t@).len() > 0))) ==> last_said(messages).len() == 0,
    decreases messages.len(),
{
    if messages.len() > 0 {
        let front = messages.drop_last();
        lemma_last_said(front, i);
        let m = messages.last();
        assert(messages[messages.len() - 1] == m);
        assert forall|j: int| 0 <= j < front.len() implies #[trigger] front[j] == messages[j] by {}
        if 0 <= i < messages.len() - 1 && (forall|j: int|
            i < j < messages.len() ==> !((#[trigger] messages[j]).assistant && (
            messages[j].text matches Some(t) && trimmed(t@).len() > 0))) {
            assert forall|j: int| i < j < front.len() implies !((#[trigger] front[j]).assistant && (
            front[j].text matches Some(t) && trimmed(t@).len() > 0)) by {
                assert(front[j] == messages[j]);
            }
        }
        if forall|j: int|
            0 <= j < messages.len() ==> !((#[trigger] messages[j]).assistant && (
            messages[j].text matches Some(t) && trimmed(t@).len() > 0)) {
            assert forall|j: int| 0 <= j < front.len() implies !((#[trigger] front[j]).assistant && (
            front[j].text matches Some(t) && trimmed(t@).len() > 0)) by {
                assert(front[j] == messages[j]);
            }
        }
    }
}

/// An agent is told its task and its budget; a run that used up its budget is told from one that did not.
#[verifier::rlimit(40)]
#[verifier::spinoff_prover]
pub proof fn law_budgets_are_told(prompt: Seq<char>, turns: nat, used: u32, limit: u32)
    ensures
        crate::search::has_prefix(system_text(prompt, turns), prompt),
        crate::search::has_text(system_text(prompt, turns), decimal(turns)),
        end_word(used, limit) == "max_turns"@ <==> used >= limit,
        used < limit ==> end_word(used, limit) == "completed"@,
{
    reveal_strlit("max_turns");
    reveal_strlit("completed");
    assert("max_turns"@[0] == 'm' && "completed"@[0] == 'c');
    let all = system_text(prompt, turns);
    assert(all.subrange(0, prompt.len() as int) =~= prompt);
    crate::search::lemma_text_in_itself(decimal(turns));
    crate::search::lemma_text_within(
        prompt + "\n(max_turns budget: "@,
        decimal(turns),
        " reasoning turns)\n"@,
        decimal(turns),
    );
}

} // verus!
