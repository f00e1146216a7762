//! Sending a plan to a reviewing agent.

use vstd::prelude::*;
use vstd::string::*;

use crate::plan_runtime::agent_run::{
    build_system_text, count_assistant_turns, extract_answer, word_for_end, AgentRunOutcome,
    SpawnEnd, SpawnRequest, SubagentOutcomeLabel,
};
#[allow(unused_imports)]
use crate::plan_runtime::agent_run::{answer_of, assistant_count, end_word, system_text};
use crate::plan_runtime::review::{
    build_review_prompt, parse_review_block, ReviewSummary, REVIEWER_SYSTEM_PROMPT,
};
#[allow(unused_imports)]
use crate::plan_runtime::review::{
    is_aborted_review, is_review_block, is_review_of, review_lines, review_prompt,
};
use crate::text::{cat, cat3, cat4, push_text};
#[allow(unused_imports)]
use crate::text::{opt_str, texts};

verus! {

/// The names of the tools that the agent for reviews may use.
pub open spec fn reviewer_tools() -> Seq<Seq<char>> {
    seq!["read"@, "search_files"@, "list_dir"@, "todos"@, "update_plan"@, "edit"@]
}

/// The names of the tools that the agent for reviews may use.
pub fn reviewer_allowed_tools() -> (r: Vec<String>)
    ensures
        texts(r@) == reviewer_tools(),
{
    let mut v: Vec<String> = Vec::new();
    push_text(&mut v, "read".to_owned());
    push_text(&mut v, "search_files".to_owned());
    push_text(&mut v, "list_dir".to_owned());
    push_text(&mut v, "todos".to_owned());
    push_text(&mut v, "update_plan".to_owned());
    push_text(&mut v, "edit".to_owned());
    assert(texts(v@) =~= reviewer_tools());
    v
}

/// What reviewing needs, as far as it decides what happens.
#[derive(Clone, Debug, PartialEq, Eq)]
pub struct ProdReviewerDeps {
    /// Whether the runtime of the plan still exists.
    pub runtime_alive: bool,
    pub max_turns: u32,
}

/// Sends plans to a reviewing agent.
#[derive(Clone, Debug, PartialEq, Eq)]
pub struct ProdReviewerDispatcher {
    /// Who set it up; stands in its messages.
    pub origin: String,
    /// How the agent is called in its messages.
    pub agent: String,
    pub deps: Option<ProdReviewerDeps>,
}

/// The first step of a review.
#[derive(Clone, Debug, PartialEq, Eq)]
pub enum ReviewStep {
    /// There will be none.
    Done(ReviewSummary),
    /// An agent is to be started.
    Spawn(SpawnRequest),
}

/// A message with who set things up in front.
pub open spec fn signed(origin: Seq<char>, message: Seq<char>) -> Seq<char> {
    "["@ + origin + "] "@ + message
}

/// A message with who set things up in front.
pub fn sign(origin: &str, message: &str) -> (r: String)
    ensures
        r@ == signed(origin@, message@),
{
    let mut s = cat3("[", origin, "] ");
    s.append(message);
    s
}

/// At least one turn.
pub open spec fn at_least_one(n: u32) -> u32 {
    if n == 0 {
        1
    } else {
        n
    }
}

impl ProdReviewerDispatcher {
    /// A dispatcher that has nothing to review with.
    pub fn stub(origin: &str, agent: &str) -> (r: ProdReviewerDispatcher)
        ensures
            r.origin@ == origin@,
            r.agent@ == agent@,
            r.deps is None,
    {
        ProdReviewerDispatcher { origin: origin.to_owned(), agent: agent.to_owned(), deps: None }
    }

    /// A dispatcher with all it needs.
    pub fn new(origin: &str, agent: &str, deps: ProdReviewerDeps) -> (r: ProdReviewerDispatcher)
        ensures
            r.origin@ == origin@,
            r.agent@ == agent@,
            r.deps == Some(deps),
    {
        ProdReviewerDispatcher {
            origin: origin.to_owned(),
            agent: agent.to_owned(),
            deps: Some(deps),
        }
    }

    /// The first step of a review: none without the means for it or without a runtime, else an
    /// agent with its brief, its tools and its turns.
    pub fn dispatch(
        &self,
        plan_id: &str,
        plan_text: &str,
        plan_path: &str,
        workspace_root: Option<&str>,
    ) -> (r: ReviewStep)
        ensures
            match r {
                ReviewStep::Done(s) => match self.deps {
                    None => is_aborted_review(
                        s,
                        signed(
                            self.origin@,
                            "生产 "@ + self.agent@ + " 子 Agent 未注入依赖（stub 模式）"@,
                        ),
                        "aborted"@,
                    ),
                    Some(d) => !d.runtime_alive && is_aborted_review(
                        s,
                        signed(
                            self.origin@,
                            "PlanRuntime 已被 drop，"@ + self.agent@ + " 取消派发"@,
                        ),
                        "aborted"@,
                    ),
                },
                ReviewStep::Spawn(q) => {
                    &&& self.deps is Some
                    &&& self.deps->0.runtime_alive
                    &&& q.turns_limit == at_least_one(self.deps->0.max_turns)
                    &&& q.system_text@ == system_text(
                        REVIEWER_SYSTEM_PROMPT@,
                        q.turns_limit as nat,
                    )
                    &&& q.user_text@ == review_prompt(
                        plan_id@,
                        plan_text@,
                        plan_path@,
                        opt_str(workspace_root),
                    )
                    &&& texts(q.tools@) == reviewer_tools()
                    &&& q.max_attempts == 3
                    &&& q.retry_base_delay_ms == 300
                },
            },
    {
        match &self.deps {
            None => ReviewStep::Done(
                ReviewSummary::aborted_with(
                    sign(
                        self.origin.as_str(),
                        cat3(
                            "生产 ",
                            self.agent.as_str(),
                            " 子 Agent 未注入依赖（stub 模式）",
                        ).as_str(),
                    ),
                ),
            ),
            Some(d) => {
                if !d.runtime_alive {
                    return ReviewStep::Done(
                        ReviewSummary::aborted_with(
                            sign(
                                self.origin.as_str(),
                                cat3(
                                    "PlanRuntime 已被 drop，",
                                    self.agent.as_str(),
                                    " 取消派发",
                                ).as_str(),
                            ),
                        ),
                    );
                }
                let turns_limit: u32 = if d.max_turns == 0 {
                    1
                } else {
                    d.max_turns
                };
                ReviewStep::Spawn(
                    SpawnRequest {
                        system_text: build_system_text(REVIEWER_SYSTEM_PROMPT, turns_limit),
                        user_text: build_review_prompt(
                            plan_id,
                            plan_text,
                            plan_path,
                            workspace_root,
                        ),
                        tools: reviewer_allowed_tools(),
                        turns_limit,
                        max_attempts: 3,
                        retry_base_delay_ms: 300,
                    },
                )
            },
        }
    }

    /// What comes of a review once the agent is gone: its summary, or why there is none.
    pub fn dispatch_finished(&self, turns_limit: u32, end: SpawnEnd<ReviewSummary>) -> (r:
        ReviewSummary)
        ensures
            match end {
                SpawnEnd::Summary(s) => r == s,
                SpawnEnd::NoSummary => is_aborted_review(
                    r,
                    signed(
                        self.origin@,
                        self.agent@ + " 子 Agent 退出但 summary channel 提前关闭"@,
                    ),
                    "aborted"@,
                ),
                SpawnEnd::Failed(e) => is_aborted_run(
                    r,
                    signed(self.origin@, self.agent@ + " spawn 失败："@ + e@),
                    0,
                    turns_limit,
                    "spawn_error"@,
                    Seq::empty(),
                ),
            },
    {
        match end {
            SpawnEnd::Summary(s) => s,
            SpawnEnd::NoSummary => ReviewSummary::aborted_with(
                sign(
                    self.origin.as_str(),
                    cat(
                        self.agent.as_str(),
                        " 子 Agent 退出但 summary channel 提前关闭",
                    ).as_str(),
                ),
            ),
            SpawnEnd::Failed(e) => {
                let mut s = ReviewSummary::aborted_with(
                    sign(
                        self.origin.as_str(),
                        cat3(self.agent.as_str(), " spawn 失败：", e.as_str()).as_str(),
                    ),
                );
                s.reviewer_turns_limit = turns_limit;
                s.reviewer_stop_reason = "spawn_error".to_owned();
                s
            },
        }
    }
}

/// Whether `r` says that a run brought no review, and how the run went.
pub open spec fn is_aborted_run(
    r: ReviewSummary,
    reason: Seq<char>,
    used: u32,
    limit: u32,
    stop: Seq<char>,
    child: Seq<char>,
) -> bool {
    &&& r.aborted
    &&& r.summary@ == reason
    &&& r.changes_summary@ == "none"@
    &&& !r.applied_changes
    &&& r.findings@.len() == 0
    &&& r.reviewer_turns_used == used
    &&& r.reviewer_turns_limit == limit
    &&& r.reviewer_stop_reason@ == stop
    &&& r.child_session_id@ == child
}

/// Whether the answer of a run holds a review.
pub open spec fn has_review(answer: Seq<char>) -> bool {
    review_lines(answer) is Some && is_review_block(review_lines(answer)->0)
}

/// What `build_summary_from_outcome` makes of a run.
pub open spec fn is_summary_of(
    r: ReviewSummary,
    label: SubagentOutcomeLabel,
    origin: Seq<char>,
    agent: Seq<char>,
    child: Seq<char>,
    limit: u32,
    outcome: AgentRunOutcome,
) -> bool {
    match outcome {
        AgentRunOutcome::Completed(result) => {
            let used = assistant_count(result.new_messages@) as u32;
            if has_review(answer_of(result)) {
                &&& label is Completed
                &&& r.reviewer_turns_used == used
                &&& r.reviewer_turns_limit == limit
                &&& r.reviewer_stop_reason@ == end_word(used, limit)
                &&& r.child_session_id@ == child
                &&& exists|s: ReviewSummary| #[trigger]
                    is_review_of(s, review_lines(answer_of(result))->0) && r
                        == (ReviewSummary {
                        reviewer_turns_used: r.reviewer_turns_used,
                        reviewer_turns_limit: r.reviewer_turns_limit,
                        reviewer_stop_reason: r.reviewer_stop_reason,
                        child_session_id: r.child_session_id,
                        ..s
                    })
            } else {
                label is Failed && is_aborted_run(
                    r,
                    signed(
                        origin,
                        agent + " 输出不符合 <review> 契约（child="@ + child + "）"@,
                    ),
                    used,
                    limit,
                    "parse_error"@,
                    child,
                )
            }
        },
        AgentRunOutcome::Interrupted(result) => label is Interrupted && is_aborted_run(
            r,
            signed(origin, agent + " 被父 abort / cancel（child="@ + child + "）"@),
            assistant_count(result.new_messages@) as u32,
            limit,
            "parent_abort"@,
            child,
        ),
        AgentRunOutcome::Failed(e) => label is Failed && is_aborted_run(
            r,
            signed(origin, agent + " 子 Agent 失败："@ + e@),
            0,
            limit,
            "spawn_error"@,
            child,
        ),
    }
}

/// What a run brought, and how it is recorded.
pub fn build_summary_from_outcome(
    origin: &str,
    agent: &str,
    child_session_id: &str,
    turns_limit: u32,
    outcome: AgentRunOutcome,
) -> (r: (ReviewSummary, SubagentOutcomeLabel))
    ensures
        is_summary_of(r.0, r.1, origin@, agent@, child_session_id@, turns_limit, outcome),
{
    match outcome {
        AgentRunOutcome::Completed(result) => {
            let turns_used = count_assistant_turns(&result.new_messages);
            let text = extract_answer(&result);
            match parse_review_block(text.as_str()) {
                Some(found) => {
                    let ghost as_parsed = found;
                    let mut s = found;
                    s.reviewer_turns_used = turns_used;
                    s.reviewer_turns_limit = turns_limit;
                    s.reviewer_stop_reason = word_for_end(turns_used, turns_limit);
                    s.child_session_id = child_session_id.to_owned();
                    assert(is_review_of(as_parsed, review_lines(text@)->0));
                    (s, SubagentOutcomeLabel::Completed)
                },
                None => {
                    let why = cat4(
                        agent,
                        " 输出不符合 <review> 契约（child=",
                        child_session_id,
                        "）",
                    );
                    let mut s = ReviewSummary::aborted_with(sign(origin, why.as_str()));
                    s.reviewer_turns_used = turns_used;
                    s.reviewer_turns_limit = turns_limit;
                    s.reviewer_stop_reason = "parse_error".to_owned();
                    s.child_session_id = child_session_id.to_owned();
                    (s, SubagentOutcomeLabel::Failed)
                },
            }
        },
        AgentRunOutcome::Interrupted(result) => {
            let turns_used = count_assistant_turns(&result.new_messages);
            let why = cat4(agent, " 被父 abort / cancel（child=", child_session_id, "）");
            let mut s = ReviewSummary::aborted_with(sign(origin, why.as_str()));
            s.reviewer_turns_used = turns_used;
            s.reviewer_turns_limit = turns_limit;
            s.reviewer_stop_reason = "parent_abort".to_owned();
            s.child_session_id = child_session_id.to_owned();
            (s, SubagentOutcomeLabel::Interrupted)
        },
        AgentRunOutcome::Failed(e) => {
            let why = cat3(agent, " 子 Agent 失败：", e.as_str());
            let mut s = ReviewSummary::aborted_with(sign(origin, why.as_str()));
            s.reviewer_turns_limit = turns_limit;
            s.reviewer_stop_reason = "spawn_error".to_owned();
            s.child_session_id = child_session_id.to_owned();
            (s, SubagentOutcomeLabel::Failed)
        },
    }
}

/// What is recorded of a run as its error: the reason, if there is no review.
pub fn review_error(summary: &ReviewSummary) -> (r: Option<String>)
    ensures
        match r {
            Some(m) => summary.aborted && m@ == summary.summary@,
            None => !summary.aborted,
        },
{
    if summary.aborted {
        Some(summary.summary.clone())
    } else {
        None
    }
}

// ---------------------------------------------------------------- laws

/// A review counts as completed exactly if it is there: a run is recorded as completed if and only
/// if its summary is not aborted.
pub proof fn law_only_reviews_complete(
    r: ReviewSummary,
    label: SubagentOutcomeLabel,
    origin: Seq<char>,
    agent: Seq<char>,
    child: Seq<char>,
    limit: u32,
    outcome: AgentRunOutcome,
)
    requires
        is_summary_of(r, label, origin, agent, child, limit, outcome),
    ensures
        label is Completed <==> !r.aborted,
        r.reviewer_turns_limit == limit,
        r.child_session_id@ == child,
{
}

/// The agent for reviews can never draft plans, run commands, write files or start agents.
pub proof fn law_reviewer_tools()
    ensures
        !reviewer_tools().contains("create_plan"@),
        !reviewer_tools().contains("bash"@),
        !reviewer_tools().contains("write"@),
        !reviewer_tools().contains("dispatch_agent"@),
        !reviewer_tools().contains("checkpoint"@),
{
    reveal_strlit("read");
    reveal_strlit("search_files");
    reveal_strlit("list_dir");
    reveal_strlit("todos");
    reveal_strlit("update_plan");
    reveal_strlit("edit");
    reveal_strlit("create_plan");
    reveal_strlit("bash");
    reveal_strlit("write");
    reveal_strlit("dispatch_agent");
    reveal_strlit("checkpoint");
    assert("read"@[0] == 'r' && "edit"@[0] == 'e' && "todos"@[0] == 't' && "update_plan"@[0] == 'u'
        && "search_files"@[0] == 's' && "list_dir"@[0] == 'l');
    assert("create_plan"@[0] == 'c' && "bash"@[0] == 'b' && "write"@[0] == 'w'
        && "dispatch_agent"@[0] == 'd' && "checkpoint"@[0] == 'c');
}

/// A run that ends with a review hands that review on whole, with the turns that it took; a run that does not
/// is told as failed or broken off, in words that name who set it up, and changes nothing.
pub proof fn law_runs_hand_their_review_on(
    r: ReviewSummary,
    label: SubagentOutcomeLabel,
    origin: Seq<char>,
    agent: Seq<char>,
    child: Seq<char>,
    limit: u32,
    outcome: AgentRunOutcome,
)
    requires
        is_summary_of(r, label, origin, agent, child, limit, outcome),
    ensures
        outcome matches AgentRunOutcome::Completed(result) ==> (has_review(answer_of(result)) ==> {
            let ls = review_lines(answer_of(result))->0;
            &&& label is Completed
            &&& exists|s: ReviewSummary| #[trigger]
                is_review_of(s, ls) && r.summary == s.summary && r.changes_summary == s.changes_summary
                    && r.applied_changes == s.applied_changes && r.findings == s.findings && r.aborted
                    == s.aborted
            &&& r.reviewer_turns_used == assistant_count(result.new_messages@) as u32
        }),
        outcome matches AgentRunOutcome::Completed(result) ==> (!has_review(answer_of(result))
            ==> label is Failed),
        outcome is Interrupted ==> label is Interrupted,
        outcome is Failed ==> label is Failed,
        r.aborted ==> !r.applied_changes && r.findings@.len() == 0 && crate::search::has_prefix(
            r.summary@,
            "["@ + origin + "] "@ + agent,
        ),
        outcome matches AgentRunOutcome::Failed(e) ==> crate::search::has_suffix(r.summary@, e@),
{
    let head = "["@ + origin + "] "@ + agent;
    if r.aborted {
        assert(r.summary@.len() >= head.len());
        assert(r.summary@.subrange(0, head.len() as int) =~= head);
    }
    if let AgentRunOutcome::Failed(e) = outcome {
        let s = r.summary@;
        assert(s.subrange(s.len() - e@.len(), s.len() as int) =~= e@);
    }
    if let AgentRunOutcome::Completed(result) = outcome {
        if has_review(answer_of(result)) {
            let ls = review_lines(answer_of(result))->0;
            let s = choose|s: ReviewSummary| #[trigger]
                is_review_of(s, ls) && r == (ReviewSummary {
                    reviewer_turns_used: r.reviewer_turns_used,
                    reviewer_turns_limit: r.reviewer_turns_limit,
                    reviewer_stop_reason: r.reviewer_stop_reason,
                    child_session_id: r.child_session_id,
                    ..s
                });
            assert(is_review_of(s, ls));
        }
    }
}

/// A budget of no turns counts as one, and any other stays.
pub proof fn law_budgets_are_at_least_one(n: u32)
    ensures
        at_least_one(n) >= 1,
        n >= 1 ==> at_least_one(n) == n,
        n == 0 ==> at_least_one(n) == 1,
{
}

} // verus!
