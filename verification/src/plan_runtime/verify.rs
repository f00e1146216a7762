//! What a verifying agent is asked, how its answer is judged, and how a plan is sent to it.

use vstd::prelude::*;
use vstd::string::*;

use crate::plan_runtime::agent_run::{
    build_system_text, count_assistant_turns, extract_answer, word_for_end, AgentRunOutcome,
    AgentRunResult, SpawnEnd, SpawnRequest, SubagentOutcomeLabel,
};
#[allow(unused_imports)]
use crate::plan_runtime::agent_run::{answer_of, assistant_count, end_word, system_text};
use crate::plan_runtime::prod_reviewer::sign;
#[allow(unused_imports)]
use crate::plan_runtime::prod_reviewer::signed;
use crate::plan_runtime::review::{find_last_block, ARTIFACT_PATHS};
#[allow(unused_imports)]
use crate::plan_runtime::review::{cut_to, last_block};
use crate::search::{contains, take_chars};
#[allow(unused_imports)]
use crate::search::has_text;
use crate::text::{cat, cat3, push_text, same, to_ascii_lower, trim};
#[allow(unused_imports)]
use crate::text::{ascii_lowered, opt_str, opt_text, texts, trimmed};

verus! {

/// How many turns a verifier has.
pub const VERIFIER_MAX_TURNS: u32 = 64;

/// What a verifying agent is told first.
pub const VERIFIER_SYSTEM_PROMPT: &'static str = r#"
You are an internal verification subagent. You are NOT the user-facing agent.

You receive a verification brief in the initial user message with the plan, paths,
constraints, and current workspace root. Treat that brief as the source of truth.

Goal:
- Verify the deliverable after all plan todos are marked completed.
- Prefer reproducible checks tied to the changed area.
- Be adversarial enough to catch obvious misses, but stay within the granted tools.

Tool policy:
- Allowed tools are runtime-filtered. Expect only: read, search_files, list_dir, bash.
- create_plan, update_plan, todos, edit, write, dispatch_agent, checkpoint and any
  other write-capable tool are NEVER available.
- If you cannot verify because the environment blocks you, report that explicitly.

Command discovery:
1. Reuse concrete commands already present in the plan body or brief.
2. Otherwise inspect nearby manifests first (package.json, Cargo.toml, pyproject.toml,
   Makefile, justfile, go.mod, pom.xml, etc.).
3. Then inspect nearby README / CONTRIBUTING docs.
4. Do not guess default repo-wide commands without first reading a manifest or doc.
5. Prefer the smallest scoped check that meaningfully exercises the deliverable.

Verification workflow:
1. Read the plan file and inspect the workspace around the target area.
2. Choose a small set of reproducible checks (build / test / lint / smoke) based on
   explicit commands you discovered.
3. Run them with bash, capture concise evidence, and note skips when blocked.
4. Include at least one adversarial probe when relevant (for example run a focused
   failing-path smoke check, read the changed file to confirm the expected symbol,
   or inspect a nearby test target when execution is unavailable).
5. End with the exact output block below as the final assistant message.

Output contract (must be the final assistant message):

<verify>
checks:
  - name: "<short label>"
    command: "<exact command or read/search description>"
    result: pass|fail|skip
    output_excerpt: "<short evidence snippet>"
"verdict": pass|fail|partial|aborted
summary: <what you verified, what failed/skipped, and why>
</verify>

Rules:
1. Report only what you actually observed.
2. Use `result: skip` for environment blocks or missing commands; do not fake a pass.
3. The verdict `fail` is reserved for observed failures. Use `partial` when the checks are
   inconclusive but not failed.
4. Keep `summary` under 600 chars and each `output_excerpt` under 500 chars.
"#;

/// The names of the tools that a verifier may use.
pub open spec fn verifier_tools() -> Seq<Seq<char>> {
    seq!["read"@, "search_files"@, "list_dir"@, "bash"@]
}

/// The names of the tools that a verifier may use.
pub fn verifier_allowed_tools() -> (r: Vec<String>)
    ensures
        texts(r@) == verifier_tools(),
{
    let mut v: Vec<String> = Vec::new();
    push_text(&mut v, "read".to_owned());
    push_text(&mut v, "search_files".to_owned());
    push_text(&mut v, "list_dir".to_owned());
    push_text(&mut v, "bash".to_owned());
    assert(texts(v@) =~= verifier_tools());
    v
}

/// One check that a verifier made.
#[derive(Clone, Debug, PartialEq, Eq)]
pub struct VerifyCheck {
    pub name: String,
    pub command: String,
    pub result: String,
    pub output_excerpt: String,
}

/// What came of a verification.
#[derive(Clone, Debug, PartialEq, Eq)]
pub struct VerifySummary {
    pub checks: Vec<VerifyCheck>,
    pub verdict: String,
    pub summary: String,
    pub verifier_turns_used: u32,
    pub verifier_turns_limit: u32,
    pub verifier_stop_reason: String,
    pub child_session_id: String,
}

/// Whether `r` says that there was no verification, why, and how the run went.
pub open spec fn is_aborted_verify(
    r: VerifySummary,
    reason: Seq<char>,
    used: u32,
    limit: u32,
    stop: Seq<char>,
    child: Seq<char>,
) -> bool {
    &&& r.checks@.len() == 0
    &&& r.verdict@ == "aborted"@
    &&& r.summary@ == reason
    &&& r.verifier_turns_used == used
    &&& r.verifier_turns_limit == limit
    &&& r.verifier_stop_reason@ == stop
    &&& r.child_session_id@ == child
}

impl VerifySummary {
    /// What stands for a verification where there is nobody to verify.
    pub fn placeholder_pending() -> (r: VerifySummary)
        ensures
            is_aborted_verify(
                r,
                "verifier 子 Agent 未注入，返回占位摘要"@,
                0,
                VERIFIER_MAX_TURNS,
                "not_dispatched"@,
                Seq::empty(),
            ),
    {
        let mut r = VerifySummary::aborted_with(
            "verifier 子 Agent 未注入，返回占位摘要".to_owned(),
        );
        r.verifier_stop_reason = "not_dispatched".to_owned();
        r
    }

    /// That there was no verification, and why.
    pub fn aborted_with(reason: String) -> (r: VerifySummary)
        ensures
            is_aborted_verify(
                r,
                reason@,
                0,
                VERIFIER_MAX_TURNS,
                "aborted"@,
                Seq::empty(),
            ),
    {
        let none: String = String::new();
        assert(none@ =~= Seq::empty());
        VerifySummary {
            checks: Vec::new(),
            verdict: "aborted".to_owned(),
            summary: reason,
            verifier_turns_used: 0,
            verifier_turns_limit: VERIFIER_MAX_TURNS,
            verifier_stop_reason: "aborted".to_owned(),
            child_session_id: none,
        }
    }
}

// ---------------------------------------------------------------- reading an answer

/// The last `<verify>` block of an answer.
pub fn find_last_verify_block(text: &str) -> (r: Option<String>)
    ensures
        opt_text(r) == last_block(text@, "<verify>"@, "</verify>"@),
{
    find_last_block(text, "<verify>", "</verify>")
}

/// A word of an answer, without white space around it and in small letters.
pub open spec fn plain_word(s: Seq<char>) -> Seq<char> {
    ascii_lowered(trimmed(s))
}

/// A word of an answer, without white space around it and in small letters.
fn plain(s: &str) -> (r: String)
    ensures
        r@ == plain_word(s@),
{
    to_ascii_lower(trim(s).as_str())
}

/// The words for a verdict.
pub open spec fn is_verdict(w: Seq<char>) -> bool {
    w == "pass"@ || w == "fail"@ || w == "partial"@ || w == "aborted"@
}

/// The words for the result of a check.
pub open spec fn is_check_result(w: Seq<char>) -> bool {
    w == "pass"@ || w == "fail"@ || w == "skip"@
}

/// Whether an answer uses the words it may use.
pub open spec fn is_readable(s: VerifySummary) -> bool {
    is_verdict(plain_word(s.verdict@)) && forall|i: int|
        0 <= i < s.checks@.len() ==> is_check_result(plain_word((#[trigger] s.checks@[i]).result@))
}

/// Whether `r` is the check `c` with a plain word for its result and a short excerpt.
pub open spec fn is_tidy_check(r: VerifyCheck, c: VerifyCheck) -> bool {
    &&& r.name == c.name
    &&& r.command == c.command
    &&& r.result@ == plain_word(c.result@)
    &&& r.output_excerpt@ == cut_to(c.output_excerpt@, 500)
}

/// Whether `r` is the summary `s` with plain words, and its texts cut off.
pub open spec fn is_tidy(r: VerifySummary, s: VerifySummary) -> bool {
    &&& r.verdict@ == plain_word(s.verdict@)
    &&& r.summary@ == cut_to(s.summary@, 600)
    &&& r.checks@.len() == s.checks@.len()
    &&& forall|i: int|
        0 <= i < r.checks@.len() ==> is_tidy_check(#[trigger] r.checks@[i], s.checks@[i])
    &&& r.verifier_turns_used == s.verifier_turns_used
    &&& r.verifier_turns_limit == s.verifier_turns_limit
    &&& r.verifier_stop_reason == s.verifier_stop_reason
    &&& r.child_session_id == s.child_session_id
}

/// A summary with plain words, and its texts cut off; none if it uses other words than it may.
pub fn normalize_summary(summary: VerifySummary) -> (r: Option<VerifySummary>)
    ensures
        match r {
            Some(t) => is_readable(summary) && is_tidy(t, summary),
            None => !is_readable(summary),
        },
{
    let verdict = plain(summary.verdict.as_str());
    if !(same(verdict.as_str(), "pass") || same(verdict.as_str(), "fail") || same(
        verdict.as_str(),
        "partial",
    ) || same(verdict.as_str(), "aborted")) {
        return None;
    }
    let mut checks: Vec<VerifyCheck> = Vec::new();
    let mut i: usize = 0;
    while i < summary.checks.len()
        invariant
            i <= summary.checks@.len(),
            checks@.len() == i,
            forall|j: int|
                0 <= j < i ==> is_check_result(
                    plain_word((#[trigger] summary.checks@[j]).result@),
                ),
            forall|j: int| 0 <= j < i ==> is_tidy_check(#[trigger] checks@[j], summary.checks@[j]),
        decreases summary.checks@.len() - i,
    {
        let c = &summary.checks[i];
        let result = plain(c.result.as_str());
        if !(same(result.as_str(), "pass") || same(result.as_str(), "fail") || same(
            result.as_str(),
            "skip",
        )) {
            assert(!is_check_result(plain_word(summary.checks@[i as int].result@)));
            return None;
        }
        checks.push(
            VerifyCheck {
                name: c.name.clone(),
                command: c.command.clone(),
                result,
                output_excerpt: take_chars(c.output_excerpt.as_str(), 500),
            },
        );
        i = i + 1;
    }
    Some(
        VerifySummary {
            checks,
            verdict,
            summary: take_chars(summary.summary.as_str(), 600),
            verifier_turns_used: summary.verifier_turns_used,
            verifier_turns_limit: summary.verifier_turns_limit,
            verifier_stop_reason: summary.verifier_stop_reason,
            child_session_id: summary.child_session_id,
        },
    )
}

// ---------------------------------------------------------------- gating

/// Whether a check is one of those that count: a test, a build or a lint.
pub open spec fn is_key_check(c: VerifyCheck) -> bool {
    let probe = ascii_lowered(c.name@ + " "@ + c.command@);
    has_text(probe, "test"@) || has_text(probe, "build"@) || has_text(probe, "lint"@) || has_text(
        probe,
        "clippy"@,
    )
}

/// Whether a check says that it passed and not by which command.
pub open spec fn is_hollow(c: VerifyCheck) -> bool {
    c.result@ == "pass"@ && trimmed(c.command@).len() == 0
}

/// What a gated check says: one that passed by no command was skipped.
pub open spec fn gate_result(c: VerifyCheck) -> Seq<char> {
    if is_hollow(c) {
        "skip"@
    } else {
        c.result@
    }
}

/// Whether a check that counts was made.
pub open spec fn has_key_check(checks: Seq<VerifyCheck>) -> bool {
    exists|i: int| 0 <= i < checks.len() && is_key_check(#[trigger] checks[i])
}

/// Whether a check that counts was made and not skipped.
pub open spec fn has_key_run(checks: Seq<VerifyCheck>) -> bool {
    exists|i: int|
        0 <= i < checks.len() && is_key_check(#[trigger] checks[i]) && gate_result(checks[i])
            != "skip"@
}

/// Whether the verdict becomes `partial`: nothing failed, and of the checks that count none ran.
pub open spec fn is_weakened(s: VerifySummary) -> bool {
    s.verdict@ != "fail"@ && s.verdict@ != "aborted"@ && has_key_check(s.checks@) && !has_key_run(
        s.checks@,
    )
}

/// The warnings about checks that passed by no command.
pub open spec fn hollow_warnings(checks: Seq<VerifyCheck>) -> Seq<Seq<char>>
    decreases checks.len(),
{
    if checks.len() == 0 {
        Seq::empty()
    } else {
        let rest = hollow_warnings(checks.drop_last());
        if is_hollow(checks.last()) {
            rest.push(
                "check `"@ + checks.last().name@
                    + "` 声称 pass 但 command 为空，已降级为 skip"@,
            )
        } else {
            rest
        }
    }
}

/// The warnings of gating.
pub open spec fn gate_warnings(s: VerifySummary) -> Seq<Seq<char>> {
    let hollow = hollow_warnings(s.checks@);
    if is_weakened(s) {
        hollow.push(
            "关键 build/test/lint 检查均未实际跑通，verdict 已降级为 partial"@,
        )
    } else {
        hollow
    }
}

/// Whether `r` is the check `c`, gated.
pub open spec fn is_gated_check(r: VerifyCheck, c: VerifyCheck) -> bool {
    &&& r.name == c.name
    &&& r.command == c.command
    &&& r.output_excerpt == c.output_excerpt
    &&& r.result@ == gate_result(c)
}

/// Whether `r` is the summary `s`, gated.
pub open spec fn is_gated(r: VerifySummary, s: VerifySummary) -> bool {
    &&& r.checks@.len() == s.checks@.len()
    &&& forall|i: int|
        0 <= i < r.checks@.len() ==> is_gated_check(#[trigger] r.checks@[i], s.checks@[i])
    &&& r.verdict@ == (if is_weakened(s) {
        "partial"@
    } else {
        s.verdict@
    })
    &&& r.summary == s.summary
    &&& r.verifier_turns_used == s.verifier_turns_used
    &&& r.verifier_turns_limit == s.verifier_turns_limit
    &&& r.verifier_stop_reason == s.verifier_stop_reason
    &&& r.child_session_id == s.child_session_id
}

/// Whether a check is one of those that count.
fn counts(c: &VerifyCheck) -> (r: bool)
    ensures
        r == is_key_check(*c),
{
    let probe = to_ascii_lower(cat3(c.name.as_str(), " ", c.command.as_str()).as_str());
    contains(probe.as_str(), "test") || contains(probe.as_str(), "build") || contains(
        probe.as_str(),
        "lint",
    ) || contains(probe.as_str(), "clippy")
}

/// Whether a check says that it passed and not by which command.
fn rings_hollow(c: &VerifyCheck) -> (r: bool)
    ensures
        r == is_hollow(*c),
{
    same(c.result.as_str(), "pass") && {
        let t = trim(c.command.as_str());
        t.as_str().is_empty()
    }
}

/// Holds a summary to what it shows: a check that passed by no command was skipped, and where no
/// check that counts ran, the verdict is `partial`. Returns the warnings about it.
pub fn normalize_for_gate(summary: &mut VerifySummary) -> (r: Vec<String>)
    ensures
        is_gated(*final(summary), *old(summary)),
        texts(r@) == gate_warnings(*old(summary)),
{
    let ghost before = *summary;
    let mut warnings: Vec<String> = Vec::new();
    let mut checks: Vec<VerifyCheck> = Vec::new();
    let mut saw_key = false;
    let mut saw_run = false;
    let mut i: usize = 0;
    assert(texts(warnings@) =~= hollow_warnings(before.checks@.take(0)));
    while i < summary.checks.len()
        invariant
            *summary == before,
            i <= before.checks@.len(),
            checks@.len() == i,
            forall|j: int| 0 <= j < i ==> is_gated_check(#[trigger] checks@[j], before.checks@[j]),
            saw_key == (exists|j: int| 0 <= j < i && is_key_check(#[trigger] before.checks@[j])),
            saw_run == (exists|j: int|
                0 <= j < i && is_key_check(#[trigger] before.checks@[j]) && gate_result(
                    before.checks@[j],
                ) != "skip"@),
            texts(warnings@) == hollow_warnings(before.checks@.take(i as int)),
        decreases before.checks@.len() - i,
    {
        let ghost k = i as int;
        assert(before.checks@.take(k + 1).drop_last() =~= before.checks@.take(k));
        assert(before.checks@.take(k + 1).last() == before.checks@[k]);
        let c = &summary.checks[i];
        let is_key = counts(c);
        let hollow = rings_hollow(c);
        if hollow {
            push_text(
                &mut warnings,
                cat3("check `", c.name.as_str(), "` 声称 pass 但 command 为空，已降级为 skip"),
            );
        }
        let result = if hollow {
            "skip".to_owned()
        } else {
            c.result.clone()
        };
        let ran = is_key && !same(result.as_str(), "skip");
        checks.push(
            VerifyCheck {
                name: c.name.clone(),
                command: c.command.clone(),
                result,
                output_excerpt: c.output_excerpt.clone(),
            },
        );
        if is_key {
            saw_key = true;
        }
        if ran {
            saw_run = true;
        }
        i = i + 1;
    }
    assert(before.checks@.take(before.checks@.len() as int) =~= before.checks@);
    let weakened = !same(summary.verdict.as_str(), "fail") && !same(
        summary.verdict.as_str(),
        "aborted",
    ) && saw_key && !saw_run;
    summary.checks = checks;
    if weakened {
        summary.verdict = "partial".to_owned();
        push_text(
            &mut warnings,
            "关键 build/test/lint 检查均未实际跑通，verdict 已降级为 partial".to_owned(),
        );
    }
    warnings
}

// ---------------------------------------------------------------- the question

/// What the verifier is to look at.
pub const VERIFY_SCOPE: &'static str = "Scope:\n- Treat all todos as already marked completed; you are checking whether that is justified.\n- Read the exact plan file path above before broad search if you need to confirm current disk content.\n- Discover commands in this order: plan body / brief, nearby manifest, nearby README, then minimal inferred smoke.\n- Do NOT default to repo-wide `npm test`, workspace-wide `cargo test`, or whole-repo `pytest` without reading a manifest/doc first.\n- Prefer the smallest scoped build/test/lint command that matches the changed area.\n- End with the required <verify> output block.\n\n----- BEGIN PLAN -----\n";

/// The lines about the workspace.
pub open spec fn verify_workspace_hint(root: Option<Seq<char>>) -> Seq<char> {
    match root {
        Some(r) => "         - Project/workspace root (start inspection here first): `"@ + r
            + "`\n- Access note: reads or bash may still require runtime authorization depending on workspace grants.\n"@,
        None => Seq::empty(),
    }
}

/// What a verifier is asked about a plan.
pub open spec fn verify_prompt(
    plan_id: Seq<char>,
    plan_text: Seq<char>,
    plan_path: Seq<char>,
    root: Option<Seq<char>>,
) -> Seq<char> {
    "Verify the finished PlanFile (plan_id = `"@ + plan_id + ARTIFACT_PATHS@ + plan_path + "`\n"@
        + verify_workspace_hint(root) + VERIFY_SCOPE@ + plan_text + "\n----- END PLAN -----\n"@
}

/// What a verifier is asked about a plan, with the paths as they are shown.
pub fn build_verify_prompt(
    plan_id: &str,
    plan_text: &str,
    plan_path: &str,
    workspace_root: Option<&str>,
) -> (r: String)
    ensures
        r@ == verify_prompt(plan_id@, plan_text@, plan_path@, opt_str(workspace_root)),
{
    let mut out = "Verify the finished PlanFile (plan_id = `".to_owned();
    out.append(plan_id);
    out.append(ARTIFACT_PATHS);
    out.append(plan_path);
    out.append("`\n");
    let ghost before = out@;
    match workspace_root {
        Some(root) => {
            let mut hint = cat(
                "         - Project/workspace root (start inspection here first): `",
                root,
            );
            hint.append(
                "`\n- Access note: reads or bash may still require runtime authorization depending on workspace grants.\n",
            );
            out.append(hint.as_str());
        },
        None => {
            assert(before + Seq::<char>::empty() =~= before);
        },
    }
    out.append(VERIFY_SCOPE);
    out.append(plan_text);
    out.append("\n----- END PLAN -----\n");
    out
}

// ---------------------------------------------------------------- sending a plan

/// Sends plans to a verifying agent.
#[derive(Clone, Debug, PartialEq, Eq)]
pub struct ProdVerifierDispatcher {
    /// Who set it up; stands in its messages.
    pub origin: String,
    pub deps: Option<ProdVerifierDeps>,
}

/// What verifying needs, as far as it decides what happens.
#[derive(Clone, Debug, PartialEq, Eq)]
pub struct ProdVerifierDeps {
    /// Whether the runtime of the plan still exists.
    pub runtime_alive: bool,
    /// Where the agent starts, as it is shown.
    pub agent_workspace_dir: String,
}

/// The first step of a verification.
#[derive(Clone, Debug, PartialEq, Eq)]
pub enum VerifyStep {
    /// There will be none.
    Done(VerifySummary),
    /// An agent is to be started.
    Spawn(SpawnRequest),
}

/// Whether `r` says that there was no verification before an agent was started.
pub open spec fn is_not_started(r: VerifySummary, reason: Seq<char>) -> bool {
    is_aborted_verify(r, reason, 0, VERIFIER_MAX_TURNS, "aborted"@, Seq::empty())
}

impl ProdVerifierDispatcher {
    /// A dispatcher that has nothing to verify with.
    pub fn stub(origin: &str) -> (r: ProdVerifierDispatcher)
        ensures
            r.origin@ == origin@,
            r.deps is None,
    {
        ProdVerifierDispatcher { origin: origin.to_owned(), deps: None }
    }

    /// A dispatcher with all it needs.
    pub fn new(origin: &str, deps: ProdVerifierDeps) -> (r: ProdVerifierDispatcher)
        ensures
            r.origin@ == origin@,
            r.deps == Some(deps),
    {
        ProdVerifierDispatcher { origin: origin.to_owned(), deps: Some(deps) }
    }

    /// The first step of a verification: none without the means for it or without a runtime, else
    /// an agent with its brief, its tools and its turns.
    pub fn dispatch(&self, plan_id: &str, plan_text: &str, plan_path: &str) -> (r: VerifyStep)
        ensures
            match r {
                VerifyStep::Done(s) => match self.deps {
                    None => is_not_started(
                        s,
                        signed(
                            self.origin@,
                            "生产 verifier 子 Agent 未注入依赖（stub 模式）"@,
                        ),
                    ),
                    Some(d) => !d.runtime_alive && is_not_started(
                        s,
                        signed(self.origin@, "PlanRuntime 已被 drop，verifier 取消派发"@),
                    ),
                },
                VerifyStep::Spawn(q) => {
                    &&& self.deps is Some
                    &&& self.deps->0.runtime_alive
                    &&& q.turns_limit == VERIFIER_MAX_TURNS
                    &&& q.system_text@ == system_text(
                        VERIFIER_SYSTEM_PROMPT@,
                        VERIFIER_MAX_TURNS as nat,
                    )
                    &&& q.user_text@ == verify_prompt(
                        plan_id@,
                        plan_text@,
                        plan_path@,
                        Some(self.deps->0.agent_workspace_dir@),
                    )
                    &&& texts(q.tools@) == verifier_tools()
                    &&& q.max_attempts == 3
                    &&& q.retry_base_delay_ms == 300
                },
            },
    {
        match &self.deps {
            None => VerifyStep::Done(
                VerifySummary::aborted_with(
                    sign(
                        self.origin.as_str(),
                        "生产 verifier 子 Agent 未注入依赖（stub 模式）",
                    ),
                ),
            ),
            Some(d) => {
                if !d.runtime_alive {
                    return VerifyStep::Done(
                        VerifySummary::aborted_with(
                            sign(
                                self.origin.as_str(),
                                "PlanRuntime 已被 drop，verifier 取消派发",
                            ),
                        ),
                    );
                }
                VerifyStep::Spawn(
                    SpawnRequest {
                        system_text: build_system_text(VERIFIER_SYSTEM_PROMPT, VERIFIER_MAX_TURNS),
                        user_text: build_verify_prompt(
                            plan_id,
                            plan_text,
                            plan_path,
                            Some(d.agent_workspace_dir.as_str()),
                        ),
                        tools: verifier_allowed_tools(),
                        turns_limit: VERIFIER_MAX_TURNS,
                        max_attempts: 3,
                        retry_base_delay_ms: 300,
                    },
                )
            },
        }
    }

    /// What comes of a verification once the agent is gone: its summary, or why there is none.
    pub fn dispatch_finished(&self, end: SpawnEnd<VerifySummary>) -> (r: VerifySummary)
        ensures
            match end {
                SpawnEnd::Summary(s) => r == s,
                SpawnEnd::NoSummary => is_not_started(
                    r,
                    signed(
                        self.origin@,
                        "verifier 子 Agent 退出但 summary channel 提前关闭"@,
                    ),
                ),
                SpawnEnd::Failed(e) => is_aborted_verify(
                    r,
                    signed(self.origin@, "verifier spawn 失败："@ + e@),
                    0,
                    VERIFIER_MAX_TURNS,
                    "spawn_error"@,
                    Seq::empty(),
                ),
            },
    {
        match end {
            SpawnEnd::Summary(s) => s,
            SpawnEnd::NoSummary => VerifySummary::aborted_with(
                sign(
                    self.origin.as_str(),
                    "verifier 子 Agent 退出但 summary channel 提前关闭",
                ),
            ),
            SpawnEnd::Failed(e) => {
                let mut s = VerifySummary::aborted_with(
                    sign(self.origin.as_str(), cat("verifier spawn 失败：", e.as_str()).as_str()),
                );
                s.verifier_stop_reason = "spawn_error".to_owned();
                s
            },
        }
    }
}

/// The `<verify>` block of a run's answer.
pub fn answer_block(result: &AgentRunResult) -> (r: Option<String>)
    ensures
        opt_text(r) == last_block(answer_of(*result), "<verify>"@, "</verify>"@),
{
    let text = extract_answer(result);
    find_last_verify_block(text.as_str())
}

/// What is made of a run whose answer, read as YAML, says `written`.
pub open spec fn is_verify_summary_of(
    r: VerifySummary,
    label: SubagentOutcomeLabel,
    origin: Seq<char>,
    child: Seq<char>,
    limit: u32,
    outcome: AgentRunOutcome,
    written: Option<VerifySummary>,
) -> bool {
    match outcome {
        AgentRunOutcome::Completed(result) => {
            let used = assistant_count(result.new_messages@) as u32;
            if written is Some && is_readable(written->0) {
                &&& label is Completed
                &&& r.verifier_turns_used == used
                &&& r.verifier_turns_limit == limit
                &&& r.verifier_stop_reason@ == end_word(used, limit)
                &&& r.child_session_id@ == child
                &&& is_tidy(
                    (VerifySummary {
                        verifier_turns_used: written->0.verifier_turns_used,
                        verifier_turns_limit: written->0.verifier_turns_limit,
                        verifier_stop_reason: written->0.verifier_stop_reason,
                        child_session_id: written->0.child_session_id,
                        ..r
                    }),
                    written->0,
                )
            } else {
                label is Failed && is_aborted_verify(
                    r,
                    signed(
                        origin,
                        "verifier 输出不符合 <verify> 契约（child="@ + child + "）"@,
                    ),
                    used,
                    limit,
                    "parse_error"@,
                    child,
                )
            }
        },
        AgentRunOutcome::Interrupted(result) => label is Interrupted && is_aborted_verify(
            r,
            signed(origin, "verifier 被父 abort / cancel（child="@ + child + "）"@),
            assistant_count(result.new_messages@) as u32,
            limit,
            "parent_abort"@,
            child,
        ),
        AgentRunOutcome::Failed(e) => label is Failed && is_aborted_verify(
            r,
            signed(origin, "verifier 子 Agent 失败："@ + e@),
            0,
            limit,
            "spawn_error"@,
            child,
        ),
    }
}

/// What a run brought, and how it is recorded. `written` is what the `<verify>` block of its
/// answer says, read as YAML.
pub fn build_summary_from_outcome(
    origin: &str,
    child_session_id: &str,
    turns_limit: u32,
    outcome: AgentRunOutcome,
    written: Option<VerifySummary>,
) -> (r: (VerifySummary, SubagentOutcomeLabel))
    ensures
        is_verify_summary_of(r.0, r.1, origin@, child_session_id@, turns_limit, outcome, written),
{
    match outcome {
        AgentRunOutcome::Completed(result) => {
            let turns_used = count_assistant_turns(&result.new_messages);
            let read = match written {
                Some(w) => normalize_summary(w),
                None => None,
            };
            match read {
                Some(found) => {
                    let mut s = found;
                    s.verifier_turns_used = turns_used;
                    s.verifier_turns_limit = turns_limit;
                    s.verifier_stop_reason = word_for_end(turns_used, turns_limit);
                    s.child_session_id = child_session_id.to_owned();
                    (s, SubagentOutcomeLabel::Completed)
                },
                None => {
                    let why = cat3(
                        "verifier 输出不符合 <verify> 契约（child=",
                        child_session_id,
                        "）",
                    );
                    let mut s = VerifySummary::aborted_with(sign(origin, why.as_str()));
                    s.verifier_turns_used = turns_used;
                    s.verifier_turns_limit = turns_limit;
                    s.verifier_stop_reason = "parse_error".to_owned();
                    s.child_session_id = child_session_id.to_owned();
                    (s, SubagentOutcomeLabel::Failed)
                },
            }
        },
        AgentRunOutcome::Interrupted(result) => {
            let turns_used = count_assistant_turns(&result.new_messages);
            let why = cat3("verifier 被父 abort / cancel（child=", child_session_id, "）");
            let mut s = VerifySummary::aborted_with(sign(origin, why.as_str()));
            s.verifier_turns_used = turns_used;
            s.verifier_turns_limit = turns_limit;
            s.verifier_stop_reason = "parent_abort".to_owned();
            s.child_session_id = child_session_id.to_owned();
            (s, SubagentOutcomeLabel::Interrupted)
        },
        AgentRunOutcome::Failed(e) => {
            let why = cat("verifier 子 Agent 失败：", e.as_str());
            let mut s = VerifySummary::aborted_with(sign(origin, why.as_str()));
            s.verifier_turns_limit = turns_limit;
            s.verifier_stop_reason = "spawn_error".to_owned();
            s.child_session_id = child_session_id.to_owned();
            (s, SubagentOutcomeLabel::Failed)
        },
    }
}

/// What is recorded of a run as its error: the reason, if the verdict is `aborted`.
pub fn verify_error(summary: &VerifySummary) -> (r: Option<String>)
    ensures
        match r {
            Some(m) => summary.verdict@ == "aborted"@ && m@ == summary.summary@,
            None => summary.verdict@ != "aborted"@,
        },
{
    if same(summary.verdict.as_str(), "aborted") {
        Some(summary.summary.clone())
    } else {
        None
    }
}

// ---------------------------------------------------------------- laws

/// Gating never makes a verdict better: what failed or was aborted stays so, and nothing becomes
/// a pass.
pub proof fn law_gate_never_lifts(before: VerifySummary, after: VerifySummary)
    requires
        is_gated(after, before),
    ensures
        before.verdict@ == "fail"@ ==> after.verdict@ == "fail"@,
        before.verdict@ == "aborted"@ ==> after.verdict@ == "aborted"@,
        after.verdict@ == "pass"@ ==> before.verdict@ == "pass"@,
        forall|i: int|
            0 <= i < after.checks@.len() && (#[trigger] after.checks@[i]).result@ == "pass"@
                ==> before.checks@[i].result@ == "pass"@ && trimmed(before.checks@[i].command@).len()
                > 0,
{
    reveal_strlit("partial");
    reveal_strlit("pass");
    reveal_strlit("skip");
    assert("partial"@.len() != "pass"@.len());
    assert("skip"@[0] == 's' && "pass"@[0] == 'p');
    assert forall|i: int|
        0 <= i < after.checks@.len() && (#[trigger] after.checks@[i]).result@
            == "pass"@ implies before.checks@[i].result@ == "pass"@ && trimmed(
        before.checks@[i].command@,
    ).len() > 0 by {
        assert(is_gated_check(after.checks@[i], before.checks@[i]));
    }
}

/// A summary that was gated once is gated unchanged.
pub proof fn law_gate_is_settled(
    before: VerifySummary,
    once: VerifySummary,
    twice: VerifySummary,
)
    requires
        is_gated(once, before),
        is_gated(twice, once),
    ensures
        twice.verdict@ == once.verdict@,
        hollow_warnings(once.checks@).len() == 0,
        forall|i: int|
            0 <= i < twice.checks@.len() ==> (#[trigger] twice.checks@[i]).result@
                == once.checks@[i].result@,
{
    reveal_strlit("pass");
    reveal_strlit("skip");
    assert("skip"@[0] == 's' && "pass"@[0] == 'p');
    assert forall|i: int| 0 <= i < once.checks@.len() implies !is_hollow(
        #[trigger] once.checks@[i],
    ) && gate_result(once.checks@[i]) == gate_result(before.checks@[i]) && is_key_check(
        once.checks@[i],
    ) == is_key_check(before.checks@[i]) by {
        assert(is_gated_check(once.checks@[i], before.checks@[i]));
    }
    lemma_no_hollow(once.checks@);
    assert forall|i: int| 0 <= i < twice.checks@.len() implies (
    #[trigger] twice.checks@[i]).result@ == once.checks@[i].result@ by {
        assert(is_gated_check(twice.checks@[i], once.checks@[i]));
        assert(!is_hollow(once.checks@[i]));
    }
    assert(has_key_check(once.checks@) == has_key_check(before.checks@)) by {
        if has_key_check(before.checks@) {
            let i = choose|i: int|
                0 <= i < before.checks@.len() && is_key_check(#[trigger] before.checks@[i]);
            assert(is_key_check(once.checks@[i]));
        }
        if has_key_check(once.checks@) {
            let i = choose|i: int|
                0 <= i < once.checks@.len() && is_key_check(#[trigger] once.checks@[i]);
            assert(is_key_check(before.checks@[i]));
        }
    }
    assert(has_key_run(once.checks@) == has_key_run(before.checks@)) by {
        if has_key_run(before.checks@) {
            let i = choose|i: int|
                0 <= i < before.checks@.len() && is_key_check(#[trigger] before.checks@[i])
                    && gate_result(before.checks@[i]) != "skip"@;
            assert(is_key_check(once.checks@[i]));
        }
        if has_key_run(once.checks@) {
            let i = choose|i: int|
                0 <= i < once.checks@.len() && is_key_check(#[trigger] once.checks@[i])
                    && gate_result(once.checks@[i]) != "skip"@;
            assert(is_key_check(before.checks@[i]));
        }
    }
}

proof fn lemma_no_hollow(checks: Seq<VerifyCheck>)
    requires
        forall|i: int| 0 <= i < checks.len() ==> !is_hollow(#[trigger] checks[i]),
    ensures
        hollow_warnings(checks).len() == 0,
    decreases checks.len(),
{
    if checks.len() > 0 {
        let rest = checks.drop_last();
        assert forall|i: int| 0 <= i < rest.len() implies !is_hollow(#[trigger] rest[i]) by {
            assert(rest[i] == checks[i]);
        }
        lemma_no_hollow(rest);
        assert(!is_hollow(checks[checks.len() - 1]));
    }
}

/// A verifier can never change plans, todos or files.
pub proof fn law_verifier_tools()
    ensures
        !verifier_tools().contains("create_plan"@),
        !verifier_tools().contains("update_plan"@),
        !verifier_tools().contains("todos"@),
        !verifier_tools().contains("write"@),
        !verifier_tools().contains("edit"@),
{
    reveal_strlit("read");
    reveal_strlit("search_files");
    reveal_strlit("list_dir");
    reveal_strlit("bash");
    reveal_strlit("create_plan");
    reveal_strlit("update_plan");
    reveal_strlit("todos");
    reveal_strlit("write");
    reveal_strlit("edit");
    assert("read"@[0] == 'r' && "search_files"@[0] == 's' && "list_dir"@[0] == 'l' && "bash"@[0]
        == 'b');
    assert("create_plan"@[0] == 'c' && "update_plan"@[0] == 'u' && "todos"@[0] == 't' && "write"@[0]
        == 'w' && "edit"@[0] == 'e');
}

/// There is a warning for every check that claims to have passed without a command, in order, by name, and
/// for no other.
pub proof fn law_hollow_checks_are_told(checks: Seq<VerifyCheck>)
    ensures
        hollow_warnings(checks) == checks.filter(
            |c: VerifyCheck| c.result@ == "pass"@ && trimmed(c.command@).len() == 0,
        ).map_values(
            |c: VerifyCheck|
                "check `"@ + c.name@ + "` 声称 pass 但 command 为空，已降级为 skip"@,
        ),
    decreases checks.len(),
{
    reveal(Seq::filter);
    let hollow = |c: VerifyCheck| c.result@ == "pass"@ && trimmed(c.command@).len() == 0;
    let told = |c: VerifyCheck|
        "check `"@ + c.name@ + "` 声称 pass 但 command 为空，已降级为 skip"@;
    if checks.len() > 0 {
        let front = checks.drop_last();
        law_hollow_checks_are_told(front);
        if hollow(checks.last()) {
            assert(checks.filter(hollow).map_values(told) =~= front.filter(hollow).map_values(told).push(
                told(checks.last()),
            ));
        }
    } else {
        assert(hollow_warnings(checks) =~= checks.filter(hollow).map_values(told));
    }
}

/// Gating changes only what cannot be believed: a pass without a command becomes a skip, and every other
/// check stays as it is; the whole becomes partial exactly if there are key checks, none of them was run, and
/// it did not fail or break off anyway.
pub proof fn law_gate_changes_what_cannot_be_believed(before: VerifySummary, after: VerifySummary, i: int)
    requires
        is_gated(after, before),
    ensures
        after.checks@.len() == before.checks@.len(),
        0 <= i < before.checks@.len() ==> {
            let b = before.checks@[i];
            let a = after.checks@[i];
            &&& a.name == b.name && a.command == b.command && a.output_excerpt == b.output_excerpt
            &&& b.result@ == "pass"@ && trimmed(b.command@).len() == 0 ==> a.result@ == "skip"@
            &&& !(b.result@ == "pass"@ && trimmed(b.command@).len() == 0) ==> a.result@ == b.result@
        },
        0 <= i < after.checks@.len() && is_key_check(after.checks@[i]) && after.checks@[i].result@
            != "skip"@ ==> after.verdict@ == before.verdict@,
        after.verdict@ != before.verdict@ ==> after.verdict@ == "partial"@ && before.verdict@ != "fail"@
            && before.verdict@ != "aborted"@,
        before.verdict@ == "pass"@ && after.verdict@ == "pass"@ && 0 <= i < after.checks@.len()
            && is_key_check(after.checks@[i]) ==> exists|k: int|
            0 <= k < after.checks@.len() && (#[trigger] after.checks@[k]).result@ != "skip"@
                && is_key_check(after.checks@[k]),
        after.summary == before.summary,
{
    reveal_strlit("partial");
    reveal_strlit("pass");
    reveal_strlit("fail");
    reveal_strlit("aborted");
    assert("partial"@.len() != "pass"@.len());
    assert("pass"@[0] == 'p' && "fail"@[0] == 'f');
    assert("aborted"@.len() != "pass"@.len());
    if 0 <= i < before.checks@.len() {
        assert(is_gated_check(after.checks@[i], before.checks@[i]));
        if is_key_check(after.checks@[i]) {
            assert(is_key_check(before.checks@[i]));
            if after.checks@[i].result@ != "skip"@ {
                assert(has_key_run(before.checks@));
            }
            if before.verdict@ == "pass"@ && after.verdict@ == "pass"@ {
                assert(has_key_check(before.checks@));
                assert(has_key_run(before.checks@));
                let k = choose|k: int|
                    0 <= k < before.checks@.len() && is_key_check(#[trigger] before.checks@[k])
                        && gate_result(before.checks@[k]) != "skip"@;
                assert(is_gated_check(after.checks@[k], before.checks@[k]));
                assert(after.checks@[k].result@ != "skip"@ && is_key_check(after.checks@[k]));
            }
        }
    }
}

/// A check is a key check if its name or its command speaks of tests, builds or lints, in any case.
#[verifier::rlimit(40)]
#[verifier::spinoff_prover]
pub proof fn law_key_checks_by_their_words(c: VerifyCheck, w: Seq<char>)
    requires
        w == "test"@ || w == "build"@ || w == "lint"@ || w == "clippy"@,
        has_text(ascii_lowered(c.name@), w) || has_text(ascii_lowered(c.command@), w),
    ensures
        is_key_check(c),
{
    let probe = ascii_lowered(c.name@ + " "@ + c.command@);
    let a = ascii_lowered(c.name@);
    let s = ascii_lowered(" "@);
    let b = ascii_lowered(c.command@);
    assert(probe =~= a + s + b);
    if has_text(a, w) {
        crate::search::lemma_text_within(Seq::empty(), a, s + b, w);
        assert(probe =~= Seq::<char>::empty() + a + (s + b));
    } else {
        crate::search::lemma_text_within(a + s, b, Seq::empty(), w);
        assert(probe =~= (a + s) + b + Seq::<char>::empty());
    }
}

/// A summary is read if its words are known ones, in any case and with white space around them: four for the
/// whole and three for a check. What is read keeps every check in its place, with its texts cut only where
/// they are too long.
pub proof fn law_summaries_keep_their_checks(r: VerifySummary, s: VerifySummary, i: int)
    requires
        is_readable(s),
        is_tidy(r, s),
    ensures
        is_verdict(r.verdict@),
        r.verdict@ == ascii_lowered(trimmed(s.verdict@)),
        r.checks@.len() == s.checks@.len(),
        s.summary@.len() <= 600 ==> r.summary@ == s.summary@,
        0 <= i < s.checks@.len() ==> {
            let a = r.checks@[i];
            let b = s.checks@[i];
            &&& a.name == b.name
            &&& a.command == b.command
            &&& a.result@ == ascii_lowered(trimmed(b.result@))
            &&& a.result@ == "pass"@ || a.result@ == "fail"@ || a.result@ == "skip"@
            &&& b.output_excerpt@.len() <= 500 ==> a.output_excerpt@ == b.output_excerpt@
            &&& b.output_excerpt@.len() > 500 ==> a.output_excerpt@ == b.output_excerpt@.take(500)
        },
{
    if 0 <= i < s.checks@.len() {
        assert(is_tidy_check(r.checks@[i], s.checks@[i]));
        assert(is_check_result(plain_word(s.checks@[i].result@)));
    }
}

/// The agent that checks a plan is given the plan in full, its id, where it is and where the work is.
#[verifier::rlimit(40)]
#[verifier::spinoff_prover]
pub proof fn law_verifiers_are_given_the_plan(
    id: Seq<char>,
    text: Seq<char>,
    path: Seq<char>,
    root: Option<Seq<char>>,
)
    ensures
        crate::search::has_suffix(verify_prompt(id, text, path, root), text + "\n----- END PLAN -----\n"@),
        has_text(verify_prompt(id, text, path, root), id),
        has_text(verify_prompt(id, text, path, root), path),
        root matches Some(r) ==> has_text(verify_prompt(id, text, path, root), r),
{
    let all = verify_prompt(id, text, path, root);
    let a = "Verify the finished PlanFile (plan_id = `"@;
    let hint = verify_workspace_hint(root);
    let end = "\n----- END PLAN -----\n"@;
    let tail = text + end;
    assert(all =~= a + id + ARTIFACT_PATHS@ + path + "`\n"@ + hint + VERIFY_SCOPE@ + tail);
    assert(all.subrange(all.len() - tail.len(), all.len() as int) =~= tail);
    crate::search::lemma_text_in_itself(id);
    let b = ARTIFACT_PATHS@ + path + "`\n"@ + hint + VERIFY_SCOPE@ + tail;
    crate::search::lemma_text_within(a, id, b, id);
    assert(all =~= a + id + b);
    crate::search::lemma_text_in_itself(path);
    let c = "`\n"@ + hint + VERIFY_SCOPE@ + tail;
    crate::search::lemma_text_within(a + id + ARTIFACT_PATHS@, path, c, path);
    assert(all =~= (a + id + ARTIFACT_PATHS@) + path + c);
    if let Some(r) = root {
        let h = "         - Project/workspace root (start inspection here first): `"@;
        let g = "`\n- Access note: reads or bash may still require runtime authorization depending on workspace grants.\n"@;
        crate::search::lemma_text_in_itself(r);
        crate::search::lemma_text_within(h, r, g, r);
        let front = a + id + ARTIFACT_PATHS@ + path + "`\n"@;
        crate::search::lemma_text_within(front, hint, VERIFY_SCOPE@ + tail, r);
        assert(all =~= front + hint + (VERIFY_SCOPE@ + tail));
    }
}

/// A run that ends with a summary that can be read hands it on whole, with the turns that it took; any other
/// run is told as failed or broken off, and never as a pass.
pub proof fn law_runs_hand_their_summary_on(
    r: VerifySummary,
    label: SubagentOutcomeLabel,
    origin: Seq<char>,
    child: Seq<char>,
    limit: u32,
    outcome: AgentRunOutcome,
    written: Option<VerifySummary>,
)
    requires
        is_verify_summary_of(r, label, origin, child, limit, outcome, written),
    ensures
        label is Completed <==> outcome is Completed && written is Some && is_readable(written->0),
        label is Completed ==> r.checks@.len() == written->0.checks@.len() && r.verdict@ == ascii_lowered(
            trimmed(written->0.verdict@),
        ) && (forall|i: int|
            0 <= i < r.checks@.len() ==> (#[trigger] r.checks@[i]).name == written->0.checks@[i].name
                && r.checks@[i].command == written->0.checks@[i].command),
        !(label is Completed) ==> r.verdict@ == "aborted"@ && r.checks@.len() == 0,
        r.verifier_turns_limit == limit,
        r.child_session_id@ == child,
        outcome is Interrupted ==> label is Interrupted,
{
    if label is Completed {
        let w = written->0;
        assert forall|i: int| 0 <= i < r.checks@.len() implies (#[trigger] r.checks@[i]).name
            == w.checks@[i].name && r.checks@[i].command == w.checks@[i].command by {
            assert(is_tidy_check(r.checks@[i], w.checks@[i]));
        }
    }
}

/// There is one warning for each check that cannot be believed, and one more if the whole is weakened.
pub proof fn law_gate_warnings_add_up(s: VerifySummary)
    ensures
        is_weakened(s) ==> gate_warnings(s).len() == hollow_warnings(s.checks@).len() + 1,
        !is_weakened(s) ==> gate_warnings(s) == hollow_warnings(s.checks@),
        gate_warnings(s).take(hollow_warnings(s.checks@).len() as int) == hollow_warnings(s.checks@),
{
    let h = hollow_warnings(s.checks@);
    assert(gate_warnings(s).take(h.len() as int) =~= h);
}

/// Four words judge the whole and three judge a check; a summary in these words, in any case, can be read,
/// and one with any other word cannot.
pub proof fn law_words_that_judge(w: Seq<char>, s: VerifySummary, i: int)
    ensures
        is_verdict(w) <==> seq!["pass"@, "fail"@, "partial"@, "aborted"@].contains(w),
        is_check_result(w) <==> seq!["pass"@, "fail"@, "skip"@].contains(w),
        !is_verdict(ascii_lowered(trimmed(s.verdict@))) ==> !is_readable(s),
        0 <= i < s.checks@.len() && !is_check_result(ascii_lowered(trimmed(s.checks@[i].result@)))
            ==> !is_readable(s),
        s.checks@.len() == 0 && is_verdict(ascii_lowered(trimmed(s.verdict@))) ==> is_readable(s),
{
    let a = seq!["pass"@, "fail"@, "partial"@, "aborted"@];
    let b = seq!["pass"@, "fail"@, "skip"@];
    assert(a[0] == "pass"@ && a[1] == "fail"@ && a[2] == "partial"@ && a[3] == "aborted"@);
    assert(b[0] == "pass"@ && b[1] == "fail"@ && b[2] == "skip"@);
    if a.contains(w) {
        let k = choose|k: int| 0 <= k < a.len() && a[k] == w;
        assert(k == 0 || k == 1 || k == 2 || k == 3);
    }
    if b.contains(w) {
        let k = choose|k: int| 0 <= k < b.len() && b[k] == w;
        assert(k == 0 || k == 1 || k == 2);
    }
    if 0 <= i < s.checks@.len() && !is_check_result(ascii_lowered(trimmed(s.checks@[i].result@))) {
        assert(!is_check_result(plain_word(s.checks@[i].result@)));
    }
}

/// A check that speaks of none of the four things, neither in its name nor in its command, is no key check.
pub proof fn law_other_checks_are_no_key_checks(c: VerifyCheck)
    ensures
        is_key_check(c) ==> {
            let told = ascii_lowered(c.name@ + " "@ + c.command@);
            has_text(told, "test"@) || has_text(told, "build"@) || has_text(told, "lint"@) || has_text(
                told,
                "clippy"@,
            )
        },
{
}

} // verus!
