//! The agents that review a plan and verify its outcome.

use serde_yaml::Value;
use tomcat_chat::plan_runtime::agent_run::{
    build_system_text, count_assistant_turns, extract_answer, AgentRunOutcome, AgentRunResult,
    RunMessage, SpawnEnd, SubagentOutcomeLabel,
};
use tomcat_chat::plan_runtime::prod_reviewer::{
    build_summary_from_outcome, review_error, reviewer_allowed_tools, ProdReviewerDeps,
    ProdReviewerDispatcher, ReviewStep,
};
use tomcat_chat::plan_runtime::review::{
    build_review_prompt, parse_finding_line, parse_review_block, split_top_level_commas, Finding,
    ReviewSummary, REVIEWER_ALLOW_REVIEW_EDIT, REVIEWER_SYSTEM_PROMPT,
};
use tomcat_chat::plan_runtime::verify;
use tomcat_chat::plan_runtime::verify::{
    answer_block, build_verify_prompt, find_last_verify_block, normalize_for_gate,
    normalize_summary, verifier_allowed_tools, verify_error, ProdVerifierDeps,
    ProdVerifierDispatcher, VerifyCheck, VerifyStep, VerifySummary, VERIFIER_MAX_TURNS,
    VERIFIER_SYSTEM_PROMPT,
};

// ---------------------------------------------------------------- reviews

#[test]
fn parse_review_block_happy_path() {
    let text = "noise\n<review>\nsummary: ok looks good\nchanges_summary: none\napplied_changes: false\n</review>\ntail";
    let r = parse_review_block(text).unwrap();
    assert!(!r.aborted);
    assert_eq!(r.summary, "ok looks good");
    assert_eq!(r.changes_summary, "none");
    assert!(!r.applied_changes);
    assert_eq!(r.reviewer_stop_reason, "completed");
}

#[test]
fn parse_review_block_picks_last_block() {
    let text = "<review>\nsummary: old\nchanges_summary: none\napplied_changes: false\n</review>\n<review>\nsummary: new\nchanges_summary: applied:fix\napplied_changes: true\n</review>";
    let r = parse_review_block(text).unwrap();
    assert_eq!(r.summary, "new");
    assert_eq!(r.changes_summary, "applied:fix");
    assert!(r.applied_changes);
}

#[test]
fn parse_review_block_missing_required_field_returns_none() {
    let text = "<review>\nsummary: only summary\n</review>";
    assert!(parse_review_block(text).is_none());
    let text = "<review>\nchanges_summary: none\napplied_changes: false\n</review>";
    assert!(parse_review_block(text).is_none());
}

#[test]
fn a_broken_finding_drops_only_itself() {
    let front = "<review>\nsummary: see\nchanges_summary: none\napplied_changes: false\nfindings:\n  - { severity: nit, area: \"a\", note: \"b\" }\n";
    let back = "  - { severity: concern, area: \"c\", note: \"d\" }\n</review>\nend";
    let whole = parse_review_block(&format!("{front}{back}")).expect("a review");
    assert_eq!(whole.findings.len(), 2);
    for line in ["  - { broken", "  - ", "  - section: A"] {
        let broken = parse_review_block(&format!("{front}{line}\n{back}"));
        assert_eq!(broken, Some(whole.clone()), "{line:?}");
    }
}

#[test]
fn parse_review_block_invalid_applied_changes_returns_none() {
    let text = "<review>\nsummary: x\nchanges_summary: none\napplied_changes: maybe\n</review>";
    assert!(parse_review_block(text).is_none());
}

#[test]
fn parse_review_block_unclosed_returns_none() {
    let text = "<review>\nsummary: x\nchanges_summary: none\napplied_changes: false";
    assert!(parse_review_block(text).is_none());
}

#[test]
fn parse_review_block_truncates_summary_to_600() {
    let body = "a".repeat(800);
    let text = format!(
        "<review>\nsummary: {body}\nchanges_summary: none\napplied_changes: false\n</review>"
    );
    let r = parse_review_block(&text).unwrap();
    assert_eq!(r.summary.len(), 600);
}

#[test]
fn long_summaries_are_cut_between_characters() {
    let body = "评".repeat(700);
    let text = format!(
        "<review>\nsummary: {body}\nchanges_summary: none\napplied_changes: TRUE\n</review>"
    );
    let r = parse_review_block(&text).unwrap();
    assert_eq!(r.summary.chars().count(), 600);
    assert!(r.applied_changes);
}

#[test]
fn parse_review_block_with_findings() {
    let text = "<review>\nfindings:\n  - { severity: nit, area: \"style\", note: \"trailing space\" }\n  - { severity: concern, area: \"todos\", note: \"missing acceptance\" }\nsummary: see findings\nchanges_summary: none\napplied_changes: false\n</review>";
    let r = parse_review_block(text).unwrap();
    assert_eq!(r.findings.len(), 2);
    assert_eq!(r.findings[0].severity, "nit");
    assert_eq!(r.findings[1].area, "todos");
    assert_eq!(r.summary, "see findings");
}

#[test]
fn findings_outside_their_list_do_not_count() {
    let text = "<review>\n- { note: early }\nfindings: below\n- { note: kept }\n- broken\nsummary: s\n- { note: late }\nsummary: last\nchanges_summary: none\napplied_changes: false\n</review>";
    let r = parse_review_block(text).unwrap();
    assert_eq!(
        r.findings,
        vec![Finding { severity: "suggestion".into(), area: "".into(), note: "kept".into() }]
    );
    assert_eq!(r.summary, "last");
}

#[test]
fn finding_lines_are_read_with_quotes_and_defaults() {
    assert_eq!(
        parse_finding_line("-- { \"note\": 'a, b: c', area: x y , other: 1 }"),
        Some(Finding { severity: "suggestion".into(), area: "x y".into(), note: "a, b: c".into() })
    );
    assert_eq!(parse_finding_line("- { severity: nit, area: x }"), None);
    assert_eq!(parse_finding_line("- { severity nit, note: x }"), None);
    assert_eq!(parse_finding_line("- severity: nit"), None);
    assert_eq!(
        split_top_level_commas("a,'b,c',\"d,'e\",f"),
        vec!["a", "'b,c'", "\"d,'e\"", "f"]
    );
    assert_eq!(split_top_level_commas("a,'b,c").join(","), "a,'b,c");
}

#[test]
fn reviewer_system_prompt_contains_constraints() {
    let p = REVIEWER_SYSTEM_PROMPT;
    assert!(p.contains("<review>"));
    assert!(p.contains("applied_changes"));
    assert!(p.contains("create_plan") && p.contains("bash"));
    assert!(!p.contains("{{#if"));
    assert!(p.contains("update_plan"));
    assert!(REVIEWER_ALLOW_REVIEW_EDIT);
}

#[test]
fn build_review_prompt_includes_plan_and_workspace_paths() {
    let prompt = build_review_prompt("plan-1", "body", "/tmp/plan-1.plan.md", Some("/repo/root"));
    assert!(prompt.contains("/tmp/plan-1.plan.md"));
    assert!(prompt.contains("/repo/root"));
    assert!(prompt.contains("do not guess"));
    assert!(prompt.starts_with("Review the following PlanFile (plan_id = `plan-1`).\n"));
    assert!(prompt.ends_with("----- BEGIN PLAN -----\nbody\n----- END PLAN -----\n"));
}

#[test]
fn agents_are_not_given_reviews_as_a_tool() {
    for name in reviewer_allowed_tools().iter().chain(verifier_allowed_tools().iter()) {
        assert!(!name.starts_with("review"), "{name}");
    }
}

#[test]
fn aborted_reviews_say_why() {
    let s = ReviewSummary::aborted_with("timeout".into());
    assert!(s.aborted);
    assert_eq!(s.summary, "timeout");
    assert_eq!(s.reviewer_stop_reason, "aborted");
    assert_eq!(review_error(&s), Some("timeout".to_string()));
    let p = ReviewSummary::placeholder_pending("critic");
    assert!(p.aborted);
    assert_eq!(p.summary, "critic 子 Agent 将在 P4 接入；当前阶段返回 aborted 占位");
    assert_eq!(p.reviewer_stop_reason, "not_dispatched");
    assert_eq!(p.changes_summary, "none");
}

#[test]
fn prod_reviewer_stub_returns_aborted_with_origin() {
    let d = ProdReviewerDispatcher::stub("test_origin", "critic");
    match d.dispatch("demo", "noop", "/p", None) {
        ReviewStep::Done(r) => {
            assert!(r.aborted);
            assert!(r.summary.contains("test_origin"));
            assert_eq!(r.summary, "[test_origin] 生产 critic 子 Agent 未注入依赖（stub 模式）");
            assert!(!r.applied_changes);
        }
        other => panic!("unexpected {other:?}"),
    }
}

#[test]
fn reviewers_are_started_with_prompt_tools_and_budget() {
    let gone = ProdReviewerDispatcher::new(
        "o",
        "critic",
        ProdReviewerDeps { runtime_alive: false, max_turns: 3 },
    );
    match gone.dispatch("demo", "text", "/p", None) {
        ReviewStep::Done(r) => assert_eq!(r.summary, "[o] PlanRuntime 已被 drop，critic 取消派发"),
        other => panic!("unexpected {other:?}"),
    }
    let d = ProdReviewerDispatcher::new("o", "critic", ProdReviewerDeps { runtime_alive: true, max_turns: 0 });
    match d.dispatch("demo", "text", "/p", Some("/w")) {
        ReviewStep::Spawn(req) => {
            assert_eq!(req.turns_limit, 1);
            assert_eq!(req.max_attempts, 3);
            assert_eq!(req.retry_base_delay_ms, 300);
            assert_eq!(req.tools, reviewer_allowed_tools());
            assert_eq!(req.system_text, build_system_text(REVIEWER_SYSTEM_PROMPT, 1));
            assert!(req.system_text.ends_with("\n(max_turns budget: 1 reasoning turns)\n"));
            assert_eq!(req.user_text, build_review_prompt("demo", "text", "/p", Some("/w")));
        }
        other => panic!("unexpected {other:?}"),
    }
    let lost = d.dispatch_finished(7, SpawnEnd::NoSummary);
    assert_eq!(lost.summary, "[o] critic 子 Agent 退出但 summary channel 提前关闭");
    let failed = d.dispatch_finished(7, SpawnEnd::Failed("no slot".into()));
    assert_eq!(failed.summary, "[o] critic spawn 失败：no slot");
    assert_eq!(failed.reviewer_stop_reason, "spawn_error");
    assert_eq!(failed.reviewer_turns_limit, 7);
    let kept = ReviewSummary::placeholder_pending("critic");
    assert_eq!(d.dispatch_finished(7, SpawnEnd::Summary(kept.clone())), kept);
}

fn said(text: &str) -> RunMessage {
    RunMessage { assistant: true, text: Some(text.into()) }
}

fn run(final_text: &str, messages: Vec<RunMessage>) -> AgentRunResult {
    AgentRunResult { final_text: final_text.into(), new_messages: messages }
}

const REVIEW: &str =
    "<review>\nsummary: fine\nchanges_summary: none\napplied_changes: false\n</review>";

#[test]
fn answers_are_the_last_words_that_say_something() {
    let tool = RunMessage { assistant: false, text: Some("tool".into()) };
    let silent = RunMessage { assistant: true, text: None };
    let messages = vec![said("first"), said("last"), tool, said("  "), silent];
    assert_eq!(count_assistant_turns(&messages), 4);
    assert_eq!(extract_answer(&run(" ", messages.clone())), "last");
    assert_eq!(extract_answer(&run(" done ", messages)), " done ");
    assert_eq!(extract_answer(&run("", vec![])), "");
}

#[test]
fn a_review_run_is_summed_up() {
    let (s, label) = build_summary_from_outcome(
        "o",
        "critic",
        "child",
        3,
        AgentRunOutcome::Completed(run("", vec![said("thinking"), said(REVIEW)])),
    );
    assert_eq!(label, SubagentOutcomeLabel::Completed);
    assert!(!s.aborted);
    assert_eq!(s.summary, "fine");
    assert_eq!((s.reviewer_turns_used, s.reviewer_turns_limit), (2, 3));
    assert_eq!(s.reviewer_stop_reason, "completed");
    assert_eq!(s.child_session_id, "child");
    assert_eq!(review_error(&s), None);

    let (s, _) = build_summary_from_outcome(
        "o",
        "critic",
        "child",
        1,
        AgentRunOutcome::Completed(run(REVIEW, vec![said("x")])),
    );
    assert_eq!(s.reviewer_stop_reason, "max_turns");

    let (s, label) = build_summary_from_outcome(
        "o",
        "critic",
        "child",
        3,
        AgentRunOutcome::Completed(run("no block", vec![said("x")])),
    );
    assert_eq!(label, SubagentOutcomeLabel::Failed);
    assert!(s.aborted);
    assert_eq!(s.summary, "[o] critic 输出不符合 <review> 契约（child=child）");
    assert_eq!(s.reviewer_stop_reason, "parse_error");
    assert_eq!(s.reviewer_turns_used, 1);

    let (s, label) = build_summary_from_outcome(
        "o",
        "critic",
        "child",
        3,
        AgentRunOutcome::Interrupted(run(REVIEW, vec![said("x")])),
    );
    assert_eq!(label, SubagentOutcomeLabel::Interrupted);
    assert_eq!(s.summary, "[o] critic 被父 abort / cancel（child=child）");
    assert_eq!(s.reviewer_stop_reason, "parent_abort");

    let (s, label) =
        build_summary_from_outcome("o", "critic", "child", 3, AgentRunOutcome::Failed("boom".into()));
    assert_eq!(label, SubagentOutcomeLabel::Failed);
    assert_eq!(s.summary, "[o] critic 子 Agent 失败：boom");
    assert_eq!(s.reviewer_stop_reason, "spawn_error");
    assert_eq!(s.child_session_id, "child");
}

// ---------------------------------------------------------------- verifications

fn text_field(v: &Value, key: &str) -> Option<String> {
    v.get(key).and_then(|x| x.as_str()).map(|s| s.to_string())
}

fn read_check(v: &Value) -> Option<VerifyCheck> {
    Some(VerifyCheck {
        name: text_field(v, "name")?,
        command: text_field(v, "command").unwrap_or_default(),
        result: text_field(v, "result")?,
        output_excerpt: text_field(v, "output_excerpt").unwrap_or_default(),
    })
}

fn parse_verify_block(text: &str) -> Option<VerifySummary> {
    let block = find_last_verify_block(text)?;
    let v: Value = serde_yaml::from_str(&block).ok()?;
    let mut checks = Vec::new();
    if let Some(list) = v.get("checks").and_then(|c| c.as_sequence()) {
        for c in list {
            checks.push(read_check(c)?);
        }
    }
    normalize_summary(VerifySummary {
        checks,
        verdict: text_field(&v, "verdict")?,
        summary: text_field(&v, "summary")?,
        verifier_turns_used: 0,
        verifier_turns_limit: 0,
        verifier_stop_reason: String::new(),
        child_session_id: String::new(),
    })
}

#[test]
fn parse_verify_block_happy_path() {
    let text = r#"
noise
<verify>
checks:
  - name: unit
    command: cargo test -p tomcat verify
    result: pass
    output_excerpt: ok
"verdict": pass
summary: all good
</verify>
"#;
    let summary = parse_verify_block(text).unwrap();
    assert_eq!(summary.verdict, "pass");
    assert_eq!(summary.summary, "all good");
    assert_eq!(summary.checks.len(), 1);
    assert_eq!(summary.checks[0].result, "pass");
}

#[test]
fn parse_verify_block_picks_last_block() {
    let text = r#"
<verify>
checks: []
"verdict": partial
summary: old
</verify>
<verify>
checks: []
"verdict": fail
summary: new
</verify>
"#;
    let summary = parse_verify_block(text).unwrap();
    assert_eq!(summary.verdict, "fail");
    assert_eq!(summary.summary, "new");
}

#[test]
fn parse_verify_block_rejects_unknown_verdict() {
    let text = r#"
<verify>
checks: []
"verdict": maybe
summary: nope
</verify>
"#;
    assert!(parse_verify_block(text).is_none());
}

fn check(name: &str, command: &str, result: &str) -> VerifyCheck {
    VerifyCheck {
        name: name.into(),
        command: command.into(),
        result: result.into(),
        output_excerpt: "ok".into(),
    }
}

fn verified(verdict: &str, checks: Vec<VerifyCheck>) -> VerifySummary {
    VerifySummary {
        checks,
        verdict: verdict.into(),
        summary: "s".into(),
        verifier_turns_used: 0,
        verifier_turns_limit: 64,
        verifier_stop_reason: String::new(),
        child_session_id: String::new(),
    }
}

#[test]
fn verdicts_and_results_are_tidied() {
    let mut s = verified(" PASS ", vec![check("a", "c", " Skip\n")]);
    s.summary = "é".repeat(601);
    s.checks[0].output_excerpt = "x".repeat(501);
    let t = normalize_summary(s).unwrap();
    assert_eq!(t.verdict, "pass");
    assert_eq!(t.checks[0].result, "skip");
    assert_eq!(t.summary.chars().count(), 600);
    assert_eq!(t.checks[0].output_excerpt.len(), 500);
    assert!(normalize_summary(verified("pass", vec![check("a", "c", "ok")])).is_none());
}

#[test]
fn the_gate_does_not_take_empty_claims() {
    let mut s = verified("pass", vec![check("Unit TESTS", " ", "pass"), check("read", "x", "pass")]);
    let warnings = normalize_for_gate(&mut s);
    assert_eq!(s.checks[0].result, "skip");
    assert_eq!(s.checks[1].result, "pass");
    assert_eq!(s.verdict, "partial");
    assert_eq!(
        warnings,
        vec![
            "check `Unit TESTS` 声称 pass 但 command 为空，已降级为 skip",
            "关键 build/test/lint 检查均未实际跑通，verdict 已降级为 partial",
        ]
    );
    let mut again = s.clone();
    let second = normalize_for_gate(&mut again);
    assert_eq!(again, s);
    assert_eq!(second.len(), 1);

    let mut failed = verified("fail", vec![check("build", "make", "skip")]);
    assert!(normalize_for_gate(&mut failed).is_empty());
    assert_eq!(failed.verdict, "fail");
    let mut ran = verified("pass", vec![check("x", "cargo CLIPPY", "pass")]);
    assert!(normalize_for_gate(&mut ran).is_empty());
    assert_eq!(ran.verdict, "pass");
}

#[test]
fn verifier_system_prompt_contains_contract() {
    let prompt = VERIFIER_SYSTEM_PROMPT;
    assert!(prompt.contains("<verify>"));
    assert!(prompt.contains("pass|fail|partial|aborted"));
    assert!(prompt.contains("read, search_files, list_dir, bash"));
    assert!(prompt.contains("Do not guess default repo-wide commands"));
}

#[test]
fn agents_are_not_given_verifications_as_a_tool() {
    for name in verifier_allowed_tools().iter().chain(reviewer_allowed_tools().iter()) {
        assert_ne!(name, "verifier");
        assert_ne!(name, "verify");
    }
}

#[test]
fn verifier_max_turns_default_is_64() {
    assert_eq!(VERIFIER_MAX_TURNS, 64);
}

#[test]
fn verifiers_are_started_with_prompt_tools_and_budget() {
    match ProdVerifierDispatcher::stub("o").dispatch("demo", "text", "/p") {
        VerifyStep::Done(s) => {
            assert_eq!(s.verdict, "aborted");
            assert_eq!(s.summary, "[o] 生产 verifier 子 Agent 未注入依赖（stub 模式）");
        }
        other => panic!("unexpected {other:?}"),
    }
    let gone = ProdVerifierDispatcher::new(
        "o",
        ProdVerifierDeps { runtime_alive: false, agent_workspace_dir: "/w".into() },
    );
    match gone.dispatch("demo", "text", "/p") {
        VerifyStep::Done(s) => assert_eq!(s.summary, "[o] PlanRuntime 已被 drop，verifier 取消派发"),
        other => panic!("unexpected {other:?}"),
    }
    let d = ProdVerifierDispatcher::new(
        "o",
        ProdVerifierDeps { runtime_alive: true, agent_workspace_dir: "/w".into() },
    );
    match d.dispatch("demo", "text", "/p") {
        VerifyStep::Spawn(req) => {
            assert_eq!(req.turns_limit, 64);
            assert_eq!(req.tools, verifier_allowed_tools());
            assert_eq!(req.system_text, build_system_text(VERIFIER_SYSTEM_PROMPT, 64));
            assert_eq!(req.user_text, build_verify_prompt("demo", "text", "/p", Some("/w")));
            assert!(req.user_text.contains("`/w`"));
        }
        other => panic!("unexpected {other:?}"),
    }
    assert_eq!(
        d.dispatch_finished(SpawnEnd::NoSummary).summary,
        "[o] verifier 子 Agent 退出但 summary channel 提前关闭"
    );
    let failed = d.dispatch_finished(SpawnEnd::Failed("no slot".into()));
    assert_eq!(failed.summary, "[o] verifier spawn 失败：no slot");
    assert_eq!(failed.verifier_stop_reason, "spawn_error");
    assert_eq!(failed.verifier_turns_limit, 64);
}

#[test]
fn a_verification_run_is_summed_up() {
    let result = run("<verify>\nok\n</verify>", vec![said("x")]);
    assert_eq!(answer_block(&result), Some("\nok\n".to_string()));
    let (s, label) = verify::build_summary_from_outcome(
        "o",
        "child",
        64,
        AgentRunOutcome::Completed(result.clone()),
        Some(verified("Pass", vec![])),
    );
    assert_eq!(label, SubagentOutcomeLabel::Completed);
    assert_eq!(s.verdict, "pass");
    assert_eq!(s.verifier_stop_reason, "completed");
    assert_eq!((s.verifier_turns_used, s.verifier_turns_limit), (1, 64));
    assert_eq!(s.child_session_id, "child");
    assert_eq!(verify_error(&s), None);

    let (s, label) = verify::build_summary_from_outcome(
        "o",
        "child",
        64,
        AgentRunOutcome::Completed(result),
        None,
    );
    assert_eq!(label, SubagentOutcomeLabel::Failed);
    assert_eq!(s.summary, "[o] verifier 输出不符合 <verify> 契约（child=child）");
    assert_eq!(s.verifier_stop_reason, "parse_error");
    assert_eq!(verify_error(&s), Some(s.summary.clone()));

    let (s, label) = verify::build_summary_from_outcome(
        "o",
        "child",
        64,
        AgentRunOutcome::Failed("boom".into()),
        None,
    );
    assert_eq!(label, SubagentOutcomeLabel::Failed);
    assert_eq!(s.summary, "[o] verifier 子 Agent 失败：boom");
    let p = VerifySummary::placeholder_pending();
    assert_eq!(p.verdict, "aborted");
    assert_eq!(p.verifier_stop_reason, "not_dispatched");
}
