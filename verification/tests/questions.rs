//! Asking the user, and reading what comes back.

use tomcat_chat::panels::ask_question_wire::take_response;
use tomcat_chat::panels::cli_ask_question_panel::{
    auto_pick_answer_for_test, auto_pick_line, board_lines, custom_answer, CliAction, CliDialogue,
    ASK_QUESTION_TEST_AUTO_PICK_ENV,
};
use tomcat_chat::panels::ide_ask_question_panel::IdeAskQuestionPanel;
use tomcat_chat::panels::{
    ask_question_request_event_name, ask_question_response_event_name, AskQuestionWireRequest,
    AskQuestionWireResponse, EventBusAskQuestionPanel,
};
use tomcat_chat::plan_runtime::ask_question_panel::{
    cancelled_result, Answer, AskQuestionResult, MockAskQuestionPanel, Question, QuestionOption,
    CUSTOM_OPTION_ID,
};
use tomcat_chat::plan_runtime::tools::ask_question::{
    conclude, execute_with_timeout, parse_and_validate_questions, resolve_timeout_ms,
    validate_answers, validate_single_question,
};
use tomcat_chat::plan_runtime::tools::ToolError;
use tomcat_chat::plan_runtime::PlanMode;

fn option(id: &str, label: &str, recommended: bool) -> QuestionOption {
    QuestionOption { id: id.into(), label: label.into(), recommended }
}

fn question(id: &str, prompt: &str, options: Vec<QuestionOption>) -> Question {
    Question { id: id.into(), prompt: prompt.into(), allow_multiple: false, options }
}

fn answer(question_id: &str, option_ids: &[&str], custom_text: Option<&str>, rec: bool) -> Answer {
    Answer {
        question_id: question_id.into(),
        option_ids: option_ids.iter().map(|s| s.to_string()).collect(),
        custom_text: custom_text.map(|s| s.to_string()),
        skipped: false,
        picked_recommended: rec,
    }
}

fn answered(answers: Vec<Answer>) -> AskQuestionResult {
    AskQuestionResult { answers, cancelled: false }
}

fn good_questions() -> Vec<Question> {
    vec![question("q1", "选一个", vec![option("a", "A", true), option("b", "B", false)])]
}

fn planning(given: Vec<Question>) -> Result<Vec<Question>, ToolError> {
    execute_with_timeout(&PlanMode::Planning, Some(given), None, None).map(|i| i.questions)
}

fn is_bad(r: Result<Vec<Question>, ToolError>) -> bool {
    matches!(r, Err(ToolError::BadArgs(_)))
}

// ---------------------------------------------------------------- the queued panel

#[test]
fn mock_panel_returns_queued_answer() {
    let mut panel = MockAskQuestionPanel::new(vec![answered(vec![answer("q1", &["a"], None, true)])]);
    let out = panel.ask(false, false);
    assert!(!out.cancelled);
    assert_eq!(out.answers[0].option_ids[0], "a");
    assert!(out.answers[0].picked_recommended);
    assert_eq!(panel.remaining(), 0);
}

#[test]
fn mock_panel_returns_cancelled_when_signal_set() {
    let mut panel = MockAskQuestionPanel::new(vec![answered(vec![])]);
    let out = panel.ask(true, false);
    assert!(out.cancelled);
    assert!(out.answers.is_empty());
    assert_eq!(panel.remaining(), 1, "未消费队列");
}

#[test]
fn mock_panel_honors_cancel_mid_wait() {
    let mut panel = MockAskQuestionPanel::new(vec![answered(vec![])]).with_delay(5_000);
    let out = panel.ask(false, true);
    assert!(out.cancelled);
    let mut deaf = MockAskQuestionPanel::new(vec![answered(vec![])])
        .with_delay(5_000)
        .ignore_cancel();
    assert!(!deaf.ask(false, true).cancelled);
    assert_eq!(deaf.remaining(), 0);
}

#[test]
fn an_empty_queue_answers_cancelled() {
    let mut panel = MockAskQuestionPanel::new(vec![]);
    assert!(panel.ask(false, false).cancelled);
}

// ---------------------------------------------------------------- the tool

#[test]
fn ask_question_visible_in_chat() {
    let inquiry = execute_with_timeout(&PlanMode::Chat, Some(good_questions()), None, None)
        .expect("CHAT 模式应允许 ask_question");
    let mut panel = MockAskQuestionPanel::new(vec![answered(vec![answer("q1", &["a"], None, true)])]);
    let out = conclude(&inquiry.questions, Some(panel.ask(false, false))).unwrap();
    assert!(!out.cancelled);
}

#[test]
fn ask_question_invisible_in_exec_returns_tool_error() {
    let err = execute_with_timeout(
        &PlanMode::Executing { plan_id: "plan_x".into() },
        Some(good_questions()),
        None,
        None,
    )
    .unwrap_err();
    match err {
        ToolError::InvisibleInMode { tool, mode } => {
            assert_eq!(tool, "ask_question");
            assert_eq!(mode, "executing");
        }
        other => panic!("expected InvisibleInMode, got {other:?}"),
    }
}

#[test]
fn ask_question_schema_bounds_questions_count() {
    assert!(is_bad(planning(vec![])));
    let many: Vec<Question> = (0..5)
        .map(|i| {
            question(&format!("q{i}"), "x", vec![option("a", "A", true), option("b", "B", false)])
        })
        .collect();
    assert!(is_bad(planning(many)));
}

#[test]
fn ask_question_schema_bounds_options_count() {
    assert!(is_bad(planning(vec![question("q1", "x", vec![option("a", "A", true)])])));
    assert!(is_bad(planning(vec![question(
        "q1",
        "x",
        vec![
            option("a", "A", true),
            option("b", "B", false),
            option("c", "C", false),
            option("d", "D", false),
            option("e", "E", false),
        ],
    )])));
}

#[test]
fn ask_question_requires_exactly_one_recommended() {
    assert!(is_bad(planning(vec![question(
        "q1",
        "x",
        vec![option("a", "A", false), option("b", "B", false)],
    )])));
    assert!(is_bad(planning(vec![question(
        "q1",
        "x",
        vec![option("a", "A", true), option("b", "B", true)],
    )])));
}

#[test]
fn ask_question_rejects_reserved_custom_id() {
    assert!(is_bad(planning(vec![question(
        "q1",
        "x",
        vec![option("__custom__", "X", true), option("b", "B", false)],
    )])));
}

#[test]
fn ask_question_duplicate_question_id_rejected() {
    let two = || vec![option("a", "A", true), option("b", "B", false)];
    assert!(is_bad(planning(vec![question("q1", "x", two()), question("q1", "y", two())])));
}

#[test]
fn questions_are_refused_with_the_first_fault() {
    let words = |r: Result<(), ToolError>| match r {
        Err(ToolError::BadArgs(m)) => m,
        other => panic!("unexpected {other:?}"),
    };
    let two = || vec![option("a", "A", true), option("b", "B", false)];
    assert_eq!(words(validate_single_question(&question("q", " ", two()))), "question q: prompt 不可为空");
    assert_eq!(
        words(validate_single_question(&question("q", "p", vec![option("a", "A", true)]))),
        "question q: options 必须 2-4 个，当前 1"
    );
    assert_eq!(
        words(validate_single_question(&question(
            "q",
            "p",
            vec![option(CUSTOM_OPTION_ID, "A", true), option("b", "B", false)],
        ))),
        "question q: option.id 不得使用保留值 \"__custom__\""
    );
    assert_eq!(
        words(validate_single_question(&question(
            "q",
            "p",
            vec![option("a", "A", true), option("a", "B", false)],
        ))),
        "question q: option.id 重复 \"a\""
    );
    assert_eq!(
        words(validate_single_question(&question(
            "q",
            "p",
            vec![option("a", " ", true), option("b", "B", false)],
        ))),
        "question q: option a label 不可为空"
    );
    assert_eq!(
        words(validate_single_question(&question(
            "q",
            "p",
            vec![option("a", "A", true), option("b", "B", true)],
        ))),
        "question q: 必须**恰好**一个 recommended=true 选项（当前 2）"
    );
    assert_eq!(
        parse_and_validate_questions(None),
        Err(ToolError::BadArgs("ask_question 缺少 questions 字段".into()))
    );
    assert_eq!(
        parse_and_validate_questions(Some(vec![])),
        Err(ToolError::BadArgs("questions 至少 1 题".into()))
    );
    let five: Vec<Question> = (0..5).map(|_| question("q", "p", two())).collect();
    assert_eq!(
        parse_and_validate_questions(Some(five)),
        Err(ToolError::BadArgs("questions 最多 4 题，当前 5".into()))
    );
    assert_eq!(
        parse_and_validate_questions(Some(vec![question("q", "p", two()), question("q", "p", two())])),
        Err(ToolError::BadArgs("question.id 重复: q".into()))
    );
}

#[test]
fn ask_question_handles_user_abort_returns_cancelled_not_err() {
    let aborted = AskQuestionResult { answers: vec![], cancelled: true };
    let out = conclude(&good_questions(), Some(aborted)).unwrap();
    assert!(out.cancelled);
    assert!(out.answers.is_empty());
}

#[test]
fn ask_question_first_ctrl_c_returns_cancelled_via_signal() {
    let mut panel = MockAskQuestionPanel::new(vec![answered(vec![])]).with_delay(2_000);
    let out = conclude(&good_questions(), Some(panel.ask(false, true))).unwrap();
    assert!(out.cancelled);
}

#[test]
fn ask_question_custom_text_required_when_custom_selected() {
    let err = conclude(
        &good_questions(),
        Some(answered(vec![answer("q1", &["__custom__"], None, false)])),
    )
    .unwrap_err();
    assert!(matches!(err, ToolError::Internal(_)));
}

#[test]
fn ask_question_custom_text_forbidden_otherwise() {
    let err = conclude(
        &good_questions(),
        Some(answered(vec![answer("q1", &["a"], Some("不该出现"), true)])),
    )
    .unwrap_err();
    assert!(matches!(err, ToolError::Internal(_)));
}

#[test]
fn ask_question_result_carries_picked_recommended_flag() {
    let out = conclude(
        &good_questions(),
        Some(answered(vec![answer("q1", &["b"], None, false)])),
    )
    .unwrap();
    assert!(!out.answers[0].picked_recommended);
    assert_eq!(out.answers[0].option_ids[0], "b");
}

#[test]
fn ask_question_ui_appends_custom_slot_via_panel_round_trip() {
    let out = conclude(
        &good_questions(),
        Some(answered(vec![answer("q1", &["__custom__"], Some("free text answer"), false)])),
    )
    .unwrap();
    assert_eq!(out.answers[0].option_ids[0], "__custom__");
    assert_eq!(out.answers[0].custom_text.as_deref(), Some("free text answer"));
}

#[test]
fn ask_question_timeout_returns_cancelled() {
    let inquiry =
        execute_with_timeout(&PlanMode::Planning, Some(good_questions()), None, Some(40)).unwrap();
    assert_eq!(inquiry.timeout_ms, Some(40));
    let out = conclude(&inquiry.questions, None).unwrap();
    assert!(out.cancelled);
    assert!(out.answers.is_empty());
}

#[test]
fn ask_question_env_overrides_config_timeout() {
    let inquiry = execute_with_timeout(
        &PlanMode::Planning,
        Some(good_questions()),
        Some("40"),
        Some(60_000),
    )
    .unwrap();
    assert_eq!(inquiry.timeout_ms, Some(40));
}

#[test]
fn ask_question_zero_timeout_means_no_timeout() {
    let inquiry =
        execute_with_timeout(&PlanMode::Planning, Some(good_questions()), None, Some(0)).unwrap();
    assert_eq!(inquiry.timeout_ms, None);
    let out = conclude(
        &inquiry.questions,
        Some(answered(vec![answer("q1", &["a"], None, true)])),
    )
    .unwrap();
    assert!(!out.cancelled);
}

#[test]
fn timeouts_come_from_the_first_source_that_reads() {
    assert_eq!(resolve_timeout_ms(None, None), Some(300_000));
    assert_eq!(resolve_timeout_ms(Some(" 7 "), Some(9)), Some(7));
    assert_eq!(resolve_timeout_ms(Some("0"), Some(9)), None);
    assert_eq!(resolve_timeout_ms(Some("soon"), Some(9)), Some(9));
}

#[test]
fn answers_are_refused_with_the_first_fault() {
    let words = |answers: Vec<Answer>| match validate_answers(&good_questions(), &answered(answers)) {
        Err(ToolError::Internal(m)) => m,
        other => panic!("unexpected {other:?}"),
    };
    assert_eq!(words(vec![]), "panel 返回答案数 0 与问题数 1 不一致");
    assert_eq!(
        words(vec![answer("q2", &["a"], None, true)]),
        "panel 返回 question_id=q2 与问题 q1 不匹配"
    );
    assert_eq!(words(vec![answer("q1", &[], None, true)]), "question q1: 至少选择 1 个选项");
    assert_eq!(
        words(vec![answer("q1", &["a", "b"], None, true)]),
        "question q1: 单选题应只选 1 个，实际 2"
    );
    assert_eq!(
        words(vec![answer("q1", &["__custom__"], Some(""), false)]),
        "question q1: 选中 __custom__ 时 custom_text 必须 1-500 字符（当前 0）"
    );
    assert_eq!(
        words(vec![answer("q1", &["__custom__"], Some(&"é".repeat(501)), false)]),
        "question q1: 选中 __custom__ 时 custom_text 必须 1-500 字符（当前 501）"
    );
    assert_eq!(
        words(vec![answer("q1", &["a"], Some("x"), false)]),
        "question q1: 未选 __custom__ 时不应携带 custom_text"
    );
    assert_eq!(
        words(vec![answer("q1", &["z"], None, false)]),
        "question q1: 答案中含未知 option_id=z"
    );
}

// ---------------------------------------------------------------- over the wire

fn color() -> Question {
    question("color", "pick a color", vec![option("red", "Red", true), option("blue", "Blue", false)])
}

#[test]
fn event_bus_panel_round_trips_via_mock_host() {
    let mut panel = EventBusAskQuestionPanel::new().with_request_id_prefix("wiretest".into());
    let req: AskQuestionWireRequest = panel.request(vec![color()], false).expect("request");
    let response = AskQuestionWireResponse {
        request_id: req.request_id.clone(),
        result: answered(vec![answer("color", &["red"], None, true)]),
    };
    let result = take_response(&req.request_id, Some(response));
    assert!(!result.cancelled);
    assert_eq!(result.answers.len(), 1);
    assert_eq!(result.answers[0].question_id, "color");
    assert_eq!(result.answers[0].option_ids, vec!["red"]);
    assert!(result.answers[0].picked_recommended);

    assert_eq!(req.questions.len(), 1);
    assert_eq!(req.questions[0].id, "color");
    assert_eq!(req.questions[0].options.len(), 2);
    assert_eq!(req.response_event, ask_question_response_event_name(&req.request_id));
    assert_eq!(req.request_id, "wiretest-0");
    assert_eq!(req.response_event, "plan.ask_question.response.wiretest-0");
    assert_eq!(ask_question_request_event_name(), "plan.ask_question");
}

#[test]
fn event_bus_panel_returns_cancelled_when_wait_is_aborted() {
    let mut panel = EventBusAskQuestionPanel::new();
    let req = panel.request(vec![color()], false).expect("request");
    let result = take_response(&req.request_id, None);
    assert!(result.cancelled);
    assert!(result.answers.is_empty());
    assert_eq!(panel.request(vec![color()], true), None);
    assert_eq!(panel.next_request_id(), "askq-1");
}

#[test]
fn responses_to_other_requests_cancel() {
    let stray = AskQuestionWireResponse {
        request_id: "askq-9".into(),
        result: answered(vec![answer("color", &["red"], None, true)]),
    };
    assert_eq!(take_response("askq-0", Some(stray)), cancelled_result());
    let panel = EventBusAskQuestionPanel::new().with_session_id("sid".into());
    assert_eq!(panel.session_id, Some("sid".to_string()));
    assert_eq!(panel.request_id_prefix, "askq");
}

// ---------------------------------------------------------------- on the terminal

fn deploy() -> Question {
    question(
        "deploy_target",
        "选择发布目标",
        vec![option("staging", "Staging", true), option("prod", "Production", false)],
    )
}

#[test]
fn cli_panel_auto_picks_recommended_answer_when_test_env_enabled() {
    assert_eq!(ASK_QUESTION_TEST_AUTO_PICK_ENV, "TOMCAT_ASK_QUESTION_TEST_AUTO_PICK");
    let mut d = CliDialogue::start(vec![deploy()]);
    match d.proceed(false, Some("recommended")) {
        CliAction::Say(line) => assert_eq!(
            line,
            "[ask_question:auto-pick] qid=deploy_target strategy=recommended picks=staging"
        ),
        other => panic!("unexpected {other:?}"),
    }
    let result = match d.proceed(false, Some("recommended")) {
        CliAction::Finish(r) => r,
        other => panic!("unexpected {other:?}"),
    };
    assert!(!result.cancelled, "auto-pick 不应走 cancelled");
    assert_eq!(result.answers.len(), 1, "应返回 1 个回答");
    assert_eq!(result.answers[0].question_id, "deploy_target");
    assert_eq!(result.answers[0].option_ids, vec!["staging"]);
    assert!(
        result.answers[0].picked_recommended,
        "auto-pick 应命中 recommended 选项"
    );
    assert!(!result.answers[0].skipped);
    assert_eq!(result.answers[0].custom_text, None);
}

#[test]
fn cli_panel_returns_cancelled_immediately_when_signal_already_set() {
    let mut d = CliDialogue::start(vec![deploy()]);
    let result = match d.proceed(true, None) {
        CliAction::Finish(r) => r,
        other => panic!("unexpected {other:?}"),
    };
    assert!(result.cancelled, "cancel_signal 已置位时应立即取消");
    assert!(
        result.answers.is_empty(),
        "取消路径不应返回半截 answers，避免 CLI 交互残留脏数据"
    );
}

#[test]
fn the_board_of_a_question_lists_its_options() {
    assert_eq!(
        board_lines(&deploy()),
        vec![
            "\n选择发布目标",
            "  1. Staging — 推荐",
            "  2. Production",
            "  c. 自定义…",
            "  q. 取消",
        ]
    );
}

#[test]
fn typed_numbers_pick_options() {
    let mut many = deploy();
    many.allow_multiple = true;
    let mut d = CliDialogue::start(vec![many, deploy()]);
    match d.proceed(false, None) {
        CliAction::Ask { lines, prompt } => {
            assert_eq!(lines.len(), 5);
            assert_eq!(prompt, "多选(逗号分隔)/c/q > ");
        }
        other => panic!("unexpected {other:?}"),
    }
    d.take_line(Some(" 2, 9, x, 1\n"), false);
    match d.proceed(false, None) {
        CliAction::Ask { prompt, .. } => assert_eq!(prompt, "单选/c/q > "),
        other => panic!("unexpected {other:?}"),
    }
    d.take_line(Some("2,1"), false);
    let result = match d.proceed(false, None) {
        CliAction::Finish(r) => r,
        other => panic!("unexpected {other:?}"),
    };
    assert!(!result.cancelled);
    assert_eq!(result.answers[0].option_ids, vec!["prod", "staging"]);
    assert!(result.answers[0].picked_recommended);
    assert_eq!(result.answers[1].option_ids, vec!["prod"]);
    assert!(!result.answers[1].picked_recommended);
}

#[test]
fn own_words_are_taken_and_q_cancels() {
    let mut d = CliDialogue::start(vec![deploy()]);
    assert!(matches!(d.proceed(false, None), CliAction::Ask { .. }));
    match d.take_line(Some("C"), false) {
        CliAction::AskCustom { prompt } => assert_eq!(prompt, "自定义内容（1-500 字符）> "),
        other => panic!("unexpected {other:?}"),
    }
    d.take_custom(Some("  my way \n"));
    match d.proceed(false, None) {
        CliAction::Finish(r) => {
            assert_eq!(r.answers, vec![answer("deploy_target", &["__custom__"], Some("my way"), false)]);
        }
        other => panic!("unexpected {other:?}"),
    }
    let mut d = CliDialogue::start(vec![deploy()]);
    assert!(matches!(d.proceed(false, None), CliAction::Ask { .. }));
    assert_eq!(d.take_line(Some("Q"), false), CliAction::Finish(cancelled_result()));
    let mut d = CliDialogue::start(vec![deploy()]);
    assert!(matches!(d.proceed(false, None), CliAction::Ask { .. }));
    assert_eq!(d.take_line(None, false), CliAction::Finish(cancelled_result()));
    let mut d = CliDialogue::start(vec![deploy()]);
    assert!(matches!(d.proceed(false, None), CliAction::Ask { .. }));
    assert_eq!(d.take_line(Some("nine"), false), CliAction::Say("(无效输入，请重试)".into()));
    assert_eq!(custom_answer(&deploy(), ""), None);
    assert_eq!(custom_answer(&deploy(), &"x".repeat(501)), None);
    assert!(custom_answer(&deploy(), &"x".repeat(500)).is_some());
}

#[test]
fn own_words_are_counted_in_characters() {
    for n in [200, 500] {
        let words = "测".repeat(n);
        let a = custom_answer(&deploy(), &words).expect("an answer");
        assert_eq!(a.custom_text.as_deref(), Some(words.as_str()));
        let given = answered(vec![answer("q1", &["__custom__"], Some(&words), false)]);
        assert_eq!(validate_answers(&good_questions(), &given), Ok(()));
    }
    assert_eq!(custom_answer(&deploy(), &"测".repeat(501)), None);
}

#[test]
fn a_question_is_put_again_until_it_is_answered() {
    let mut d = CliDialogue::start(vec![deploy(), deploy()]);
    for line in ["", "nine", "0", "9"] {
        assert_eq!(d.take_line(Some(line), false), CliAction::Say("(无效输入，请重试)".into()));
        assert_eq!((d.at, d.answers.len()), (0, 0));
        match d.proceed(false, None) {
            CliAction::Ask { lines, .. } => assert_eq!(lines, board_lines(&deploy())),
            other => panic!("unexpected {other:?}"),
        }
    }
    assert!(matches!(d.take_line(Some("c"), false), CliAction::AskCustom { .. }));
    let too_long = "x".repeat(501);
    for words in ["  ", too_long.as_str()] {
        assert!(matches!(d.take_custom(Some(words)), CliAction::Say(_)));
        assert_eq!((d.at, d.answers.len()), (0, 0));
    }
    assert_eq!(d.take_line(Some("1"), false), CliAction::Next);
    assert_eq!(d.take_line(Some("2"), false), CliAction::Next);
    match d.proceed(false, None) {
        CliAction::Finish(r) => assert_eq!(r.answers.len(), 2),
        other => panic!("unexpected {other:?}"),
    }
}

#[test]
fn automatic_picks_need_the_right_word() {
    let q = deploy();
    assert_eq!(auto_pick_answer_for_test(&q, None), None);
    assert_eq!(auto_pick_answer_for_test(&q, Some("first")), None);
    let a = auto_pick_answer_for_test(&q, Some("RECOMMENDED")).expect("a pick");
    assert_eq!(a, answer("deploy_target", &["staging"], None, true));
    assert_eq!(
        auto_pick_line(&q, &a),
        "[ask_question:auto-pick] qid=deploy_target strategy=recommended picks=staging"
    );
    let plain = question("q", "p", vec![option("x", "X", false), option("y", "Y", false)]);
    assert_eq!(
        auto_pick_answer_for_test(&plain, Some("recommended")),
        Some(answer("q", &["x"], None, false))
    );
}

#[test]
fn the_editor_panel_cancels() {
    assert_eq!(IdeAskQuestionPanel.ask(&good_questions()), cancelled_result());
}
