//! The tool `ask_question`: asks the user before a plan is made.

use vstd::prelude::*;
use vstd::string::*;

use crate::numerals::{decimal_usize, parse_u64};
#[allow(unused_imports)]
use crate::numerals::{decimal, parsed};
use crate::plan_runtime::ask_question_panel::{
    cancelled_result, Answer, AskQuestionResult, Question, CUSTOM_OPTION_ID,
};
use crate::plan_runtime::mode::PlanMode;
#[allow(unused_imports)]
use crate::plan_runtime::mode::mode_word;
#[allow(unused_imports)]
use crate::plan_runtime::tools::Fault;
use crate::plan_runtime::tools::ToolError;
use crate::text::{cat, cat3, cat4, cat5, chars_of, same, trim};
#[allow(unused_imports)]
use crate::text::{opt_str, texts, trimmed};

verus! {

/// How long the user is waited for if nothing else is set, in milliseconds.
pub const DEFAULT_TIMEOUT_MS: u64 = 300_000;

/// No wait if the number is zero.
pub open spec fn unless_zero(n: nat) -> Option<nat> {
    if n == 0 {
        None
    } else {
        Some(n)
    }
}

/// How long the user is waited for: as the environment says, if that is a number, else as the
/// configuration says, else five minutes; zero means for ever.
pub open spec fn timeout(env: Option<Seq<char>>, config: Option<u64>) -> Option<nat> {
    let configured = unless_zero(
        match config {
            Some(n) => n as nat,
            None => DEFAULT_TIMEOUT_MS as nat,
        },
    );
    match env {
        Some(s) => match parsed(trimmed(s), u64::MAX as nat) {
            Some(n) => unless_zero(n),
            None => configured,
        },
        None => configured,
    }
}

/// How long the user is waited for; for ever if there is no number.
pub fn resolve_timeout_ms(env: Option<&str>, config_timeout_ms: Option<u64>) -> (r: Option<u64>)
    ensures
        match r {
            Some(n) => timeout(opt_str(env), config_timeout_ms) == Some(n as nat),
            None => timeout(opt_str(env), config_timeout_ms) is None,
        },
{
    if let Some(s) = env {
        if let Some(n) = parse_u64(trim(s).as_str()) {
            return if n == 0 {
                None
            } else {
                Some(n)
            };
        }
    }
    let cfg: u64 = match config_timeout_ms {
        Some(n) => n,
        None => DEFAULT_TIMEOUT_MS,
    };
    if cfg == 0 {
        None
    } else {
        Some(cfg)
    }
}

// ---------------------------------------------------------------- the questions

/// Whether an option's id stands at an earlier place too.
pub open spec fn option_repeats(q: Question, at: int) -> bool {
    exists|j: int| 0 <= j < at && (#[trigger] q.options@[j]).id@ == q.options@[at].id@
}

/// The start of each message about a question.
pub open spec fn about(q: Question) -> Seq<char> {
    "question "@ + q.id@
}

/// What is wrong with one option of a question.
pub open spec fn option_fault(q: Question, at: int) -> Option<Seq<char>> {
    let o = q.options@[at];
    if o.id@ == CUSTOM_OPTION_ID@ {
        Some(about(q) + ": option.id 不得使用保留值 \""@ + CUSTOM_OPTION_ID@ + "\""@)
    } else if option_repeats(q, at) {
        Some(about(q) + ": option.id 重复 \""@ + o.id@ + "\""@)
    } else if trimmed(o.label@).len() == 0 {
        Some(about(q) + ": option "@ + o.id@ + " label 不可为空"@)
    } else {
        None
    }
}

/// What is wrong with the first option that something is wrong with.
pub open spec fn first_option_fault(q: Question, from: int) -> Option<Seq<char>>
    decreases q.options@.len() - from,
{
    if from >= q.options@.len() {
        None
    } else {
        match option_fault(q, from) {
            Some(m) => Some(m),
            None => first_option_fault(q, from + 1),
        }
    }
}

/// How many of the first `n` options are recommended.
pub open spec fn recommended_count(q: Question, n: int) -> nat
    decreases n,
{
    if n <= 0 {
        0
    } else {
        recommended_count(q, n - 1) + (if q.options@[n - 1].recommended {
            1nat
        } else {
            0nat
        })
    }
}

/// What is wrong with a question.
pub open spec fn question_fault(q: Question) -> Option<Seq<char>> {
    if trimmed(q.prompt@).len() == 0 {
        Some(about(q) + ": prompt 不可为空"@)
    } else if q.options@.len() < 2 || q.options@.len() > 4 {
        Some(about(q) + ": options 必须 2-4 个，当前 "@ + decimal(q.options@.len()))
    } else {
        match first_option_fault(q, 0) {
            Some(m) => Some(m),
            None => if recommended_count(q, q.options@.len() as int) != 1 {
                Some(
                    about(q) + ": 必须**恰好**一个 recommended=true 选项（当前 "@ + decimal(
                        recommended_count(q, q.options@.len() as int),
                    ) + "）"@,
                )
            } else {
                None
            },
        }
    }
}

/// What is wrong with a question, if anything is.
pub fn validate_single_question(q: &Question) -> (r: Result<(), ToolError>)
    ensures
        match r {
            Ok(_) => question_fault(*q) is None,
            Err(e) => question_fault(*q) is Some && e@ == Fault::BadArgs(question_fault(*q)->0),
        },
{
    let start = cat("question ", q.id.as_str());
    let words = trim(q.prompt.as_str());
    if words.as_str().is_empty() {
        return Err(ToolError::BadArgs(cat(start.as_str(), ": prompt 不可为空")));
    }
    let n: usize = q.options.len();
    if n < 2 || n > 4 {
        return Err(
            ToolError::BadArgs(
                cat3(start.as_str(), ": options 必须 2-4 个，当前 ", decimal_usize(n).as_str()),
            ),
        );
    }
    let mut i: usize = 0;
    let mut recommended: usize = 0;
    while i < n
        invariant
            n == q.options@.len(),
            2 <= n <= 4,
            i <= n,
            start@ == about(*q),
            trimmed(q.prompt@).len() > 0,
            recommended <= i,
            recommended == recommended_count(*q, i as int),
            first_option_fault(*q, i as int) == first_option_fault(*q, 0),
        decreases n - i,
    {
        let o = &q.options[i];
        if same(o.id.as_str(), CUSTOM_OPTION_ID) {
            return Err(
                ToolError::BadArgs(
                    cat4(
                        start.as_str(),
                        ": option.id 不得使用保留值 \"",
                        CUSTOM_OPTION_ID,
                        "\"",
                    ),
                ),
            );
        }
        let mut k: usize = 0;
        while k < i
            invariant
                k <= i < q.options@.len(),
                n == q.options@.len(),
                2 <= n <= 4,
                start@ == about(*q),
                trimmed(q.prompt@).len() > 0,
                *o == q.options@[i as int],
                o.id@ != CUSTOM_OPTION_ID@,
                first_option_fault(*q, i as int) == first_option_fault(*q, 0),
                forall|j: int| 0 <= j < k ==> (#[trigger] q.options@[j]).id@ != o.id@,
            decreases i - k,
        {
            if same(q.options[k].id.as_str(), o.id.as_str()) {
                assert(option_repeats(*q, i as int));
                return Err(
                    ToolError::BadArgs(
                        cat4(start.as_str(), ": option.id 重复 \"", o.id.as_str(), "\""),
                    ),
                );
            }
            k = k + 1;
        }
        let label = trim(o.label.as_str());
        if label.as_str().is_empty() {
            return Err(
                ToolError::BadArgs(
                    cat4(start.as_str(), ": option ", o.id.as_str(), " label 不可为空"),
                ),
            );
        }
        if o.recommended {
            recommended = recommended + 1;
        }
        i = i + 1;
    }
    if recommended != 1 {
        return Err(
            ToolError::BadArgs(
                cat4(
                    start.as_str(),
                    ": 必须**恰好**一个 recommended=true 选项（当前 ",
                    decimal_usize(recommended).as_str(),
                    "）",
                ),
            ),
        );
    }
    Ok(())
}

/// Whether a question's id stands at an earlier place too.
pub open spec fn question_repeats(qs: Seq<Question>, at: int) -> bool {
    exists|j: int| 0 <= j < at && (#[trigger] qs[j]).id@ == qs[at].id@
}

/// What is wrong with the first question that something is wrong with.
pub open spec fn first_question_fault(qs: Seq<Question>, from: int) -> Option<Seq<char>>
    decreases qs.len() - from,
{
    if from >= qs.len() {
        None
    } else if question_repeats(qs, from) {
        Some("question.id 重复: "@ + qs[from].id@)
    } else {
        match question_fault(qs[from]) {
            Some(m) => Some(m),
            None => first_question_fault(qs, from + 1),
        }
    }
}

/// What is wrong with the questions that are given, if any are given.
pub open spec fn questions_fault(given: Option<Vec<Question>>) -> Option<Seq<char>> {
    match given {
        None => Some("ask_question 缺少 questions 字段"@),
        Some(qs) => if qs@.len() == 0 {
            Some("questions 至少 1 题"@)
        } else if qs@.len() > 4 {
            Some("questions 最多 4 题，当前 "@ + decimal(qs@.len()))
        } else {
            first_question_fault(qs@, 0)
        },
    }
}

/// The questions, if they can be asked: one to four, each with its own id, a prompt, and two to
/// four options of which exactly one is recommended.
pub fn parse_and_validate_questions(given: Option<Vec<Question>>) -> (r: Result<
    Vec<Question>,
    ToolError,
>)
    ensures
        match r {
            Ok(qs) => questions_fault(given) is None && given == Some(qs),
            Err(e) => questions_fault(given) is Some && e@ == Fault::BadArgs(
                questions_fault(given)->0,
            ),
        },
{
    let qs = match given {
        Some(qs) => qs,
        None => {
            return Err(ToolError::BadArgs("ask_question 缺少 questions 字段".to_owned()));
        },
    };
    if qs.len() == 0 {
        return Err(ToolError::BadArgs("questions 至少 1 题".to_owned()));
    }
    if qs.len() > 4 {
        return Err(
            ToolError::BadArgs(
                cat("questions 最多 4 题，当前 ", decimal_usize(qs.len()).as_str()),
            ),
        );
    }
    let mut i: usize = 0;
    while i < qs.len()
        invariant
            i <= qs@.len(),
            1 <= qs@.len() <= 4,
            given == Some(qs),
            first_question_fault(qs@, i as int) == first_question_fault(qs@, 0),
        decreases qs@.len() - i,
    {
        let mut k: usize = 0;
        while k < i
            invariant
                k <= i < qs@.len(),
                1 <= qs@.len() <= 4,
                given == Some(qs),
                first_question_fault(qs@, i as int) == first_question_fault(qs@, 0),
                forall|j: int| 0 <= j < k ==> (#[trigger] qs@[j]).id@ != qs@[i as int].id@,
            decreases i - k,
        {
            if same(qs[k].id.as_str(), qs[i].id.as_str()) {
                assert(question_repeats(qs@, i as int));
                return Err(ToolError::BadArgs(cat("question.id 重复: ", qs[i].id.as_str())));
            }
            k = k + 1;
        }
        if let Err(e) = validate_single_question(&qs[i]) {
            return Err(e);
        }
        i = i + 1;
    }
    Ok(qs)
}

// ---------------------------------------------------------------- the answers

/// Whether an answer picks the slot for own words.
pub open spec fn picks_custom(a: Answer) -> bool {
    exists|i: int| 0 <= i < a.option_ids@.len() && (#[trigger] a.option_ids@[i])@
        == CUSTOM_OPTION_ID@
}

/// Whether a question has an option.
pub open spec fn has_option(q: Question, id: Seq<char>) -> bool {
    exists|i: int| 0 <= i < q.options@.len() && (#[trigger] q.options@[i]).id@ == id
}

/// The first pick that is neither an option nor the slot for own words.
pub open spec fn first_unknown(q: Question, picks: Seq<Seq<char>>, from: int) -> Option<Seq<char>>
    decreases picks.len() - from,
{
    if from >= picks.len() {
        None
    } else if picks[from] != CUSTOM_OPTION_ID@ && !has_option(q, picks[from]) {
        Some(picks[from])
    } else {
        first_unknown(q, picks, from + 1)
    }
}

/// The user's own words; no text if there are none.
pub open spec fn own_words(a: Answer) -> Seq<char> {
    match a.custom_text {
        Some(t) => t@,
        None => ""@,
    }
}

/// What is wrong with the answer to a question.
pub open spec fn answer_fault(q: Question, a: Answer) -> Option<Seq<char>> {
    let n = own_words(a).len();
    if a.question_id@ != q.id@ {
        Some(
            "panel 返回 question_id="@ + a.question_id@ + " 与问题 "@ + q.id@ + " 不匹配"@,
        )
    } else if a.option_ids@.len() == 0 {
        Some(about(q) + ": 至少选择 1 个选项"@)
    } else if !q.allow_multiple && a.option_ids@.len() != 1 {
        Some(about(q) + ": 单选题应只选 1 个，实际 "@ + decimal(a.option_ids@.len()))
    } else if picks_custom(a) && (n == 0 || n > 500) {
        Some(
            about(q) + ": 选中 __custom__ 时 custom_text 必须 1-500 字符（当前 "@ + decimal(n)
                + "）"@,
        )
    } else if !picks_custom(a) && a.custom_text is Some {
        Some(about(q) + ": 未选 __custom__ 时不应携带 custom_text"@)
    } else {
        match first_unknown(q, texts(a.option_ids@), 0) {
            Some(id) => Some(about(q) + ": 答案中含未知 option_id="@ + id),
            None => None,
        }
    }
}

/// What is wrong with the first answer that something is wrong with.
pub open spec fn first_answer_fault(qs: Seq<Question>, answers: Seq<Answer>, from: int) -> Option<
    Seq<char>,
>
    decreases qs.len() - from,
{
    if from >= qs.len() {
        None
    } else {
        match answer_fault(qs[from], answers[from]) {
            Some(m) => Some(m),
            None => first_answer_fault(qs, answers, from + 1),
        }
    }
}

/// What is wrong with the answers to the questions.
pub open spec fn answers_fault(qs: Seq<Question>, answers: Seq<Answer>) -> Option<Seq<char>> {
    if answers.len() != qs.len() {
        Some(
            "panel 返回答案数 "@ + decimal(answers.len()) + " 与问题数 "@ + decimal(qs.len())
                + " 不一致"@,
        )
    } else {
        first_answer_fault(qs, answers, 0)
    }
}

fn is_among(q: &Question, id: &str) -> (r: bool)
    ensures
        r == has_option(*q, id@),
{
    let mut i: usize = 0;
    while i < q.options.len()
        invariant
            i <= q.options@.len(),
            forall|j: int| 0 <= j < i ==> (#[trigger] q.options@[j]).id@ != id@,
        decreases q.options@.len() - i,
    {
        if same(q.options[i].id.as_str(), id) {
            return true;
        }
        i = i + 1;
    }
    false
}

fn has_custom(a: &Answer) -> (r: bool)
    ensures
        r == picks_custom(*a),
{
    let mut i: usize = 0;
    while i < a.option_ids.len()
        invariant
            i <= a.option_ids@.len(),
            forall|j: int| 0 <= j < i ==> (#[trigger] a.option_ids@[j])@ != CUSTOM_OPTION_ID@,
        decreases a.option_ids@.len() - i,
    {
        if same(a.option_ids[i].as_str(), CUSTOM_OPTION_ID) {
            return true;
        }
        i = i + 1;
    }
    false
}

fn find_unknown(q: &Question, a: &Answer) -> (r: Option<usize>)
    ensures
        match r {
            Some(i) => i < a.option_ids@.len() && first_unknown(*q, texts(a.option_ids@), 0)
                == Some(a.option_ids@[i as int]@),
            None => first_unknown(*q, texts(a.option_ids@), 0) is None,
        },
{
    let ghost picks = texts(a.option_ids@);
    let mut i: usize = 0;
    while i < a.option_ids.len()
        invariant
            i <= a.option_ids@.len(),
            picks == texts(a.option_ids@),
            first_unknown(*q, picks, i as int) == first_unknown(*q, picks, 0),
        decreases a.option_ids@.len() - i,
    {
        assert(picks[i as int] == a.option_ids@[i as int]@);
        if !same(a.option_ids[i].as_str(), CUSTOM_OPTION_ID) && !is_among(
            q,
            a.option_ids[i].as_str(),
        ) {
            return Some(i);
        }
        i = i + 1;
    }
    None
}

/// What is wrong with the answer to a question, if anything is.
fn validate_answer(q: &Question, a: &Answer) -> (r: Result<(), ToolError>)
    ensures
        match r {
            Ok(_) => answer_fault(*q, *a) is None,
            Err(e) => answer_fault(*q, *a) is Some && e@ == Fault::Internal(
                answer_fault(*q, *a)->0,
            ),
        },
{
    if !same(a.question_id.as_str(), q.id.as_str()) {
        return Err(
            ToolError::Internal(
                cat5(
                    "panel 返回 question_id=",
                    a.question_id.as_str(),
                    " 与问题 ",
                    q.id.as_str(),
                    " 不匹配",
                ),
            ),
        );
    }
    let start = cat("question ", q.id.as_str());
    if a.option_ids.len() == 0 {
        return Err(ToolError::Internal(cat(start.as_str(), ": 至少选择 1 个选项")));
    }
    if !q.allow_multiple && a.option_ids.len() != 1 {
        return Err(
            ToolError::Internal(
                cat3(
                    start.as_str(),
                    ": 单选题应只选 1 个，实际 ",
                    decimal_usize(a.option_ids.len()).as_str(),
                ),
            ),
        );
    }
    if has_custom(a) {
        let n: usize = match &a.custom_text {
            Some(t) => chars_of(t.as_str()).len(),
            None => chars_of("").len(),
        };
        if n == 0 || n > 500 {
            return Err(
                ToolError::Internal(
                    cat4(
                        start.as_str(),
                        ": 选中 __custom__ 时 custom_text 必须 1-500 字符（当前 ",
                        decimal_usize(n).as_str(),
                        "）",
                    ),
                ),
            );
        }
    } else if a.custom_text.is_some() {
        return Err(
            ToolError::Internal(
                cat(start.as_str(), ": 未选 __custom__ 时不应携带 custom_text"),
            ),
        );
    }
    if let Some(i) = find_unknown(q, a) {
        return Err(
            ToolError::Internal(
                cat3(
                    start.as_str(),
                    ": 答案中含未知 option_id=",
                    a.option_ids[i].as_str(),
                ),
            ),
        );
    }
    Ok(())
}

/// What is wrong with the answers to the questions, if anything is: one answer for each question,
/// in order, with picks that the question has, and own words exactly where they are picked.
pub fn validate_answers(questions: &Vec<Question>, result: &AskQuestionResult) -> (r: Result<
    (),
    ToolError,
>)
    ensures
        match r {
            Ok(_) => answers_fault(questions@, result.answers@) is None,
            Err(e) => answers_fault(questions@, result.answers@) is Some && e@ == Fault::Internal(
                answers_fault(questions@, result.answers@)->0,
            ),
        },
{
    if result.answers.len() != questions.len() {
        return Err(
            ToolError::Internal(
                cat5(
                    "panel 返回答案数 ",
                    decimal_usize(result.answers.len()).as_str(),
                    " 与问题数 ",
                    decimal_usize(questions.len()).as_str(),
                    " 不一致",
                ),
            ),
        );
    }
    let mut i: usize = 0;
    while i < questions.len()
        invariant
            i <= questions@.len(),
            result.answers@.len() == questions@.len(),
            first_answer_fault(questions@, result.answers@, i as int) == first_answer_fault(
                questions@,
                result.answers@,
                0,
            ),
        decreases questions@.len() - i,
    {
        if let Err(e) = validate_answer(&questions[i], &result.answers[i]) {
            return Err(e);
        }
        i = i + 1;
    }
    Ok(())
}

// ---------------------------------------------------------------- the whole call

/// What is asked, and how long the user is waited for.
#[derive(Clone, Debug, PartialEq, Eq)]
pub struct Inquiry {
    pub questions: Vec<Question>,
    /// In milliseconds; for ever if there is none.
    pub timeout_ms: Option<u64>,
}

/// What is to be asked, or why nothing is: the tool cannot be seen while a plan is worked on.
pub fn execute_with_timeout(
    mode: &PlanMode,
    given: Option<Vec<Question>>,
    env: Option<&str>,
    config_timeout_ms: Option<u64>,
) -> (r: Result<Inquiry, ToolError>)
    ensures
        match r {
            Ok(q) => {
                &&& !(mode is Executing)
                &&& questions_fault(given) is None
                &&& given == Some(q.questions)
                &&& timeout(opt_str(env), config_timeout_ms) == (match q.timeout_ms {
                    Some(n) => Some(n as nat),
                    None => None,
                })
            },
            Err(e) => if mode is Executing {
                e@ == (Fault::InvisibleInMode { tool: "ask_question"@, mode: mode_word(*mode) })
            } else {
                questions_fault(given) is Some && e@ == Fault::BadArgs(questions_fault(given)->0)
            },
        },
{
    if let PlanMode::Executing { .. } = mode {
        return Err(
            ToolError::InvisibleInMode {
                tool: "ask_question".to_owned(),
                mode: mode.as_str().to_owned(),
            },
        );
    }
    match parse_and_validate_questions(given) {
        Ok(questions) => Ok(
            Inquiry { questions, timeout_ms: resolve_timeout_ms(env, config_timeout_ms) },
        ),
        Err(e) => Err(e),
    }
}

/// What the tool answers. `came_back` is what the panel gave, or nothing if the time was up: then,
/// and if the user broke off, there are no answers, and that is no error.
pub fn conclude(questions: &Vec<Question>, came_back: Option<AskQuestionResult>) -> (r: Result<
    AskQuestionResult,
    ToolError,
>)
    ensures
        match r {
            Ok(a) => if came_back is None || came_back->0.cancelled {
                a.is_cancelled_empty()
            } else {
                a == came_back->0 && answers_fault(questions@, a.answers@) is None
            },
            Err(e) => came_back is Some && !came_back->0.cancelled && answers_fault(
                questions@,
                came_back->0.answers@,
            ) is Some && e@ == Fault::Internal(
                answers_fault(questions@, came_back->0.answers@)->0,
            ),
        },
{
    match came_back {
        None => Ok(cancelled_result()),
        Some(result) => {
            if result.cancelled {
                return Ok(cancelled_result());
            }
            match validate_answers(questions, &result) {
                Ok(_) => Ok(result),
                Err(e) => Err(e),
            }
        },
    }
}

// ---------------------------------------------------------------- laws

proof fn lemma_first_question_fault(qs: Seq<Question>, from: int)
    requires
        0 <= from <= qs.len(),
        first_question_fault(qs, from) is None,
    ensures
        forall|i: int|
            from <= i < qs.len() ==> question_fault(#[trigger] qs[i]) is None && !question_repeats(
                qs,
                i,
            ),
    decreases qs.len() - from,
{
    if from < qs.len() {
        lemma_first_question_fault(qs, from + 1);
    }
}

/// Questions that may be asked have ids of their own, and each recommends exactly one option.
pub proof fn law_questions_in_order(qs: Vec<Question>)
    requires
        questions_fault(Some(qs)) is None,
    ensures
        1 <= qs@.len() <= 4,
        forall|i: int, j: int|
            0 <= i < j < qs@.len() ==> (#[trigger] qs@[i]).id@ != (#[trigger] qs@[j]).id@,
        forall|i: int|
            0 <= i < qs@.len() ==> 2 <= (#[trigger] qs@[i]).options@.len() <= 4
                && recommended_count(qs@[i], qs@[i].options@.len() as int) == 1,
{
    lemma_first_question_fault(qs@, 0);
    assert forall|i: int, j: int| 0 <= i < j < qs@.len() implies (#[trigger] qs@[i]).id@ != (
    #[trigger] qs@[j]).id@ by {
        assert(!question_repeats(qs@, j));
    }
}

/// The environment decides over the configuration, and zero means for ever.
pub proof fn law_environment_decides(env: Seq<char>, config: Option<u64>, n: nat)
    requires
        parsed(trimmed(env), u64::MAX as nat) == Some(n),
    ensures
        timeout(Some(env), config) == unless_zero(n),
{
}

/// Without an environment that says a number, the configuration decides, and without that it is five
/// minutes; zero means for ever.
pub proof fn law_waiting_time(env: Option<Seq<char>>, config: Option<u64>)
    ensures
        env matches Some(s) ==> (parsed(trimmed(s), u64::MAX as nat) is None ==> timeout(env, config)
            == timeout(None, config)),
        timeout(None, None) == Some(300_000nat),
        config matches Some(n) ==> timeout(None, config) == (if n == 0 {
            None
        } else {
            Some(n as nat)
        }),
        timeout(env, config) != Some(0nat),
{
}

proof fn lemma_option_faults(q: Question, from: int)
    requires
        0 <= from <= q.options@.len(),
    ensures
        first_option_fault(q, from) is None <==> forall|i: int|
            from <= i < q.options@.len() ==> #[trigger] option_fault(q, i) is None,
    decreases q.options@.len() - from,
{
    if from < q.options@.len() {
        lemma_option_faults(q, from + 1);
        if option_fault(q, from) is None && first_option_fault(q, from + 1) is None {
            assert forall|i: int| from <= i < q.options@.len() implies #[trigger] option_fault(q, i) is None by {}
        }
    }
}

proof fn lemma_recommended(q: Question, n: int)
    requires
        0 <= n <= q.options@.len(),
    ensures
        recommended_count(q, n) == q.options@.take(n).filter(
            |o: crate::plan_runtime::ask_question_panel::QuestionOption| o.recommended,
        ).len(),
    decreases n,
{
    reveal(Seq::filter);
    if n > 0 {
        lemma_recommended(q, n - 1);
        assert(q.options@.take(n).drop_last() =~= q.options@.take(n - 1));
        assert(q.options@.take(n).last() == q.options@[n - 1]);
    }
}

/// A question may be asked exactly if it says something, has two to four options with texts and ids of
/// their own, none of them the reserved one, and recommends exactly one.
pub proof fn law_which_questions_may_be_asked(q: Question)
    ensures
        question_fault(q) is None <==> {
            &&& trimmed(q.prompt@).len() > 0
            &&& 2 <= q.options@.len() <= 4
            &&& forall|i: int|
                0 <= i < q.options@.len() ==> (#[trigger] q.options@[i]).id@ != "__custom__"@
                    && trimmed(q.options@[i].label@).len() > 0
            &&& forall|i: int, j: int|
                0 <= i < j < q.options@.len() ==> (#[trigger] q.options@[i]).id@ != (
                #[trigger] q.options@[j]).id@
            &&& q.options@.filter(
                |o: crate::plan_runtime::ask_question_panel::QuestionOption| o.recommended,
            ).len() == 1
        },
{
    let n = q.options@.len() as int;
    lemma_option_faults(q, 0);
    lemma_recommended(q, n);
    assert(q.options@.take(n) =~= q.options@);
    if first_option_fault(q, 0) is None {
        assert forall|i: int| 0 <= i < n implies (#[trigger] q.options@[i]).id@ != "__custom__"@
            && trimmed(q.options@[i].label@).len() > 0 by {
            assert(option_fault(q, i) is None);
        }
        assert forall|i: int, j: int| 0 <= i < j < n implies (#[trigger] q.options@[i]).id@ != (
        #[trigger] q.options@[j]).id@ by {
            assert(option_fault(q, j) is None);
        }
    } else {
        let i = choose|i: int| 0 <= i < n && !(#[trigger] option_fault(q, i) is None);
        if option_repeats(q, i) {
            let j = choose|j: int| 0 <= j < i && (#[trigger] q.options@[j]).id@ == q.options@[i].id@;
            assert(q.options@[j].id@ == q.options@[i].id@);
        }
        assert(q.options@[i].id@ == q.options@[i].id@);
    }
}

proof fn lemma_question_faults(qs: Seq<Question>, from: int)
    requires
        0 <= from <= qs.len(),
        forall|i: int|
            from <= i < qs.len() ==> question_fault(#[trigger] qs[i]) is None && !question_repeats(
                qs,
                i,
            ),
    ensures
        first_question_fault(qs, from) is None,
    decreases qs.len() - from,
{
    if from < qs.len() {
        assert(question_fault(qs[from]) is None);
        lemma_question_faults(qs, from + 1);
    }
}

/// One to four questions that may be asked each, with ids of their own, may be asked together.
pub proof fn law_good_questions_may_be_asked(qs: Vec<Question>)
    requires
        1 <= qs@.len() <= 4,
        forall|i: int| 0 <= i < qs@.len() ==> question_fault(#[trigger] qs@[i]) is None,
        forall|i: int, j: int|
            0 <= i < j < qs@.len() ==> (#[trigger] qs@[i]).id@ != (#[trigger] qs@[j]).id@,
    ensures
        questions_fault(Some(qs)) is None,
{
    assert forall|i: int| 0 <= i < qs@.len() implies question_fault(#[trigger] qs@[i]) is None
        && !question_repeats(qs@, i) by {
        if question_repeats(qs@, i) {
            let j = choose|j: int| 0 <= j < i && (#[trigger] qs@[j]).id@ == qs@[i].id@;
            assert(qs@[j].id@ != qs@[i].id@);
        }
    }
    lemma_question_faults(qs@, 0);
}

proof fn lemma_first_unknown(q: Question, ps: Seq<Seq<char>>, from: int)
    requires
        0 <= from,
    ensures
        first_unknown(q, ps, from) is None <==> forall|i: int|
            from <= i < ps.len() ==> (#[trigger] ps[i]) == CUSTOM_OPTION_ID@ || has_option(q, ps[i]),
    decreases ps.len() - from,
{
    if from < ps.len() {
        lemma_first_unknown(q, ps, from + 1);
        if first_unknown(q, ps, from) is None {
            assert forall|i: int| from <= i < ps.len() implies (#[trigger] ps[i]) == CUSTOM_OPTION_ID@
                || has_option(q, ps[i]) by {}
        }
    }
}

/// An answer is accepted exactly if it is to its question, picks something, no more than one thing where
/// one may be picked, only what the question offers or own words, and brings own words, of one to five
/// hundred characters, exactly if it picks them.
pub proof fn law_which_answers_are_accepted(q: Question, a: Answer)
    ensures
        answer_fault(q, a) is None <==> {
            &&& a.question_id@ == q.id@
            &&& a.option_ids@.len() > 0
            &&& !q.allow_multiple ==> a.option_ids@.len() == 1
            &&& forall|i: int|
                0 <= i < a.option_ids@.len() ==> (#[trigger] a.option_ids@[i])@ == "__custom__"@
                    || exists|k: int|
                    0 <= k < q.options@.len() && (#[trigger] q.options@[k]).id@ == a.option_ids@[i]@
            &&& (exists|i: int|
                0 <= i < a.option_ids@.len() && (#[trigger] a.option_ids@[i])@ == "__custom__"@)
                ==> (a.custom_text matches Some(t) && 1 <= t@.len() <= 500)
            &&& !(exists|i: int|
                0 <= i < a.option_ids@.len() && (#[trigger] a.option_ids@[i])@ == "__custom__"@)
                ==> a.custom_text is None
        },
{
    reveal_strlit("");
    let ps = texts(a.option_ids@);
    lemma_first_unknown(q, ps, 0);
    assert(ps.len() == a.option_ids@.len());
    assert forall|i: int| 0 <= i < ps.len() implies #[trigger] ps[i] == a.option_ids@[i]@ by {}
    if first_unknown(q, ps, 0) is None {
        assert forall|i: int| 0 <= i < a.option_ids@.len() implies (#[trigger] a.option_ids@[i])@
            == "__custom__"@ || exists|k: int|
            0 <= k < q.options@.len() && (#[trigger] q.options@[k]).id@ == a.option_ids@[i]@ by {
            assert(ps[i] == CUSTOM_OPTION_ID@ || has_option(q, ps[i]));
        }
    } else {
        let i = choose|i: int| 0 <= i < ps.len() && !((#[trigger] ps[i]) == CUSTOM_OPTION_ID@ || has_option(q, ps[i]));
        assert(a.option_ids@[i]@ == ps[i]);
        assert(!has_option(q, a.option_ids@[i]@));
    }
}

proof fn lemma_answer_faults(qs: Seq<Question>, answers: Seq<Answer>, from: int)
    requires
        0 <= from <= qs.len(),
        qs.len() == answers.len(),
    ensures
        first_answer_fault(qs, answers, from) is None <==> forall|i: int|
            from <= i < qs.len() ==> answer_fault(#[trigger] qs[i], answers[i]) is None,
    decreases qs.len() - from,
{
    if from < qs.len() {
        lemma_answer_faults(qs, answers, from + 1);
        if first_answer_fault(qs, answers, from) is None {
            assert forall|i: int| from <= i < qs.len() implies answer_fault(#[trigger] qs[i], answers[i]) is None by {}
        }
    }
}

/// Answers are accepted exactly if there is one for each question and each is accepted.
pub proof fn law_answers_fit_their_questions(qs: Seq<Question>, answers: Seq<Answer>)
    ensures
        answers_fault(qs, answers) is None <==> answers.len() == qs.len() && forall|i: int|
            0 <= i < qs.len() ==> answer_fault(#[trigger] qs[i], answers[i]) is None,
{
    if answers.len() == qs.len() {
        lemma_answer_faults(qs, answers, 0);
    }
}

proof fn lemma_option_faults_name_the_question(q: Question, from: int)
    requires
        0 <= from,
    ensures
        first_option_fault(q, from) matches Some(m) ==> crate::search::has_prefix(m, "question "@ + q.id@),
    decreases q.options@.len() - from,
{
    if from < q.options@.len() {
        match option_fault(q, from) {
            Some(m) => {
                let head = about(q);
                assert(m.subrange(0, head.len() as int) =~= head);
            },
            None => {
                lemma_option_faults_name_the_question(q, from + 1);
            },
        }
    }
}

/// Whatever is wrong with a question, the message names the question; an empty prompt is told before
/// anything else, and a wrong number of options with that number.
pub proof fn law_faults_name_the_question(q: Question)
    ensures
        question_fault(q) matches Some(m) ==> crate::search::has_prefix(m, "question "@ + q.id@),
        trimmed(q.prompt@).len() == 0 ==> question_fault(q) == Some(
            "question "@ + q.id@ + ": prompt 不可为空"@,
        ),
        trimmed(q.prompt@).len() > 0 && (q.options@.len() < 2 || q.options@.len() > 4) ==> question_fault(q)
            == Some("question "@ + q.id@ + ": options 必须 2-4 个，当前 "@ + decimal(q.options@.len())),
{
    lemma_option_faults_name_the_question(q, 0);
    if let Some(m) = question_fault(q) {
        let head = "question "@ + q.id@;
        if first_option_fault(q, 0) is None || trimmed(q.prompt@).len() == 0 || q.options@.len() < 2
            || q.options@.len() > 4 {
            assert(m.subrange(0, head.len() as int) =~= head);
        }
    }
}

} // verus!
