//! Asking questions on the terminal: the user picks by number.

use vstd::prelude::*;
use vstd::string::*;

use crate::numerals::{decimal_usize, parse_usize};
#[allow(unused_imports)]
use crate::numerals::{decimal, parsed};
use crate::plan_runtime::ask_question_panel::{
    cancelled_result, Answer, AskQuestionResult, Question, CUSTOM_OPTION_ID,
};
#[allow(unused_imports)]
use crate::plan_runtime::tools::ask_question::{
    answer_fault, first_option_fault, first_unknown, has_option, option_fault, picks_custom,
    question_fault,
};
use crate::search::{join, split_at_char};
#[allow(unused_imports)]
use crate::search::{joined, pieces};
use crate::text::{
    cat, cat4, cat5, chars_of, one_text, push_text, same, to_ascii_lower, trim,
};
#[allow(unused_imports)]
use crate::text::{ascii_lowered, opt_str, texts, trimmed};

verus! {

/// The variable of the environment that lets the panel answer by itself.
pub const ASK_QUESTION_TEST_AUTO_PICK_ENV: &'static str = "TOMCAT_ASK_QUESTION_TEST_AUTO_PICK";

/// Whether two texts are the same but for the case of their letters; `b` is in small letters.
pub open spec fn same_letters(a: Seq<char>, b: Seq<char>) -> bool {
    ascii_lowered(a) == b
}

// ---------------------------------------------------------------- what is shown

/// The line of an option.
pub open spec fn option_line(q: Question, i: int) -> Seq<char> {
    "  "@ + decimal((i + 1) as nat) + ". "@ + q.options@[i].label@ + (if q.options@[i].recommended {
        " — 推荐"@
    } else {
        ""@
    })
}

/// The lines that put a question.
pub open spec fn board(q: Question) -> Seq<Seq<char>> {
    seq!["\n"@ + q.prompt@] + Seq::new(q.options@.len(), |i: int| option_line(q, i)) + seq![
        "  c. 自定义…"@,
        "  q. 取消"@,
    ]
}

/// What stands before the answer.
pub open spec fn answer_prompt(q: Question) -> Seq<char> {
    if q.allow_multiple {
        "多选(逗号分隔)/c/q > "@
    } else {
        "单选/c/q > "@
    }
}

/// The lines that put a question.
pub fn board_lines(q: &Question) -> (r: Vec<String>)
    requires
        q.options@.len() < usize::MAX,
    ensures
        texts(r@) == board(*q),
{
    let mut out = one_text(cat("\n", q.prompt.as_str()));
    let ghost head = texts(out@);
    let ghost rows = Seq::new(q.options@.len(), |i: int| option_line(*q, i));
    let mut i: usize = 0;
    assert(head + rows.take(0) =~= head);
    while i < q.options.len()
        invariant
            i <= q.options@.len(),
            q.options@.len() < usize::MAX,
            rows == Seq::new(q.options@.len(), |i: int| option_line(*q, i)),
            texts(out@) == head + rows.take(i as int),
        decreases q.options@.len() - i,
    {
        let o = &q.options[i];
        let suffix: &str = if o.recommended {
            " — 推荐"
        } else {
            ""
        };
        push_text(
            &mut out,
            cat5("  ", decimal_usize(i + 1).as_str(), ". ", o.label.as_str(), suffix),
        );
        assert(texts(out@) =~= head + rows.take(i + 1));
        i = i + 1;
    }
    assert(rows.take(rows.len() as int) =~= rows);
    push_text(&mut out, "  c. 自定义…".to_owned());
    push_text(&mut out, "  q. 取消".to_owned());
    assert(texts(out@) =~= board(*q));
    out
}

// ---------------------------------------------------------------- what is picked

/// The option that a piece of the answer names.
pub open spec fn piece_pick(piece: Seq<char>, n: nat) -> Option<int> {
    match parsed(trimmed(piece), usize::MAX as nat) {
        Some(k) => if 1 <= k <= n {
            Some(k - 1)
        } else {
            None
        },
        None => None,
    }
}

/// The options that the pieces of an answer name, in order; a piece that names none is passed over.
pub open spec fn named_picks(ps: Seq<Seq<char>>, n: nat) -> Seq<int>
    decreases ps.len(),
{
    if ps.len() == 0 {
        Seq::empty()
    } else {
        let rest = named_picks(ps.drop_last(), n);
        match piece_pick(ps.last(), n) {
            Some(i) => rest.push(i),
            None => rest,
        }
    }
}

/// The options that an answer picks: the first one only, where one is to be picked.
pub open spec fn picks(q: Question, line: Seq<char>) -> Seq<int> {
    let all = named_picks(pieces(line, ','), q.options@.len());
    if !q.allow_multiple && all.len() > 1 {
        all.take(1)
    } else {
        all
    }
}

/// Whether one of the picked options is recommended.
pub open spec fn any_recommended(q: Question, ps: Seq<int>) -> bool {
    exists|k: int| 0 <= k < ps.len() && q.options@[#[trigger] ps[k]].recommended
}

/// Whether `a` answers `q` with the options `ps`.
pub open spec fn is_pick(a: Answer, q: Question, ps: Seq<int>) -> bool {
    &&& a.question_id@ == q.id@
    &&& texts(a.option_ids@) == ps.map_values(|i: int| q.options@[i].id@)
    &&& a.custom_text is None
    &&& !a.skipped
    &&& a.picked_recommended == any_recommended(q, ps)
}

proof fn lemma_picks_in_range(ps: Seq<Seq<char>>, n: nat)
    ensures
        forall|k: int| 0 <= k < named_picks(ps, n).len() ==> 0 <= #[trigger] named_picks(ps, n)[k] < n,
    decreases ps.len(),
{
    if ps.len() > 0 {
        lemma_picks_in_range(ps.drop_last(), n);
        let rest = named_picks(ps.drop_last(), n);
        assert forall|k: int| 0 <= k < named_picks(ps, n).len() implies 0 <= #[trigger] named_picks(
            ps,
            n,
        )[k] < n by {
            if k < rest.len() {
                assert(named_picks(ps, n)[k] == rest[k]);
            }
        }
    }
}

/// The options that an answer picks.
fn read_picks(q: &Question, line: &str) -> (r: Vec<usize>)
    ensures
        r@.map_values(|i: usize| i as int) == picks(*q, line@),
        forall|k: int| 0 <= k < r@.len() ==> (#[trigger] r@[k]) < q.options@.len(),
{
    let ps = split_at_char(line, ',');
    let n: usize = q.options.len();
    let ghost all = texts(ps@);
    let mut out: Vec<usize> = Vec::new();
    let mut i: usize = 0;
    assert(out@.map_values(|i: usize| i as int) =~= named_picks(all.take(0), n as nat));
    while i < ps.len()
        invariant
            i <= ps@.len(),
            all == texts(ps@),
            n == q.options@.len(),
            out@.map_values(|i: usize| i as int) == named_picks(all.take(i as int), n as nat),
        decreases ps@.len() - i,
    {
        assert(all.take(i + 1).drop_last() =~= all.take(i as int));
        assert(all.take(i + 1).last() == ps@[i as int]@);
        let ghost before = out@;
        if let Some(k) = parse_usize(trim(ps[i].as_str()).as_str()) {
            if 1 <= k && k <= n {
                out.push(k - 1);
                assert(out@.map_values(|i: usize| i as int) =~= before.map_values(
                    |i: usize| i as int,
                ).push(k - 1));
            }
        }
        i = i + 1;
    }
    assert(all.take(all.len() as int) =~= all);
    proof {
        lemma_picks_in_range(all, n as nat);
        assert forall|k: int| 0 <= k < out@.len() implies (#[trigger] out@[k]) < n by {
            assert(out@.map_values(|i: usize| i as int)[k] == out@[k]);
        }
    }
    if !q.allow_multiple && out.len() > 1 {
        let mut first: Vec<usize> = Vec::new();
        first.push(out[0]);
        assert(first@.map_values(|i: usize| i as int) =~= named_picks(all, n as nat).take(1));
        return first;
    }
    out
}

/// The answer that picks options.
fn pick_answer(q: &Question, ps: &Vec<usize>) -> (r: Answer)
    requires
        forall|k: int| 0 <= k < ps@.len() ==> (#[trigger] ps@[k]) < q.options@.len(),
    ensures
        is_pick(r, *q, ps@.map_values(|i: usize| i as int)),
{
    let ghost want = ps@.map_values(|i: usize| i as int);
    let ghost ids = want.map_values(|i: int| q.options@[i].id@);
    let mut option_ids: Vec<String> = Vec::new();
    let mut recommended = false;
    let mut k: usize = 0;
    assert(texts(option_ids@) =~= ids.take(0));
    while k < ps.len()
        invariant
            k <= ps@.len(),
            forall|k: int| 0 <= k < ps@.len() ==> (#[trigger] ps@[k]) < q.options@.len(),
            want == ps@.map_values(|i: usize| i as int),
            ids == want.map_values(|i: int| q.options@[i].id@),
            texts(option_ids@) == ids.take(k as int),
            recommended == (exists|j: int|
                0 <= j < k && q.options@[#[trigger] want[j]].recommended),
        decreases ps@.len() - k,
    {
        assert(want[k as int] == ps@[k as int]);
        let o = &q.options[ps[k]];
        push_text(&mut option_ids, o.id.clone());
        assert(ids.take(k + 1) =~= ids.take(k as int).push(ids[k as int]));
        if o.recommended {
            recommended = true;
        }
        k = k + 1;
    }
    assert(ids.take(ids.len() as int) =~= ids);
    Answer {
        question_id: q.id.clone(),
        option_ids,
        custom_text: None,
        skipped: false,
        picked_recommended: recommended,
    }
}

/// Whether `a` answers `q` in the user's own words.
pub open spec fn is_custom(a: Answer, q: Question, words: Seq<char>) -> bool {
    &&& a.question_id@ == q.id@
    &&& texts(a.option_ids@) == seq![CUSTOM_OPTION_ID@]
    &&& a.custom_text is Some
    &&& a.custom_text->0@ == words
    &&& !a.skipped
    &&& !a.picked_recommended
}

/// Whether own words can be taken: there are some, and not too many.
pub open spec fn fits(words: Seq<char>) -> bool {
    1 <= words.len() <= 500
}

/// The answer in the user's own words, if they can be taken.
pub fn custom_answer(q: &Question, text: &str) -> (r: Option<Answer>)
    ensures
        match r {
            Some(a) => fits(trimmed(text@)) && is_custom(a, *q, trimmed(text@)),
            None => !fits(trimmed(text@)),
        },
{
    let words = trim(text);
    let n: usize = chars_of(words.as_str()).len();
    if n == 0 || n > 500 {
        return None;
    }
    let ids = one_text(CUSTOM_OPTION_ID.to_owned());
    assert(texts(ids@) =~= seq![CUSTOM_OPTION_ID@]);
    Some(
        Answer {
            question_id: q.id.clone(),
            option_ids: ids,
            custom_text: Some(words),
            skipped: false,
            picked_recommended: false,
        },
    )
}

/// The option that is picked without asking: the first that is recommended, else the first.
pub open spec fn favourite(q: Question, from: int) -> int
    decreases q.options@.len() - from,
{
    if from >= q.options@.len() {
        0
    } else if q.options@[from].recommended {
        from
    } else {
        favourite(q, from + 1)
    }
}

/// Whether the panel answers by itself.
pub open spec fn picks_itself(q: Question, strategy: Option<Seq<char>>) -> bool {
    strategy is Some && same_letters(strategy->0, "recommended"@) && q.options@.len() > 0
}

/// The answer that is given without asking, if the environment asks for that.
pub fn auto_pick_answer_for_test(q: &Question, strategy: Option<&str>) -> (r: Option<Answer>)
    ensures
        match r {
            Some(a) => picks_itself(*q, opt_str(strategy)) && is_pick(
                a,
                *q,
                seq![favourite(*q, 0)],
            ),
            None => !picks_itself(*q, opt_str(strategy)),
        },
{
    match strategy {
        None => None,
        Some(s) => {
            if !same(to_ascii_lower(s).as_str(), "recommended") || q.options.len() == 0 {
                return None;
            }
            let mut i: usize = 0;
            let mut place: usize = 0;
            while i < q.options.len() && !q.options[i].recommended
                invariant
                    i <= q.options@.len(),
                    favourite(*q, i as int) == favourite(*q, 0),
                decreases q.options@.len() - i,
            {
                i = i + 1;
            }
            if i < q.options.len() {
                place = i;
            }
            let mut one: Vec<usize> = Vec::new();
            one.push(place);
            assert(one@.map_values(|i: usize| i as int) =~= seq![favourite(*q, 0)]);
            Some(pick_answer(q, &one))
        },
    }
}

/// The line that says what was picked without asking.
pub fn auto_pick_line(q: &Question, answer: &Answer) -> (r: String)
    ensures
        r@ == "[ask_question:auto-pick] qid="@ + q.id@ + " strategy=recommended picks="@ + joined(
            texts(answer.option_ids@),
            ","@,
        ),
{
    let picked = join(&answer.option_ids, ",");
    cat4(
        "[ask_question:auto-pick] qid=",
        q.id.as_str(),
        " strategy=recommended picks=",
        picked.as_str(),
    )
}

// ---------------------------------------------------------------- the dialogue

/// The panel on the terminal.
#[derive(Clone, Copy, Debug, PartialEq, Eq)]
pub struct CliAskQuestionPanel;

/// A dialogue on the terminal.
#[derive(Clone, Debug, PartialEq, Eq)]
pub struct CliDialogue {
    pub questions: Vec<Question>,
    /// The place of the question that is asked now.
    pub at: usize,
    pub answers: Vec<Answer>,
}

/// What is to be done next in a dialogue.
#[derive(Clone, Debug, PartialEq, Eq)]
pub enum CliAction {
    /// The dialogue is over.
    Finish(AskQuestionResult),
    /// A line is to be shown; then it goes on.
    Say(String),
    /// It goes on with the next question.
    Next,
    /// The question is to be put, and a line to be read.
    Ask { lines: Vec<String>, prompt: String },
    /// A line of own words is to be read.
    AskCustom { prompt: String },
}

/// Whether an action ends the dialogue without answers.
pub open spec fn breaks_off(a: CliAction) -> bool {
    a matches CliAction::Finish(r) && r.is_cancelled_empty()
}

/// Whether the answers are those to the first `n` questions, in their order.
pub open spec fn answers_first(answers: Seq<Answer>, questions: Seq<Question>, n: int) -> bool {
    answers.len() == n && forall|i: int|
        0 <= i < n ==> (#[trigger] answers[i]).question_id@ == questions[i].id@
}

impl CliDialogue {
    /// Whether a question is left.
    pub open spec fn is_open(self) -> bool {
        self.at < self.questions@.len()
    }

    /// The question that is asked now.
    pub open spec fn question(self) -> Question {
        self.questions@[self.at as int]
    }

    /// Whether `next` is the dialogue with one more answer, at the next question.
    pub open spec fn is_answered(self, next: CliDialogue, a: Answer) -> bool {
        next.questions == self.questions && next.at == self.at + 1 && next.answers@
            == self.answers@.push(a)
    }

    /// Whether each question before the one at hand has its answer, and no other has one.
    pub open spec fn in_step(self) -> bool {
        self.at <= self.questions@.len() && answers_first(self.answers@, self.questions@, self.at as int)
    }

    /// A dialogue at its first question.
    pub fn start(questions: Vec<Question>) -> (r: CliDialogue)
        ensures
            r.questions == questions,
            r.at == 0,
            r.answers@.len() == 0,
            r.in_step(),
    {
        CliDialogue { questions, at: 0, answers: Vec::new() }
    }

    /// Goes on with the question at hand: the answers are complete if there is none; the dialogue
    /// breaks off if it is told to; the question is answered without asking if the environment asks
    /// for that, else it is put.
    pub fn proceed(&mut self, cancelled: bool, strategy: Option<&str>) -> (r: CliAction)
        requires
            forall|i: int|
                0 <= i < old(self).questions@.len() ==> (
                #[trigger] old(self).questions@[i]).options@.len() < usize::MAX,
        ensures
            if !old(self).is_open() {
                &&& r matches CliAction::Finish(res)
                &&& !res.cancelled
                &&& res.answers@ == old(self).answers@
                &&& final(self).questions == old(self).questions
                &&& final(self).at == old(self).at
                &&& final(self).answers@.len() == 0
            } else if cancelled {
                breaks_off(r) && *final(self) == *old(self)
            } else if picks_itself(old(self).question(), opt_str(strategy)) {
                let q = old(self).question();
                &&& r matches CliAction::Say(line)
                &&& final(self).answers@.len() > 0
                &&& is_pick(final(self).answers@.last(), q, seq![favourite(q, 0)])
                &&& old(self).is_answered(*final(self), final(self).answers@.last())
                &&& line@ == "[ask_question:auto-pick] qid="@ + q.id@
                    + " strategy=recommended picks="@ + joined(
                    texts(final(self).answers@.last().option_ids@),
                    ","@,
                )
            } else {
                &&& *final(self) == *old(self)
                &&& r matches CliAction::Ask { lines, prompt }
                &&& texts(lines@) == board(old(self).question())
                &&& prompt@ == answer_prompt(old(self).question())
            },
            old(self).in_step() ==> match r {
                CliAction::Finish(res) => if res.cancelled {
                    res.answers@.len() == 0
                } else {
                    answers_first(
                        res.answers@,
                        old(self).questions@,
                        old(self).questions@.len() as int,
                    )
                },
                _ => final(self).in_step(),
            },
    {
        if self.at >= self.questions.len() {
            let mut done: Vec<Answer> = Vec::new();
            std::mem::swap(&mut done, &mut self.answers);
            return CliAction::Finish(AskQuestionResult { answers: done, cancelled: false });
        }
        if cancelled {
            return CliAction::Finish(cancelled_result());
        }
        let q = &self.questions[self.at];
        if let Some(answer) = auto_pick_answer_for_test(q, strategy) {
            let line = auto_pick_line(q, &answer);
            self.answers.push(answer);
            self.at = self.at + 1;
            return CliAction::Say(line);
        }
        let prompt = if q.allow_multiple {
            "多选(逗号分隔)/c/q > ".to_owned()
        } else {
            "单选/c/q > ".to_owned()
        };
        CliAction::Ask { lines: board_lines(q), prompt }
    }

    /// Takes the line that was read, or that none could be: `q` breaks off, `c` asks for own words,
    /// and numbers pick options. After a line that picks nothing the question is put again.
    pub fn take_line(&mut self, line: Option<&str>, cancelled: bool) -> (r: CliAction)
        requires
            old(self).is_open(),
        ensures
            match line {
                None => breaks_off(r) && *final(self) == *old(self),
                Some(l) => {
                    let q = old(self).question();
                    let said = trimmed(l@);
                    if same_letters(said, "q"@) || cancelled {
                        breaks_off(r) && *final(self) == *old(self)
                    } else if same_letters(said, "c"@) {
                        &&& *final(self) == *old(self)
                        &&& r matches CliAction::AskCustom { prompt }
                        &&& prompt@ == "自定义内容（1-500 字符）> "@
                    } else if picks(q, said).len() == 0 {
                        &&& *final(self) == *old(self)
                        &&& r matches CliAction::Say(m)
                        &&& m@ == "(无效输入，请重试)"@
                    } else {
                        &&& r is Next
                        &&& final(self).answers@.len() > 0
                        &&& is_pick(final(self).answers@.last(), q, picks(q, said))
                        &&& old(self).is_answered(*final(self), final(self).answers@.last())
                    }
                },
            },
            old(self).in_step() ==> final(self).in_step(),
    {
        match line {
            None => CliAction::Finish(cancelled_result()),
            Some(l) => {
                let said = trim(l);
                let word = to_ascii_lower(said.as_str());
                if same(word.as_str(), "q") || cancelled {
                    return CliAction::Finish(cancelled_result());
                }
                if same(word.as_str(), "c") {
                    return CliAction::AskCustom {
                        prompt: "自定义内容（1-500 字符）> ".to_owned(),
                    };
                }
                let n: usize = self.questions.len();
                assert(self.at < n);
                let q = &self.questions[self.at];
                let ps = read_picks(q, said.as_str());
                assert(picks(*q, said@).len() == ps@.len());
                if ps.len() == 0 {
                    return CliAction::Say("(无效输入，请重试)".to_owned());
                }
                let answer = pick_answer(q, &ps);
                self.answers.push(answer);
                self.at = self.at + 1;
                CliAction::Next
            },
        }
    }

    /// Takes the own words that were read, or that none could be. After words that cannot be taken
    /// the question is put again.
    pub fn take_custom(&mut self, text: Option<&str>) -> (r: CliAction)
        requires
            old(self).is_open(),
        ensures
            match text {
                None => breaks_off(r) && *final(self) == *old(self),
                Some(t) => if fits(trimmed(t@)) {
                    &&& r is Next
                    &&& final(self).answers@.len() > 0
                    &&& is_custom(final(self).answers@.last(), old(self).question(), trimmed(t@))
                    &&& old(self).is_answered(*final(self), final(self).answers@.last())
                } else {
                    &&& *final(self) == *old(self)
                    &&& r matches CliAction::Say(m)
                    &&& m@ == "(无效自定义文本，回到选项)"@
                },
            },
            old(self).in_step() ==> final(self).in_step(),
    {
        match text {
            None => CliAction::Finish(cancelled_result()),
            Some(t) => {
                let n: usize = self.questions.len();
                assert(self.at < n);
                let q = &self.questions[self.at];
                match custom_answer(q, t) {
                    Some(answer) => {
                        self.answers.push(answer);
                        self.at = self.at + 1;
                        CliAction::Next
                    },
                    None => CliAction::Say("(无效自定义文本，回到选项)".to_owned()),
                }
            },
        }
    }
}

// ---------------------------------------------------------------- laws

proof fn lemma_no_reserved_option(q: Question, from: int)
    requires
        0 <= from <= q.options@.len(),
        first_option_fault(q, from) is None,
    ensures
        forall|i: int|
            from <= i < q.options@.len() ==> (#[trigger] q.options@[i]).id@ != CUSTOM_OPTION_ID@,
    decreases q.options@.len() - from,
{
    if from < q.options@.len() {
        assert(option_fault(q, from) is None);
        lemma_no_reserved_option(q, from + 1);
    }
}

proof fn lemma_all_known(q: Question, ps: Seq<Seq<char>>, from: int)
    requires
        0 <= from,
        forall|i: int|
            0 <= i < ps.len() ==> (#[trigger] ps[i]) == CUSTOM_OPTION_ID@ || has_option(q, ps[i]),
    ensures
        first_unknown(q, ps, from) is None,
    decreases ps.len() - from,
{
    if from < ps.len() {
        assert(ps[from] == CUSTOM_OPTION_ID@ || has_option(q, ps[from]));
        lemma_all_known(q, ps, from + 1);
    }
}

/// An answer that picks options of a question that may be asked is one that the tool accepts.
pub proof fn law_picks_are_accepted(a: Answer, q: Question, ps: Seq<int>)
    requires
        question_fault(q) is None,
        is_pick(a, q, ps),
        ps.len() > 0,
        q.allow_multiple || ps.len() == 1,
        forall|k: int| 0 <= k < ps.len() ==> 0 <= #[trigger] ps[k] < q.options@.len(),
    ensures
        answer_fault(q, a) is None,
{
    lemma_no_reserved_option(q, 0);
    let ids = texts(a.option_ids@);
    assert forall|i: int| 0 <= i < ids.len() implies has_option(q, #[trigger] ids[i]) && ids[i]
        != CUSTOM_OPTION_ID@ by {
        assert(ids[i] == q.options@[ps[i]].id@);
    }
    assert(a.option_ids@.len() == ids.len());
    assert(!picks_custom(a)) by {
        if picks_custom(a) {
            let i = choose|i: int| 0 <= i < a.option_ids@.len() && (#[trigger] a.option_ids@[i])@
                == CUSTOM_OPTION_ID@;
            assert(ids[i] == CUSTOM_OPTION_ID@);
        }
    }
    lemma_all_known(q, ids, 0);
}

/// An answer in own words that fit is one that the tool accepts.
pub proof fn law_own_words_are_accepted(a: Answer, q: Question, words: Seq<char>)
    requires
        is_custom(a, q, words),
        fits(words),
    ensures
        answer_fault(q, a) is None,
{
    let ids = texts(a.option_ids@);
    assert(ids.len() == 1 && a.option_ids@.len() == 1);
    assert(ids[0] == a.option_ids@[0]@);
    assert(picks_custom(a));
    lemma_all_known(q, ids, 0);
}

/// A piece of an answer picks by its number: the number one the first option, and so on; what is no
/// number, or the number of no option, picks nothing.
pub proof fn law_pieces_pick_by_number(piece: Seq<char>, n: nat, k: nat)
    ensures
        1 <= k <= n && parsed(trimmed(piece), usize::MAX as nat) == Some(k) ==> piece_pick(piece, n)
            == Some((k - 1) as int),
        piece_pick(piece, n) matches Some(i) ==> 0 <= i < n && parsed(
            trimmed(piece),
            usize::MAX as nat,
        ) == Some((i + 1) as nat),
        parsed(trimmed(piece), usize::MAX as nat) is None ==> piece_pick(piece, n) is None,
        parsed(trimmed(piece), usize::MAX as nat) == Some(k) && (k == 0 || k > n) ==> piece_pick(
            piece,
            n,
        ) is None,
{
}

/// The picks of an answer are those of its first pieces and then those of the others.
pub proof fn law_picks_come_in_the_order_typed(a: Seq<Seq<char>>, b: Seq<Seq<char>>, n: nat)
    ensures
        named_picks(a + b, n) == named_picks(a, n) + named_picks(b, n),
        b.len() == 1 ==> named_picks(b, n) == (match piece_pick(b[0], n) {
            Some(i) => seq![i],
            None => Seq::empty(),
        }),
    decreases b.len(),
{
    if b.len() == 0 {
        assert(a + b =~= a);
        assert(named_picks(a, n) + named_picks(b, n) =~= named_picks(a, n));
    } else {
        law_picks_come_in_the_order_typed(a, b.drop_last(), n);
        assert((a + b).drop_last() =~= a + b.drop_last());
        assert((a + b).last() == b.last());
        assert(named_picks(a + b, n) =~= named_picks(a, n) + named_picks(b, n));
        if b.len() == 1 {
            assert(b.drop_last() =~= Seq::<Seq<char>>::empty());
            assert(named_picks(b.drop_last(), n) =~= Seq::<int>::empty());
            assert(named_picks(b, n) =~= (match piece_pick(b[0], n) {
                Some(i) => seq![i],
                None => Seq::empty(),
            }));
        }
    }
}

proof fn lemma_numbers_typed(ps: Seq<Seq<char>>, ks: Seq<nat>, n: nat)
    requires
        ps.len() == ks.len(),
        n <= usize::MAX,
        forall|i: int| 0 <= i < ks.len() ==> 1 <= #[trigger] ks[i] <= n && trimmed(ps[i]) == decimal(ks[i]),
    ensures
        named_picks(ps, n) == ks.map_values(|k: nat| k - 1),
    decreases ps.len(),
{
    if ps.len() > 0 {
        let fewer = ks.drop_last();
        assert forall|i: int| 0 <= i < fewer.len() implies 1 <= #[trigger] fewer[i] <= n && trimmed(
            ps.drop_last()[i],
        ) == decimal(fewer[i]) by {
            assert(fewer[i] == ks[i]);
        }
        lemma_numbers_typed(ps.drop_last(), fewer, n);
        let k = ks[ks.len() - 1];
        assert(trimmed(ps[ps.len() - 1]) == decimal(k));
        crate::numerals::law_written_numbers_are_parsed(k, usize::MAX as nat);
    }
    assert(named_picks(ps, n) =~= ks.map_values(|k: nat| k - 1));
}

/// Numbers that are typed with commas between them pick the options that the board shows with these
/// numbers, in the order typed, with white space around them or without; where only one may be picked,
/// the first number counts.
pub proof fn law_typed_numbers_pick_their_options(q: Question, ps: Seq<Seq<char>>, ks: Seq<nat>)
    requires
        q.options@.len() <= usize::MAX,
        ps.len() == ks.len(),
        ps.len() > 0,
        forall|i: int|
            0 <= i < ks.len() ==> 1 <= #[trigger] ks[i] <= q.options@.len() && trimmed(ps[i])
                == decimal(ks[i]),
        forall|i: int| 0 <= i < ps.len() ==> !(#[trigger] ps[i]).contains(','),
    ensures
        picks(q, joined(ps, seq![','])).len() == (if q.allow_multiple {
            ks.len()
        } else {
            1
        }),
        forall|i: int|
            0 <= i < picks(q, joined(ps, seq![','])).len() ==> #[trigger] picks(
                q,
                joined(ps, seq![',']),
            )[i] == ks[i] - 1,
{
    crate::search::law_joined_texts_are_cut_again(ps, ',');
    lemma_numbers_typed(ps, ks, q.options@.len());
}

/// The number of an option, typed alone, picks exactly the option that the board shows with it.
pub proof fn law_typed_number_picks_its_option(q: Question, k: nat)
    requires
        1 <= k <= q.options@.len(),
        q.options@.len() <= usize::MAX,
    ensures
        picks(q, decimal(k)) == seq![k - 1],
        crate::search::has_prefix(
            board(q)[k as int],
            "  "@ + decimal(k) + ". "@ + q.options@[k - 1].label@,
        ),
{
    let s = decimal(k);
    crate::numerals::law_written_numbers_are_parsed(k, usize::MAX as nat);
    assert forall|i: int| 0 <= i < s.len() implies s[i] != ',' && !crate::text::white(s[i]) by {
        assert('0' <= s[i] <= '9');
    }
    assert('0' <= s[s.len() - 1] <= '9');
    crate::text::law_tidy_text_is_not_trimmed(s);
    assert(joined(seq![s], seq![',']) == s);
    law_typed_numbers_pick_their_options(q, seq![s], seq![k]);
    assert(picks(q, s) =~= seq![k - 1]);
    let shown = "  "@ + decimal(k) + ". "@ + q.options@[k - 1].label@;
    let line = option_line(q, k - 1);
    assert(board(q)[k as int] == line);
    assert(line.subrange(0, shown.len() as int) =~= shown);
}

/// The board shows the question first, then every option in its place, marked exactly if it is
/// recommended, and then the two ways out.
pub proof fn law_board_shows_every_option(q: Question, i: int)
    requires
        0 <= i < q.options@.len(),
    ensures
        board(q).len() == q.options@.len() + 3,
        crate::search::has_suffix(board(q)[0], q.prompt@),
        q.options@[i].recommended ==> board(q)[i + 1] == "  "@ + decimal((i + 1) as nat) + ". "@
            + q.options@[i].label@ + " — 推荐"@,
        !q.options@[i].recommended ==> board(q)[i + 1] == "  "@ + decimal((i + 1) as nat) + ". "@
            + q.options@[i].label@,
        crate::search::has_prefix(board(q)[board(q).len() - 2], "  c. "@),
        crate::search::has_prefix(board(q).last(), "  q. "@),
{
    reveal_strlit("");
    reveal_strlit("  c. ");
    reveal_strlit("  q. ");
    reveal_strlit("  c. 自定义…");
    reveal_strlit("  q. 取消");
    let n = q.options@.len() as int;
    let first = "\n"@ + q.prompt@;
    assert(board(q)[0] == first);
    assert(first.subrange(first.len() - q.prompt@.len(), first.len() as int) =~= q.prompt@);
    let line = "  "@ + decimal((i + 1) as nat) + ". "@ + q.options@[i].label@;
    assert(board(q)[i + 1] == option_line(q, i));
    assert(line + ""@ =~= line);
    assert(board(q)[n + 1] == "  c. 自定义…"@);
    assert(board(q)[n + 2] == "  q. 取消"@);
    assert("  c. 自定义…"@.subrange(0, 5) =~= "  c. "@);
    assert("  q. 取消"@.subrange(0, 5) =~= "  q. "@);
}

/// An answer that picks names its question and the options that are picked, one id for each pick in its
/// place; it counts as the recommended one exactly if a picked option is.
pub proof fn law_answers_name_what_was_picked(a: Answer, q: Question, ps: Seq<int>)
    requires
        is_pick(a, q, ps),
    ensures
        a.question_id@ == q.id@,
        a.option_ids@.len() == ps.len(),
        forall|k: int| 0 <= k < ps.len() ==> (#[trigger] a.option_ids@[k])@ == q.options@[ps[k]].id@,
        a.picked_recommended <==> exists|k: int|
            0 <= k < ps.len() && q.options@[#[trigger] ps[k]].recommended,
        a.custom_text is None,
        !a.skipped,
{
    let ids = texts(a.option_ids@);
    assert(ids.len() == ps.len());
    assert forall|k: int| 0 <= k < ps.len() implies (#[trigger] a.option_ids@[k])@
        == q.options@[ps[k]].id@ by {
        assert(ids[k] == a.option_ids@[k]@);
    }
}

proof fn lemma_favourite(q: Question, from: int)
    requires
        0 <= from <= q.options@.len(),
    ensures
        ({
            let f = favourite(q, from);
            ||| from <= f < q.options@.len() && q.options@[f].recommended && forall|j: int|
                from <= j < f ==> !(#[trigger] q.options@[j]).recommended
            ||| f == 0 && forall|j: int|
                from <= j < q.options@.len() ==> !(#[trigger] q.options@[j]).recommended
        }),
    decreases q.options@.len() - from,
{
    if from < q.options@.len() && !q.options@[from].recommended {
        lemma_favourite(q, from + 1);
    }
}

/// What is picked without asking is recommended if anything is, and nothing before it is; else it is the
/// first option.
pub proof fn law_favourite_is_recommended(q: Question, i: int)
    requires
        0 <= i < q.options@.len(),
    ensures
        0 <= favourite(q, 0) < q.options@.len(),
        q.options@[i].recommended ==> q.options@[favourite(q, 0)].recommended && favourite(q, 0) <= i,
        !q.options@[favourite(q, 0)].recommended ==> favourite(q, 0) == 0,
{
    lemma_favourite(q, 0);
}

/// Own words are one to five hundred characters, and stand in the answer as they are.
pub proof fn law_own_words_stand_as_they_are(a: Answer, q: Question, words: Seq<char>)
    ensures
        fits(words) <==> 1 <= words.len() <= 500,
        is_custom(a, q, words) ==> {
            &&& a.custom_text is Some
            &&& a.custom_text->0@ == words
            &&& a.question_id@ == q.id@
            &&& a.option_ids@.len() == 1
            &&& a.option_ids@[0]@ == "__custom__"@
            &&& !a.picked_recommended
            &&& !a.skipped
        },
{
    if is_custom(a, q, words) {
        let ids = texts(a.option_ids@);
        assert(ids.len() == 1);
        assert(ids[0] == a.option_ids@[0]@);
    }
}

/// The panel answers by itself only if it is told to by that one word, in any case, and has something to
/// pick.
pub proof fn law_panel_picks_itself_only_when_told(q: Question, strategy: Option<Seq<char>>)
    ensures
        strategy is None ==> !picks_itself(q, strategy),
        strategy matches Some(s) ==> (picks_itself(q, strategy) <==> ascii_lowered(s) == "recommended"@
            && q.options@.len() > 0),
{
}

/// The prompt tells whether several numbers may be typed, with commas between them, or one.
pub proof fn law_prompts_tell_how_many(q: Question)
    ensures
        q.allow_multiple ==> answer_prompt(q) == "多选(逗号分隔)/c/q > "@,
        !q.allow_multiple ==> answer_prompt(q) == "单选/c/q > "@,
{
}

/// In a dialogue every question before the one at hand has its answer, the first one too, in the order of the
/// questions; the question at hand and those behind it have none.
pub proof fn law_answers_go_with_their_questions(d: CliDialogue, i: int)
    requires
        d.in_step(),
    ensures
        d.answers@.len() == d.at,
        d.at <= d.questions@.len(),
        0 <= i < d.at ==> d.answers@[i].question_id@ == d.questions@[i].id@,
        d.is_open() <==> d.answers@.len() < d.questions@.len(),
{
}

} // verus!
