//! Questions to the user, and their answers.

use vstd::prelude::*;

verus! {

/// The id of the slot for an answer in the user's own words. No option may have it.
pub const CUSTOM_OPTION_ID: &'static str = "__custom__";

/// A question with its options.
#[derive(Clone, Debug, PartialEq, Eq)]
pub struct Question {
    pub id: String,
    pub prompt: String,
    pub allow_multiple: bool,
    pub options: Vec<QuestionOption>,
}

/// One option of a question.
#[derive(Clone, Debug, PartialEq, Eq)]
pub struct QuestionOption {
    pub id: String,
    pub label: String,
    pub recommended: bool,
}

/// The answer to one question.
#[derive(Clone, Debug, PartialEq, Eq)]
pub struct Answer {
    pub question_id: String,
    pub option_ids: Vec<String>,
    /// The user's own words, if the custom slot was picked.
    pub custom_text: Option<String>,
    pub skipped: bool,
    /// Whether the recommended option is among the picks.
    pub picked_recommended: bool,
}

/// What came back from the user.
#[derive(Clone, Debug, PartialEq, Eq)]
pub struct AskQuestionResult {
    pub answers: Vec<Answer>,
    /// Whether the user broke off; there are no answers then.
    pub cancelled: bool,
}

impl AskQuestionResult {
    /// Whether this is what a broken-off dialogue gives.
    pub open spec fn is_cancelled_empty(self) -> bool {
        self.cancelled && self.answers@.len() == 0
    }
}

/// The result of a dialogue that was broken off.
pub fn cancelled_result() -> (r: AskQuestionResult)
    ensures
        r.is_cancelled_empty(),
{
    AskQuestionResult { answers: Vec::new(), cancelled: true }
}

/// A panel that gives prepared results, one after the other.
pub struct MockAskQuestionPanel {
    pub queue: Vec<AskQuestionResult>,
    /// How long it waits before it answers, in milliseconds.
    pub delay_ms: Option<u64>,
    /// Whether it breaks off when it is told to.
    pub honor_cancel: bool,
}

impl MockAskQuestionPanel {
    /// A panel that gives these results.
    pub fn new(results: Vec<AskQuestionResult>) -> (r: MockAskQuestionPanel)
        ensures
            r.queue == results,
            r.delay_ms is None,
            r.honor_cancel,
    {
        MockAskQuestionPanel { queue: results, delay_ms: None, honor_cancel: true }
    }

    /// The panel, waiting before it answers.
    pub fn with_delay(self, delay_ms: u64) -> (r: MockAskQuestionPanel)
        ensures
            r == (MockAskQuestionPanel { delay_ms: Some(delay_ms), ..self }),
    {
        MockAskQuestionPanel {
            queue: self.queue,
            delay_ms: Some(delay_ms),
            honor_cancel: self.honor_cancel,
        }
    }

    /// The panel, answering although it is told to break off.
    pub fn ignore_cancel(self) -> (r: MockAskQuestionPanel)
        ensures
            r == (MockAskQuestionPanel { honor_cancel: false, ..self }),
    {
        MockAskQuestionPanel { queue: self.queue, delay_ms: self.delay_ms, honor_cancel: false }
    }

    /// How many prepared results are left.
    pub fn remaining(&self) -> (r: usize)
        ensures
            r == self.queue@.len(),
    {
        self.queue.len()
    }

    /// The next prepared result. The dialogue is broken off, and no result used up, if the panel
    /// was told to break off, before it started or while it waited.
    pub fn ask(&mut self, cancelled_before: bool, cancelled_while_waiting: bool) -> (r:
        AskQuestionResult)
        ensures
            if old(self).honor_cancel && (cancelled_before || (old(self).delay_ms is Some
                && cancelled_while_waiting)) {
                r.is_cancelled_empty() && *final(self) == *old(self)
            } else if old(self).queue@.len() == 0 {
                r.is_cancelled_empty() && *final(self) == *old(self)
            } else {
                r == old(self).queue@[0] && final(self).queue@ == old(self).queue@.drop_first()
                    && final(self).delay_ms == old(self).delay_ms && final(self).honor_cancel
                    == old(self).honor_cancel
            },
    {
        if self.honor_cancel && (cancelled_before || (self.delay_ms.is_some()
            && cancelled_while_waiting)) {
            return cancelled_result();
        }
        if self.queue.len() == 0 {
            return cancelled_result();
        }
        let ghost before = self.queue@;
        let r = self.queue.remove(0);
        assert(self.queue@ =~= before.drop_first());
        r
    }
}

} // verus!
