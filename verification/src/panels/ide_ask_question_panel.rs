//! The panel of an editor, which cannot ask yet.

use vstd::prelude::*;

use crate::plan_runtime::ask_question_panel::{cancelled_result, AskQuestionResult, Question};

verus! {

/// The panel of an editor: it breaks every dialogue off.
#[derive(Clone, Copy, Debug, PartialEq, Eq)]
pub struct IdeAskQuestionPanel;

impl IdeAskQuestionPanel {
    /// Breaks the dialogue off.
    pub fn ask(&self, questions: &Vec<Question>) -> (r: AskQuestionResult)
        ensures
            r.is_cancelled_empty(),
    {
        cancelled_result()
    }
}

} // verus!
