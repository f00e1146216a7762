//! The settings that the chat front end reads.

use vstd::prelude::*;

verus! {

/// How much of the model's thinking the terminal shows.
#[derive(Clone, Copy, Debug, PartialEq, Eq, Structural)]
pub enum ThinkingDisplay {
    /// One placeholder per message.
    Minimal,
    /// Summaries only.
    Summary,
    /// Summaries and raw thinking.
    Full,
}

impl ThinkingDisplay {
    /// Whether summaries of thinking are shown.
    pub open spec fn summary_visible(self) -> bool {
        self is Summary || self is Full
    }

    /// Whether raw thinking is shown.
    pub open spec fn raw_visible(self) -> bool {
        self is Full
    }

    /// Whether summaries of thinking are shown.
    pub fn shows_summary(self) -> (r: bool)
        ensures
            r == self.summary_visible(),
    {
        matches!(self, ThinkingDisplay::Summary | ThinkingDisplay::Full)
    }

    /// Whether raw thinking is shown.
    pub fn shows_raw(self) -> (r: bool)
        ensures
            r == self.raw_visible(),
    {
        matches!(self, ThinkingDisplay::Full)
    }
}

/// Where a piece of thinking comes from.
#[derive(Clone, Copy, Debug, PartialEq, Eq, Structural)]
pub enum ThinkingSource {
    Summary,
    Raw,
}

/// How much of the tools' work the terminal shows.
#[derive(Clone, Copy, Debug, PartialEq, Eq, Structural)]
pub enum ToolCliVerbosity {
    Off,
    Brief,
    Full,
}

/// How hard the model is asked to think.
#[derive(Clone, Copy, Debug, PartialEq, Eq, Structural)]
pub enum ThinkingLevel {
    Low,
    Medium,
    High,
    Xhigh,
}

} // verus!
