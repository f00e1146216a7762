//! The tools with which the model works on plans.

use vstd::prelude::*;

use crate::plan_runtime::file_store::PlanError;
use crate::plan_runtime::ops::OpError;
#[allow(unused_imports)]
use crate::plan_runtime::ops::Refusal;

pub mod ask_question;
pub mod create_plan;
pub mod todos;
pub mod update_plan;

verus! {

/// Why a tool refuses.
#[derive(Clone, Debug, PartialEq, Eq)]
pub enum ToolError {
    /// The tool cannot be seen in the mode of the session.
    InvisibleInMode { tool: String, mode: String },
    /// The arguments are wrong.
    BadArgs(String),
    /// Something that the tool rests on went wrong.
    Internal(String),
    /// Another session works on the plan.
    CrossSessionDenied(String),
    /// The changes to the todos are refused.
    Op(OpError),
    /// The plan's file is wrong.
    Plan(PlanError),
}

/// Why a tool refuses, as mathematics.
pub ghost enum Fault {
    InvisibleInMode { tool: Seq<char>, mode: Seq<char> },
    BadArgs(Seq<char>),
    Internal(Seq<char>),
    CrossSessionDenied(Seq<char>),
    Op(Refusal),
    Plan(PlanError),
}

impl View for ToolError {
    type V = Fault;

    open spec fn view(&self) -> Fault {
        match *self {
            ToolError::InvisibleInMode { tool, mode } => Fault::InvisibleInMode {
                tool: tool@,
                mode: mode@,
            },
            ToolError::BadArgs(m) => Fault::BadArgs(m@),
            ToolError::Internal(m) => Fault::Internal(m@),
            ToolError::CrossSessionDenied(m) => Fault::CrossSessionDenied(m@),
            ToolError::Op(e) => Fault::Op(e@),
            ToolError::Plan(e) => Fault::Plan(e),
        }
    }
}

} // verus!
