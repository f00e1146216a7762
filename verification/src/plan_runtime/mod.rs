//! Plans: the modes of work they bring, the files they live in, the questions they raise, and
//! the agents that look at them.

pub mod agent_run;
pub mod ask_question_panel;
pub mod catalog;
pub mod file_store;
pub mod mode;
pub mod ops;
pub mod prod_reviewer;
pub mod prompts;
pub mod review;
pub mod safety;
pub mod session_prefix;
pub mod todo_runtime;
pub mod todos_panel;
pub mod tools;
pub mod verify;

pub use mode::{PlanMode, PlanRuntime, PlanRuntimeError};
