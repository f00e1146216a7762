//! The commands that the chat handles itself before a line goes to the model.

pub mod cmd_ckpt;
pub mod cmd_compact;
pub mod cmd_effort;
pub mod cmd_help;
pub mod cmd_install;
pub mod cmd_model;
pub mod cmd_path;
pub mod cmd_plan;
pub mod cmd_restore;
pub mod cmd_restore_args;
pub mod cmd_skill;
pub mod cmd_thinking;
pub mod parse;
pub mod restore_walk;

pub use cmd_help::help_text;
pub use cmd_install::{InstallCommand, InstallTarget};
pub use cmd_model::ModelCommand;
pub use cmd_plan::PlanCommand;
pub use cmd_skill::SkillCommand;
pub use cmd_thinking::ThinkingAction;
pub use parse::{dispatch_chat_command, parse_chat_command, ChatCommand, ChatCommandOutcome};
