//! The panels on which questions are asked.

pub mod ask_question_wire;
pub mod cli_ask_question_panel;
pub mod ide_ask_question_panel;

pub use ask_question_wire::{
    ask_question_request_event_name, ask_question_response_event_name, AskQuestionWireRequest,
    AskQuestionWireResponse, EventBusAskQuestionPanel,
};
pub use cli_ask_question_panel::CliAskQuestionPanel;
pub use ide_ask_question_panel::IdeAskQuestionPanel;
