//! The logic of an interactive chat front end for a coding agent.

pub mod cli_turn_renderer;
pub mod commands;
pub mod context;
pub mod numerals;
pub mod order;
pub mod panels;
pub mod paths;
pub mod permission;
pub mod plan_runtime;
pub mod preflight;
pub mod prompt;
pub mod run_loop;
pub mod search;
pub mod settings;
pub mod text;
