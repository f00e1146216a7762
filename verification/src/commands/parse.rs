//! Recognising a command line and taking it apart.
//!
//! Command names are in lower case. A line whose first word is not one of them is ordinary chat,
//! whether or not it starts with a slash.

use vstd::prelude::*;
use vstd::string::*;

use crate::commands::cmd_ckpt;
use crate::commands::cmd_effort;
use crate::commands::cmd_help;
use crate::commands::cmd_install;
use crate::commands::cmd_install::InstallCommand;
use crate::commands::cmd_model;
use crate::commands::cmd_model::ModelCommand;
use crate::commands::cmd_path;
use crate::commands::cmd_plan;
use crate::commands::cmd_plan::PlanCommand;
use crate::commands::cmd_restore_args;
use crate::commands::cmd_skill;
use crate::commands::cmd_skill::SkillCommand;
use crate::commands::cmd_thinking;
use crate::commands::cmd_thinking::ThinkingAction;
use crate::search::leading_word;
#[allow(unused_imports)]
use crate::search::first_word;
use crate::settings::ThinkingLevel;
use crate::text::{cat, cat3, one_text, same, trim};
#[allow(unused_imports)]
use crate::text::{texts, trimmed};

verus! {

/// What a line of input is.
#[derive(Clone, Debug, PartialEq, Eq)]
pub enum ChatCommand {
    /// No command: the line goes to the model.
    NotACommand(String),
    /// `/path <path>`.
    Path { path: String, original_line: String },
    /// `/help`.
    Help,
    /// `/thinking minimal|summary|full|toggle`.
    Thinking { action: ThinkingAction },
    /// `/effort low|medium|high|xhigh`.
    Effort { level: ThinkingLevel },
    /// `/model current|list|use <id>`.
    Model(ModelCommand),
    /// `/compact`.
    Compact,
    /// `/ckpt list`.
    CkptList { limit: Option<usize> },
    /// `/ckpt show <id>`.
    CkptShow { checkpoint_id: String },
    /// `/ckpt diff <id>`.
    CkptDiff { checkpoint_id: String },
    /// `/restore <id> [--path <rel>]... [--dry-run]`.
    Restore { checkpoint_id: String, paths: Vec<String>, dry_run: bool },
    /// `/install <source> [target]`.
    Install(InstallCommand),
    /// `/skill list|reload|use`.
    Skill(SkillCommand),
    /// `/plan [exit|build|list]`.
    Plan(PlanCommand),
    /// A command with arguments that it does not take.
    UsageError { message: String },
}

/// What a command leaves to do.
#[derive(Clone, Debug, PartialEq, Eq)]
pub enum ChatCommandOutcome {
    /// Send `line` to the model as the user's turn; `history_line` is what the history of inputs
    /// keeps in its place.
    Continue { line: String, echo_user: bool, history_line: Option<String> },
    /// Nothing.
    Handled,
}

/// Whether `r` is a usage error with this message.
pub open spec fn is_usage(r: ChatCommand, message: Seq<char>) -> bool {
    r matches ChatCommand::UsageError { message: m } && m@ == message
}

/// Whether `r` hands this line to the model.
pub open spec fn is_chat(r: ChatCommand, line: Seq<char>) -> bool {
    r matches ChatCommand::NotACommand(l) && l@ == line
}

/// A usage error with this message.
pub fn usage(message: &str) -> (r: ChatCommand)
    ensures
        is_usage(r, message@),
{
    ChatCommand::UsageError { message: message.to_owned() }
}

/// The words that open a command.
pub open spec fn is_command_word(w: Seq<char>) -> bool {
    ||| w == "/path"@
    ||| w == "/help"@
    ||| w == "/thinking"@
    ||| w == "/effort"@
    ||| w == "/model"@
    ||| w == "/compact"@
    ||| w == "/ckpt"@
    ||| w == "/restore"@
    ||| w == "/install"@
    ||| w == "/skill"@
    ||| w == "/plan"@
}

/// Whether `w` opens a command.
pub fn opens_command(w: &str) -> (r: bool)
    ensures
        r == is_command_word(w@),
{
    same(w, "/path") || same(w, "/help") || same(w, "/thinking") || same(w, "/effort") || same(
        w,
        "/model",
    ) || same(w, "/compact") || same(w, "/ckpt") || same(w, "/restore") || same(w, "/install")
        || same(w, "/skill") || same(w, "/plan")
}

/// The words of a shell command line; none if a quote is left open.
pub uninterp spec fn shell_words(s: Seq<char>) -> Option<Seq<Seq<char>>>;

/// `shell_words::split`: the words of a command line by the rules of the Unix shell. Which words
/// come out is a function of the line alone; it fails only with the one error there is, whose
/// message is fixed.
#[verifier::external_body]
pub(crate) fn split_shell_words(s: &str) -> (r: Result<Vec<String>, String>)
    ensures
        match r {
            Ok(tokens) => shell_words(s@) == Some(texts(tokens@)),
            Err(e) => shell_words(s@) is None && e@ == "missing closing quote"@,
        },
{
    match shell_words::split(s) {
        Ok(tokens) => Ok(tokens),
        Err(e) => Err(e.to_string()),
    }
}

/// What a command word and the words of its line mean.
pub open spec fn tokens_mean(
    word: Seq<char>,
    tokens: Seq<Seq<char>>,
    line: Seq<char>,
    r: ChatCommand,
) -> bool {
    if word == "/path"@ {
        cmd_path::means(tokens, line, r)
    } else if word == "/help"@ {
        cmd_help::means(tokens, r)
    } else if word == "/thinking"@ {
        cmd_thinking::means(tokens, r)
    } else if word == "/effort"@ {
        cmd_effort::means(tokens, r)
    } else if word == "/model"@ {
        cmd_model::means(tokens, r)
    } else if word == "/compact"@ {
        if tokens.len() == 1 {
            r is Compact
        } else {
            is_usage(r, "用法错误：/compact 不接受参数。"@)
        }
    } else if word == "/ckpt"@ {
        cmd_ckpt::means(tokens, r)
    } else if word == "/restore"@ {
        cmd_restore_args::means(tokens, r)
    } else if word == "/install"@ {
        cmd_install::means(tokens, r)
    } else if word == "/skill"@ {
        cmd_skill::means(tokens, r)
    } else if word == "/plan"@ {
        cmd_plan::means(tokens, r)
    } else {
        is_chat(r, line)
    }
}

/// What the words of a line mean whose first word is `word`.
pub fn parse_tokens(word: &str, tokens: Vec<String>, line: &str) -> (r: ChatCommand)
    ensures
        tokens_mean(word@, texts(tokens@), line@, r),
{
    if same(word, "/path") {
        cmd_path::parse_args(tokens, line)
    } else if same(word, "/help") {
        cmd_help::parse_args(tokens)
    } else if same(word, "/thinking") {
        cmd_thinking::parse_args(tokens)
    } else if same(word, "/effort") {
        cmd_effort::parse_args(tokens)
    } else if same(word, "/model") {
        cmd_model::parse_args(tokens)
    } else if same(word, "/compact") {
        if tokens.len() == 1 {
            ChatCommand::Compact
        } else {
            usage("用法错误：/compact 不接受参数。")
        }
    } else if same(word, "/ckpt") {
        cmd_ckpt::parse_ckpt_args(tokens)
    } else if same(word, "/restore") {
        cmd_restore_args::parse_restore_args(tokens)
    } else if same(word, "/install") {
        cmd_install::parse_args(tokens)
    } else if same(word, "/skill") {
        cmd_skill::parse_args(tokens)
    } else if same(word, "/plan") {
        cmd_plan::parse_args(tokens)
    } else {
        ChatCommand::NotACommand(line.to_owned())
    }
}

/// What a line of input means.
pub open spec fn line_means(line: Seq<char>, r: ChatCommand) -> bool {
    let t = trimmed(line);
    if !is_command_word(first_word(t)) {
        is_chat(r, line)
    } else {
        match shell_words(t) {
            None => is_usage(r, "命令参数解析失败："@ + "missing closing quote"@),
            Some(tokens) => tokens_mean(first_word(t), tokens, t, r),
        }
    }
}

/// What a line of input is.
pub fn parse_chat_command(line: &str) -> (r: ChatCommand)
    ensures
        line_means(line@, r),
{
    let t = trim(line);
    let word = leading_word(t.as_str());
    if !opens_command(word.as_str()) {
        return ChatCommand::NotACommand(line.to_owned());
    }
    match split_shell_words(t.as_str()) {
        Ok(tokens) => parse_tokens(word.as_str(), tokens, t.as_str()),
        Err(e) => ChatCommand::UsageError { message: cat("命令参数解析失败：", e.as_str()) },
    }
}

/// What becomes of a command.
#[derive(Clone, Debug, PartialEq, Eq)]
pub enum Dispatch {
    /// It is done once the lines are printed.
    Done { lines: Vec<String>, outcome: ChatCommandOutcome },
    /// It has work to do.
    Run(ChatCommand),
}

/// Decides what becomes of a command: a plain line goes on to the model, help and usage errors
/// are printed, everything else is run.
pub fn dispatch_chat_command(command: ChatCommand) -> (r: Dispatch)
    ensures
        match command {
            ChatCommand::NotACommand(line) => r matches Dispatch::Done { lines, outcome }
                && lines@.len() == 0 && outcome == (ChatCommandOutcome::Continue {
                line,
                echo_user: false,
                history_line: None,
            }),
            ChatCommand::Help => r matches Dispatch::Done { lines, outcome } && texts(lines@)
                == seq![cmd_help::help()] && outcome is Handled,
            ChatCommand::UsageError { message } => r matches Dispatch::Done { lines, outcome }
                && texts(lines@) == seq![message@ + "\n\n"@ + cmd_help::help()]
                && outcome is Handled,
            _ => r == Dispatch::Run(command),
        },
{
    match command {
        ChatCommand::NotACommand(line) => Dispatch::Done {
            lines: Vec::new(),
            outcome: ChatCommandOutcome::Continue { line, echo_user: false, history_line: None },
        },
        ChatCommand::Help => Dispatch::Done {
            lines: one_text(cmd_help::help_text().to_owned()),
            outcome: ChatCommandOutcome::Handled,
        },
        ChatCommand::UsageError { message } => Dispatch::Done {
            lines: one_text(cat3(message.as_str(), "\n\n", cmd_help::help_text())),
            outcome: ChatCommandOutcome::Handled,
        },
        other => Dispatch::Run(other),
    }
}

// ---------------------------------------------------------------- laws

/// A line whose first word is not a command is ordinary chat, unchanged, whatever follows and
/// whether or not it starts with a slash.
pub proof fn law_unknown_commands_are_chat(line: Seq<char>, r: ChatCommand)
    requires
        line_means(line, r),
        !is_command_word(first_word(trimmed(line))),
    ensures
        is_chat(r, line),
{
}

/// Every command starts with a slash, and none has a capital letter: the case of a command counts.
pub proof fn law_command_words_are_in_lower_case(w: Seq<char>)
    requires
        is_command_word(w),
    ensures
        w.len() > 0,
        w[0] == '/',
        forall|i: int| 0 < i < w.len() ==> 'a' <= #[trigger] w[i] <= 'z',
{
    reveal_strlit("/path");
    reveal_strlit("/help");
    reveal_strlit("/thinking");
    reveal_strlit("/effort");
    reveal_strlit("/model");
    reveal_strlit("/compact");
    reveal_strlit("/ckpt");
    reveal_strlit("/restore");
    reveal_strlit("/install");
    reveal_strlit("/skill");
    reveal_strlit("/plan");
}

/// Every command is read by its own rules: the words of a line decide by the first of them, and by nothing
/// else; a quotation that is not closed is refused.
pub proof fn law_commands_are_read_by_their_own_rules(line: Seq<char>, tokens: Seq<Seq<char>>, r: ChatCommand)
    requires
        line_means(line, r),
    ensures
        ({
            let t = trimmed(line);
            let word = first_word(t);
            &&& is_command_word(word) && shell_words(t) is None ==> r is UsageError
            &&& is_command_word(word) && shell_words(t) == Some(tokens) ==> {
                &&& word == "/restore"@ ==> cmd_restore_args::means(tokens, r)
                &&& word == "/ckpt"@ ==> cmd_ckpt::means(tokens, r)
                &&& word == "/plan"@ ==> cmd_plan::means(tokens, r)
                &&& word == "/model"@ ==> cmd_model::means(tokens, r)
                &&& word == "/effort"@ ==> cmd_effort::means(tokens, r)
                &&& word == "/thinking"@ ==> cmd_thinking::means(tokens, r)
                &&& word == "/install"@ ==> cmd_install::means(tokens, r)
                &&& word == "/skill"@ ==> cmd_skill::means(tokens, r)
                &&& word == "/path"@ ==> cmd_path::means(tokens, t, r)
                &&& word == "/help"@ ==> cmd_help::means(tokens, r)
                &&& word == "/compact"@ && tokens.len() == 1 ==> r is Compact
                &&& word == "/compact"@ && tokens.len() != 1 ==> r is UsageError
            }
        }),
{
    reveal_strlit("/path");
    reveal_strlit("/help");
    reveal_strlit("/thinking");
    reveal_strlit("/effort");
    reveal_strlit("/model");
    reveal_strlit("/compact");
    reveal_strlit("/ckpt");
    reveal_strlit("/restore");
    reveal_strlit("/install");
    reveal_strlit("/skill");
    reveal_strlit("/plan");
    assert("/path"@[2] == 'a' && "/plan"@[2] == 'l' && "/help"@[1] == 'h' && "/thinking"@[1] == 't'
        && "/effort"@[1] == 'e' && "/model"@[1] == 'm' && "/compact"@[2] == 'o' && "/ckpt"@[2] == 'k'
        && "/restore"@[1] == 'r' && "/install"@[1] == 'i' && "/skill"@[1] == 's');
    assert("/path"@[1] == 'p' && "/plan"@[1] == 'p' && "/compact"@[1] == 'c' && "/ckpt"@[1] == 'c');
}

} // verus!
