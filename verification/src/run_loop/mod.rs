//! The loop of the chat: who speaks next, and what follows a turn.

use vstd::prelude::*;
use vstd::string::*;

use crate::numerals::decimal_u64;
#[allow(unused_imports)]
use crate::numerals::decimal;
use crate::run_loop::turn::{is_fatal_error, TurnEnd};
use crate::text::{cat, cat3, one_text, push_text, trim};
#[allow(unused_imports)]
use crate::text::{opt_text, texts, trimmed};

pub mod completion;
pub mod turn;
pub mod workspace_state;

verus! {

/// How many turns may follow one another without the user.
pub const AUTO_TURN_BUDGET: u32 = 8;

/// The lines with which a chat begins.
pub open spec fn greeting(resume: bool, session_key: Seq<char>, model: Seq<char>) -> Seq<Seq<char>> {
    (if resume {
        seq!["恢复会话: "@ + session_key]
    } else {
        Seq::empty()
    }) + seq![
        "tomcat 对话模式 (模型: "@ + model + ")"@,
        "输入消息开始对话，Ctrl+D 退出，Ctrl+C 中断生成。"@,
        "输入 /help 查看命令列表。\n"@,
    ]
}

/// The lines with which a chat begins.
pub fn greeting_lines(resume: bool, session_key: &str, model: &str) -> (r: Vec<String>)
    ensures
        texts(r@) == greeting(resume, session_key@, model@),
{
    let mut v: Vec<String> = Vec::new();
    if resume {
        push_text(&mut v, cat("恢复会话: ", session_key));
    }
    push_text(&mut v, cat3("tomcat 对话模式 (模型: ", model, ")"));
    push_text(&mut v, "输入消息开始对话，Ctrl+D 退出，Ctrl+C 中断生成。".to_owned());
    push_text(&mut v, "输入 /help 查看命令列表。\n".to_owned());
    assert(texts(v@) =~= greeting(resume, session_key@, model@));
    v
}

/// How many turns have followed one another without the user.
#[derive(Clone, Copy, Debug, PartialEq, Eq, Structural)]
pub struct ChatLoop {
    pub auto_turns: u32,
}

/// Whether a round starts without the user: something came from the background, and the budget is not
/// used up.
pub open spec fn starts_alone(auto_turns: u32, queued: nat) -> bool {
    queued > 0 && auto_turns < AUTO_TURN_BUDGET
}

/// The count after a turn: one more if the user said nothing in it, else none.
pub open spec fn counted(auto_turns: u32, input_len: nat) -> int {
    if input_len == 0 {
        auto_turns + 1
    } else {
        0
    }
}

/// How a round of the loop starts.
#[derive(Clone, Debug, PartialEq, Eq)]
pub struct RoundStart {
    /// Whether what came from the background is taken up without the user.
    pub auto_drain: bool,
    /// What the user is told first.
    pub notice: Option<String>,
}

/// What came of waiting for the user.
#[derive(Clone, Debug, PartialEq, Eq)]
pub enum ReadlineEvent {
    Line(String),
    Eof,
    Interrupted,
    /// The wait was cut short, because something came from the background.
    Resize,
    Error(String),
}

/// What follows what the user did.
#[derive(Clone, Debug, PartialEq, Eq)]
pub enum ReadStep {
    /// The chat is over; the line says so, on the terminal or as an error.
    Quit { line: String, is_error: bool },
    /// The user is waited for again.
    Again,
    /// A turn without the user.
    DrainTurn,
    /// The user typed something: a command, or a message.
    Typed(String),
}

/// What follows a turn.
#[derive(Clone, Debug, PartialEq, Eq)]
pub struct AfterTurn {
    /// What goes to the terminal as errors.
    pub error_lines: Vec<String>,
    /// Whether an empty line follows.
    pub blank_line: bool,
    /// Whether the chat ends with the error of the turn.
    pub fatal: bool,
}

impl ChatLoop {
    /// Whether the count is within its budget.
    pub open spec fn wf(self) -> bool {
        self.auto_turns <= AUTO_TURN_BUDGET
    }

    /// A loop in which no turn has been taken.
    pub fn new() -> (r: ChatLoop)
        ensures
            r.wf(),
            r.auto_turns == 0,
    {
        ChatLoop { auto_turns: 0 }
    }

    /// Starts a round: what came from the background is taken up without the user, as long as the
    /// budget lasts. When the user is asked the count starts over, and where the budget was the
    /// reason the user is told so.
    pub fn start_round(&mut self, queued: usize) -> (r: RoundStart)
        requires
            old(self).wf(),
        ensures
            final(self).wf(),
            r.auto_drain == starts_alone(old(self).auto_turns, queued as nat),
            final(self).auto_turns == (if r.auto_drain {
                old(self).auto_turns
            } else {
                0
            }),
            opt_text(r.notice) == (if queued > 0 && old(self).auto_turns >= AUTO_TURN_BUDGET {
                Some(
                    "\n[bg] auto-turn budget exhausted ("@ + decimal(AUTO_TURN_BUDGET as nat)
                        + "); falling back to user input."@,
                )
            } else {
                None
            }),
    {
        let auto_drain = queued > 0 && self.auto_turns < AUTO_TURN_BUDGET;
        if auto_drain {
            return RoundStart { auto_drain: true, notice: None };
        }
        let notice = if self.auto_turns >= AUTO_TURN_BUDGET && queued > 0 {
            Some(
                cat3(
                    "\n[bg] auto-turn budget exhausted (",
                    decimal_u64(AUTO_TURN_BUDGET as u64).as_str(),
                    "); falling back to user input.",
                ),
            )
        } else {
            None
        };
        self.auto_turns = 0;
        RoundStart { auto_drain: false, notice }
    }

    /// Takes what the user did. An empty line, and a wait cut short, take up what came from the
    /// background, if anything did.
    pub fn take_read(&mut self, event: ReadlineEvent, queued: usize) -> (r: ReadStep)
        requires
            old(self).wf(),
        ensures
            final(self).wf(),
            match event {
                ReadlineEvent::Eof => *final(self) == *old(self) && (r matches ReadStep::Quit {
                    line,
                    is_error,
                } && line@ == "\n再见！"@ && !is_error),
                ReadlineEvent::Error(e) => *final(self) == *old(self) && (r matches ReadStep::Quit {
                    line,
                    is_error,
                } && line@ == "输入错误: "@ + e@ && is_error),
                ReadlineEvent::Interrupted => *final(self) == *old(self) && r is Again,
                ReadlineEvent::Resize => if queued > 0 {
                    r is DrainTurn && final(self).auto_turns == 0
                } else {
                    r is Again && *final(self) == *old(self)
                },
                ReadlineEvent::Line(raw) => if trimmed(raw@).len() > 0 {
                    *final(self) == *old(self) && (r matches ReadStep::Typed(t) && t@ == trimmed(
                        raw@,
                    ))
                } else if queued > 0 {
                    r is DrainTurn && final(self).auto_turns == 0
                } else {
                    r is Again && *final(self) == *old(self)
                },
            },
    {
        match event {
            ReadlineEvent::Eof => ReadStep::Quit { line: "\n再见！".to_owned(), is_error: false },
            ReadlineEvent::Error(e) => ReadStep::Quit {
                line: cat("输入错误: ", e.as_str()),
                is_error: true,
            },
            ReadlineEvent::Interrupted => ReadStep::Again,
            ReadlineEvent::Resize => {
                if queued > 0 {
                    self.auto_turns = 0;
                    ReadStep::DrainTurn
                } else {
                    ReadStep::Again
                }
            },
            ReadlineEvent::Line(raw) => {
                let typed = trim(raw.as_str());
                if !typed.as_str().is_empty() {
                    return ReadStep::Typed(typed);
                }
                if queued > 0 {
                    self.auto_turns = 0;
                    ReadStep::DrainTurn
                } else {
                    ReadStep::Again
                }
            },
        }
    }

    /// Counts a turn: one without the user counts, one with the user starts the count over.
    pub fn count_turn(&mut self, input: &str)
        requires
            old(self).wf(),
            input@.len() == 0 ==> old(self).auto_turns < AUTO_TURN_BUDGET,
        ensures
            final(self).wf(),
            final(self).auto_turns == counted(old(self).auto_turns, input@.len()),
    {
        if input.is_empty() {
            self.auto_turns = self.auto_turns + 1;
        } else {
            self.auto_turns = 0;
        }
    }
}

/// What follows a turn: an error of the configuration ends the chat, any other lets the user try
/// again. `shown` is the error as it is shown.
pub fn after_turn(end: &TurnEnd, shown: &str) -> (r: AfterTurn)
    ensures
        match *end {
            TurnEnd::Completed => r.error_lines@.len() == 0 && r.blank_line && !r.fatal,
            TurnEnd::Interrupted => texts(r.error_lines@)
                == seq!["\n^C 已中断（partial 已保存）"@] && r.blank_line && !r.fatal,
            TurnEnd::Failed(e) => r.fatal == (e is Config) && !r.blank_line && texts(
                r.error_lines@,
            ) == seq![
                "\n[错误] "@ + shown@,
                if e is Config {
                    "(致命错误，退出对话)"@
                } else {
                    "(可重试，请继续输入)\n"@
                },
            ],
        },
{
    match end {
        TurnEnd::Completed => AfterTurn {
            error_lines: Vec::new(),
            blank_line: true,
            fatal: false,
        },
        TurnEnd::Interrupted => AfterTurn {
            error_lines: one_text("\n^C 已中断（partial 已保存）".to_owned()),
            blank_line: true,
            fatal: false,
        },
        TurnEnd::Failed(e) => {
            let fatal = is_fatal_error(e);
            let mut v = one_text(cat("\n[错误] ", shown));
            let second: &str = if fatal {
                "(致命错误，退出对话)"
            } else {
                "(可重试，请继续输入)\n"
            };
            push_text(&mut v, second.to_owned());
            assert(texts(v@) =~= seq!["\n[错误] "@ + shown@, second@]);
            AfterTurn { error_lines: v, blank_line: false, fatal }
        },
    }
}

// ---------------------------------------------------------------- laws

/// The user is always asked again: of rounds that follow one another, all starting by themselves
/// and each counted as a turn without the user, there are at most eight, however much is queued.
pub proof fn law_user_is_asked_again(counts: Seq<u32>, queued: Seq<nat>)
    requires
        counts.len() == queued.len(),
        forall|i: int| 0 <= i < counts.len() ==> starts_alone(#[trigger] counts[i], queued[i]),
        forall|i: int, j: int|
            0 <= i && j == i + 1 && j < counts.len() ==> #[trigger] counts[j] == counted(
                #[trigger] counts[i],
                0,
            ),
    ensures
        counts.len() <= AUTO_TURN_BUDGET,
{
    lemma_counts_grow(counts, queued, counts.len() as int - 1);
    if counts.len() > 0 {
        assert(starts_alone(counts[counts.len() - 1], queued[counts.len() - 1]));
    }
}

proof fn lemma_counts_grow(counts: Seq<u32>, queued: Seq<nat>, k: int)
    requires
        counts.len() == queued.len(),
        k < counts.len(),
        forall|i: int| 0 <= i < counts.len() ==> starts_alone(#[trigger] counts[i], queued[i]),
        forall|i: int, j: int|
            0 <= i && j == i + 1 && j < counts.len() ==> #[trigger] counts[j] == counted(
                #[trigger] counts[i],
                0,
            ),
    ensures
        k >= 0 ==> counts[k] >= k,
    decreases k,
{
    if k > 0 {
        lemma_counts_grow(counts, queued, k - 1);
        assert(starts_alone(counts[k - 1], queued[k - 1]));
        assert(counts[k] == counted(counts[k - 1], 0));
    }
}

/// A round starts by itself exactly if something waits and fewer than eight did so in a row; a turn that the
/// user asked for starts the count anew, and any other adds one.
pub proof fn law_rounds_by_themselves(auto_turns: u32, queued: nat, input_len: nat)
    ensures
        starts_alone(auto_turns, queued) <==> queued > 0 && auto_turns < 8,
        input_len > 0 ==> counted(auto_turns, input_len) == 0,
        input_len == 0 ==> counted(auto_turns, input_len) == auto_turns + 1,
{
}

/// The greeting names the model, and the session exactly if an older one goes on.
#[verifier::rlimit(40)]
#[verifier::spinoff_prover]
pub proof fn law_greeting_names_the_model(resume: bool, session: Seq<char>, model: Seq<char>)
    ensures
        greeting(resume, session, model).len() == (if resume {
            4int
        } else {
            3
        }),
        crate::search::has_text(greeting(resume, session, model)[if resume {
            1
        } else {
            0
        }], model),
        resume ==> crate::search::has_suffix(greeting(resume, session, model)[0], session),
{
    crate::search::lemma_text_in_itself(model);
    crate::search::lemma_text_within("tomcat 对话模式 (模型: "@, model, ")"@, model);
    if resume {
        let line = "恢复会话: "@ + session;
        assert(greeting(resume, session, model)[0] == line);
        assert(line.subrange(line.len() - session.len(), line.len() as int) =~= session);
    }
}

} // verus!
