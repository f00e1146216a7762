//! One turn of the chat: what goes to the model, and what is kept of it.

use vstd::prelude::*;
use vstd::string::*;

use crate::commands::cmd_ckpt::CheckpointKind;
use crate::commands::restore_walk::CheckpointRecordRequest;
use crate::plan_runtime::mode::PlanMode;
use crate::plan_runtime::prompts::{
    render_executor_reminder, EXECUTOR_REMINDER_FMT, PLANNER_REMINDER,
};
use crate::prompt::agent_prompt_for_mode;
#[allow(unused_imports)]
use crate::prompt::plan_label;
#[allow(unused_imports)]
use crate::search::replaced;
use crate::text::{bytes_in, cat, copy_opt};
#[allow(unused_imports)]
use crate::text::{byte_len, opt_text};

verus! {

/// What goes wrong in the chat, as far as it decides what follows.
#[derive(Clone, Debug, PartialEq, Eq)]
pub enum AppError {
    /// The configuration is at fault.
    Config(String),
    /// Anything else, in words.
    Other(String),
}

/// Whether an error ends the chat.
pub fn is_fatal_error(e: &AppError) -> (r: bool)
    ensures
        r == (e is Config),
{
    match e {
        AppError::Config(_) => true,
        AppError::Other(_) => false,
    }
}

/// The first thing the model reads, with what it is reminded of in a mode.
pub open spec fn reminded(system_text: Seq<char>, mode: PlanMode) -> Seq<char> {
    match mode {
        PlanMode::Planning => system_text + PLANNER_REMINDER@,
        PlanMode::Executing { plan_id } => system_text + replaced(
            EXECUTOR_REMINDER_FMT@,
            "{plan_id}"@,
            plan_id@,
        ),
        _ => system_text,
    }
}

/// The first thing the model reads, with what it is reminded of in a mode.
pub fn system_text_with_reminder(system_text: &str, mode: &PlanMode) -> (r: String)
    ensures
        r@ == reminded(system_text@, *mode),
{
    match mode {
        PlanMode::Planning => cat(system_text, PLANNER_REMINDER),
        PlanMode::Executing { plan_id } => cat(
            system_text,
            render_executor_reminder(plan_id.as_str()).as_str(),
        ),
        _ => system_text.to_owned(),
    }
}

/// The messages of a turn: the first thing, the conversation so far, what the user said, if
/// anything, and what came from the background.
pub open spec fn turn_messages<M>(system: M, so_far: Seq<M>, user: Option<M>, queue: Seq<M>) -> Seq<
    M,
> {
    seq![system] + so_far + (match user {
        Some(u) => seq![u],
        None => Seq::empty(),
    }) + queue
}

/// The messages of a turn; the queue is empty afterwards.
pub fn assemble_messages<M>(
    system: M,
    so_far: Vec<M>,
    user: Option<M>,
    queue: &mut Vec<M>,
) -> (r: Vec<M>)
    ensures
        r@ == turn_messages(system, so_far@, user, old(queue)@),
        final(queue)@.len() == 0,
{
    let ghost queued = queue@;
    let mut rest = so_far;
    let ghost said = rest@;
    let mut out: Vec<M> = Vec::new();
    out.push(system);
    out.append(&mut rest);
    let ghost before = out@;
    match user {
        Some(u) => {
            out.push(u);
            assert(out@ =~= before + seq![u]);
        },
        None => {
            assert(out@ =~= before + Seq::<M>::empty());
        },
    }
    out.append(queue);
    assert(out@ =~= turn_messages(system, said, user, queued));
    out
}

/// Whether there is something for the user's message to say.
pub fn has_user_message(input: &str) -> (r: bool)
    ensures
        r == (input@.len() > 0),
{
    !input.is_empty()
}

/// How the agent of a turn is set up.
#[derive(Clone, Debug, PartialEq, Eq)]
pub struct TurnConfig {
    pub max_attempts: u32,
    pub max_tool_rounds: usize,
    pub retry_base_delay_ms: u64,
    pub model: String,
    pub session_id: String,
    pub spawn_depth: u32,
    /// Where thinking is written down, if it is.
    pub thinking_transcript: Option<String>,
    /// What is shown before the agent speaks.
    pub prompt: String,
}

/// How the agent of a turn is set up: nothing without a session. Where thinking is to be written
/// down, there has to be a transcript.
pub fn plan_turn(
    model: String,
    session_id: Option<String>,
    persist_thinking: bool,
    transcript: Option<String>,
    agent_id: &str,
    mode: &PlanMode,
) -> (r: Result<TurnConfig, AppError>)
    ensures
        match r {
            Ok(c) => {
                &&& session_id is Some
                &&& persist_thinking ==> transcript is Some
                &&& c.max_attempts == 3
                &&& c.max_tool_rounds == usize::MAX
                &&& c.retry_base_delay_ms == 300
                &&& c.model == model
                &&& Some(c.session_id) == session_id
                &&& c.spawn_depth == 0
                &&& c.thinking_transcript == (if persist_thinking {
                    transcript
                } else {
                    None
                })
                &&& c.prompt@ == "\n"@ + (match plan_label(*mode) {
                    Some(l) => "agent."@ + agent_id@ + "["@ + l + "]> "@,
                    None => "agent."@ + agent_id@ + "> "@,
                })
            },
            Err(e) => (session_id is None || (persist_thinking && transcript is None)) && (
            e matches AppError::Config(m) && m@ == "无当前会话"@),
        },
{
    let session_id = match session_id {
        Some(s) => s,
        None => {
            return Err(AppError::Config("无当前会话".to_owned()));
        },
    };
    let thinking_transcript = if persist_thinking {
        match transcript {
            Some(t) => Some(t),
            None => {
                return Err(AppError::Config("无当前会话".to_owned()));
            },
        }
    } else {
        None
    };
    Ok(
        TurnConfig {
            max_attempts: 3,
            max_tool_rounds: usize::MAX,
            retry_base_delay_ms: 300,
            model,
            session_id,
            spawn_depth: 0,
            thinking_transcript,
            prompt: cat("\n", agent_prompt_for_mode(agent_id, mode).as_str()),
        },
    )
}

/// How a turn ended.
#[derive(Clone, Debug, PartialEq, Eq)]
pub enum TurnEnd {
    Completed,
    Interrupted,
    Failed(AppError),
}

/// The kind of checkpoint that a turn ends with: none if it failed, and then its messages are not
/// kept either.
pub fn checkpoint_kind(end: &TurnEnd) -> (r: Option<CheckpointKind>)
    ensures
        match *end {
            TurnEnd::Completed => r is Some && r->0 is TurnEnd,
            TurnEnd::Interrupted => r is Some && r->0 is Interrupt,
            TurnEnd::Failed(_) => r is None,
        },
{
    match end {
        TurnEnd::Completed => Some(CheckpointKind::TurnEnd),
        TurnEnd::Interrupted => Some(CheckpointKind::Interrupt),
        TurnEnd::Failed(_) => None,
    }
}

/// The first and the last message of a turn.
pub fn turn_ends(appended_row_ids: &Vec<String>) -> (r: Option<(String, String)>)
    ensures
        match r {
            Some(p) => appended_row_ids@.len() > 0 && p.0@ == appended_row_ids@[0]@ && p.1@
                == appended_row_ids@.last()@,
            None => appended_row_ids@.len() == 0,
        },
{
    if appended_row_ids.len() == 0 {
        return None;
    }
    let n: usize = appended_row_ids.len();
    Some((appended_row_ids[0].clone(), appended_row_ids[n - 1].clone()))
}

/// The checkpoint at the end of a turn, anchored at its last message; none if the turn had no
/// message. `turn_id` is the name of the turn from its first to its last message.
pub fn build_turn_checkpoint_request(
    session_id: &str,
    kind: CheckpointKind,
    appended_row_ids: &Vec<String>,
    turn_id: String,
) -> (r: Option<CheckpointRecordRequest>)
    ensures
        match r {
            Some(q) => {
                &&& appended_row_ids@.len() > 0
                &&& q.session_id@ == session_id@
                &&& q.turn_id == turn_id
                &&& q.kind == kind
                &&& opt_text(q.message_anchor) == Some(appended_row_ids@.last()@)
                &&& q.notes is None
            },
            None => appended_row_ids@.len() == 0,
        },
{
    match turn_ends(appended_row_ids) {
        Some((_, end_id)) => Some(
            CheckpointRecordRequest {
                session_id: session_id.to_owned(),
                turn_id,
                kind,
                message_anchor: Some(end_id),
                notes: None,
            },
        ),
        None => None,
    }
}

/// The sizes of a conversation that starts over.
#[derive(Clone, Copy, Debug, PartialEq, Eq, Structural)]
pub struct FallbackContext {
    pub estimate_context_chars: usize,
    pub context_budget_tokens: u64,
}

/// The sizes of a conversation that starts over: it holds the first thing the model reads, and has
/// what the window leaves besides the answer.
pub fn make_fallback_context_state(system_text: &str, context_window: u64, max_output_tokens: u64) -> (r:
    FallbackContext)
    ensures
        r.estimate_context_chars == byte_len(system_text@),
        r.context_budget_tokens == (if context_window >= max_output_tokens {
            context_window - max_output_tokens
        } else {
            0
        }),
{
    FallbackContext {
        estimate_context_chars: bytes_in(system_text),
        context_budget_tokens: if context_window >= max_output_tokens {
            context_window - max_output_tokens
        } else {
            0
        },
    }
}

// ---------------------------------------------------------------- thinking

/// The thinking of a message so far.
#[derive(Clone, Debug, PartialEq, Eq)]
pub struct ThinkingPersistState {
    pub text: String,
    pub signature: Option<String>,
}

/// A piece of a message that streams in.
#[derive(Clone, Debug, PartialEq, Eq)]
pub struct StreamedPiece {
    pub kind: Option<String>,
    pub delta: Option<String>,
    pub signature: Option<String>,
}

/// Whether a piece adds to the thinking.
pub open spec fn is_thought(p: StreamedPiece) -> bool {
    opt_text(p.kind) == Some("thinking_delta"@) && p.delta is Some && p.delta->0@.len() > 0
}

impl ThinkingPersistState {
    /// No thinking yet.
    pub fn new() -> (r: ThinkingPersistState)
        ensures
            r.text@.len() == 0,
            r.signature is None,
    {
        ThinkingPersistState { text: String::new(), signature: None }
    }

    /// Takes a piece of a message: thinking is added, and signed as it says; anything else changes
    /// nothing.
    pub fn take_piece(&mut self, piece: Option<StreamedPiece>)
        ensures
            if piece is Some && is_thought(piece->0) {
                &&& final(self).text@ == old(self).text@ + piece->0.delta->0@
                &&& final(self).signature == (if piece->0.signature is Some {
                    piece->0.signature
                } else {
                    old(self).signature
                })
            } else {
                *final(self) == *old(self)
            },
    {
        match piece {
            Some(p) => {
                let thinking = match &p.kind {
                    Some(k) => crate::text::same(k.as_str(), "thinking_delta"),
                    None => false,
                };
                if !thinking {
                    return;
                }
                match &p.delta {
                    Some(d) => {
                        if d.as_str().is_empty() {
                            return;
                        }
                        self.text.append(d.as_str());
                    },
                    None => {
                        return;
                    },
                }
                if let Some(s) = p.signature {
                    self.signature = Some(s);
                }
            },
            None => {},
        }
    }

    /// Takes the end of a message: what was thought and how it is signed, to be written down;
    /// nothing if nothing was thought. The next message starts anew.
    pub fn take_end(&mut self) -> (r: Option<(String, Option<String>)>)
        ensures
            match r {
                Some(t) => {
                    &&& old(self).text@.len() > 0
                    &&& t.0@ == old(self).text@
                    &&& t.1 == old(self).signature
                    &&& final(self).text@.len() == 0
                    &&& final(self).signature is None
                },
                None => old(self).text@.len() == 0 && *final(self) == *old(self),
            },
    {
        if self.text.as_str().is_empty() {
            return None;
        }
        let text = self.text.clone();
        let signature = copy_opt(&self.signature);
        *self = ThinkingPersistState::new();
        Some((text, signature))
    }
}

/// What follows the first thing in a turn's messages is the conversation so far, and the last ones
/// are those from the background: nothing is lost or put between.
pub proof fn law_turn_keeps_every_message<M>(system: M, so_far: Seq<M>, user: Option<M>, queue: Seq<
    M,
>)
    ensures
        turn_messages(system, so_far, user, queue)[0] == system,
        turn_messages(system, so_far, user, queue).subrange(1, (1 + so_far.len()) as int) == so_far,
        turn_messages(system, so_far, user, queue).len() == 1 + so_far.len() + queue.len() + (
        if user is Some {
            1int
        } else {
            0int
        }),
        turn_messages(system, so_far, user, queue).skip(
            turn_messages(system, so_far, user, queue).len() - queue.len(),
        ) == queue,
{
    let all = turn_messages(system, so_far, user, queue);
    assert(all.subrange(1, (1 + so_far.len()) as int) =~= so_far);
    assert(all.skip(all.len() - queue.len()) =~= queue);
}

/// The system text stays as it is; only planning and working add a reminder behind it.
pub proof fn law_reminders_stand_behind_the_system_text(system: Seq<char>, mode: PlanMode)
    ensures
        crate::search::has_prefix(reminded(system, mode), system),
        !(mode is Planning) && !(mode is Executing) ==> reminded(system, mode) == system,
        mode is Planning ==> reminded(system, mode) == system + PLANNER_REMINDER@,
{
    assert(reminded(system, mode).subrange(0, system.len() as int) =~= system);
}

} // verus!
