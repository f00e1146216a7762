//! What one turn of the conversation prints: thinking, tool lines and the answer, in the order
//! in which their events arrive.
//!
//! The renderer owns no terminal. Each event handler returns what is to be done, in order: text
//! for one of the two channels, or a step of the Markdown renderer that formats the answer.

use vstd::prelude::*;
use vstd::string::*;

use crate::numerals::decimal_u64;
#[allow(unused_imports)]
use crate::numerals::decimal;
use crate::paths::join_path;
#[allow(unused_imports)]
use crate::paths::path_joined;
use crate::search::{lines_of, strip_prefix, take_chars};
#[allow(unused_imports)]
use crate::search::{has_prefix, lines};
use crate::settings::{ThinkingDisplay, ThinkingSource, ToolCliVerbosity};
use crate::text::{cat, cat3, copy_opt, same, trim};
#[allow(unused_imports)]
use crate::text::{opt_str, opt_text, texts, trimmed};

verus! {

// ---------------------------------------------------------------- output

/// One step of output.
#[derive(Clone, Debug, PartialEq, Eq)]
pub enum Output {
    /// Write the text to the standard output.
    Stdout(String),
    /// Write the text to the standard error.
    Stderr(String),
    /// Write what the Markdown renderer still holds to the standard output.
    FlushMarkdown,
    /// Hand the text to the Markdown renderer and write what it has ready to the standard output.
    PushMarkdown(String),
}

/// One step of output, as mathematics.
pub ghost enum Out {
    Stdout(Seq<char>),
    Stderr(Seq<char>),
    FlushMarkdown,
    PushMarkdown(Seq<char>),
}

impl View for Output {
    type V = Out;

    open spec fn view(&self) -> Out {
        match *self {
            Output::Stdout(s) => Out::Stdout(s@),
            Output::Stderr(s) => Out::Stderr(s@),
            Output::FlushMarkdown => Out::FlushMarkdown,
            Output::PushMarkdown(s) => Out::PushMarkdown(s@),
        }
    }
}

/// The steps of a list.
pub open spec fn outs(v: Seq<Output>) -> Seq<Out> {
    v.map_values(|o: Output| o@)
}

fn emit(out: &mut Vec<Output>, o: Output)
    ensures
        outs(final(out)@) == outs(old(out)@).push(o@),
{
    let ghost before = out@;
    out.push(o);
    assert(outs(out@) =~= outs(before).push(o@));
}

fn stdout(out: &mut Vec<Output>, s: &str)
    ensures
        outs(final(out)@) == outs(old(out)@).push(Out::Stdout(s@)),
{
    emit(out, Output::Stdout(s.to_owned()));
}

fn stderr(out: &mut Vec<Output>, s: &str)
    ensures
        outs(final(out)@) == outs(old(out)@).push(Out::Stderr(s@)),
{
    emit(out, Output::Stderr(s.to_owned()));
}

// ---------------------------------------------------------------- small formats

/// `n` in two digits at least.
pub open spec fn two_digits(n: nat) -> Seq<char> {
    if n < 10 {
        "0"@ + decimal(n)
    } else {
        decimal(n)
    }
}

/// A waiting time in whole seconds, rounded up, with minutes apart.
pub open spec fn countdown(ms: nat) -> Seq<char> {
    let total = (if ms + 999 <= u64::MAX {
        ms + 999
    } else {
        u64::MAX as nat
    }) / 1000;
    if total / 60 > 0 {
        decimal(total / 60) + "m"@ + two_digits(total % 60) + "s"@
    } else {
        decimal(total) + "s"@
    }
}

/// A waiting time in whole seconds, rounded up, with minutes apart.
pub fn format_countdown_ms(ms: u64) -> (r: String)
    ensures
        r@ == countdown(ms as nat),
{
    let total_secs: u64 = ms.saturating_add(999) / 1000;
    let minutes: u64 = total_secs / 60;
    let seconds: u64 = total_secs % 60;
    if minutes > 0 {
        let mut out = decimal_u64(minutes);
        out.append("m");
        if seconds < 10 {
            out.append("0");
        }
        out.append(decimal_u64(seconds).as_str());
        out.append("s");
        assert(seconds < 10 ==> decimal(minutes as nat) + "m"@ + "0"@ + decimal(seconds as nat)
            + "s"@ =~= decimal(minutes as nat) + "m"@ + ("0"@ + decimal(seconds as nat)) + "s"@);
        out
    } else {
        cat(decimal_u64(total_secs).as_str(), "s")
    }
}

/// `s`, cut after `max` characters and closed with an ellipsis if it is longer.
pub open spec fn truncated(s: Seq<char>, max: nat) -> Seq<char> {
    if s.len() <= max {
        s
    } else {
        s.take(max as int) + "…"@
    }
}

/// `s`, cut after `max` characters and closed with an ellipsis if it is longer.
pub fn truncate_chars(s: &str, max: usize) -> (r: String)
    ensures
        r@ == truncated(s@, max as nat),
{
    let count: usize = s.unicode_len();
    let mut out = take_chars(s, max);
    if count > max {
        out.append("…");
    }
    out
}

/// `path` with a `~` at its start replaced by the home directory, where that is known.
pub open spec fn expanded(path: Seq<char>, home: Option<Seq<char>>) -> Seq<char> {
    match home {
        Some(h) => if path == "~"@ {
            h
        } else if has_prefix(path, "~/"@) {
            path_joined(h, path.skip("~/"@.len() as int))
        } else {
            path
        },
        None => path,
    }
}

/// `path` with a `~` at its start replaced by the home directory, where that is known.
pub fn expand_path_for_terminal(path: &str, home: Option<&str>) -> (r: String)
    ensures
        r@ == expanded(path@, opt_str(home)),
{
    match home {
        None => path.to_owned(),
        Some(h) => {
            if same(path, "~") {
                return h.to_owned();
            }
            match strip_prefix(path, "~/") {
                Some(rest) => join_path(h, rest.as_str()),
                None => path.to_owned(),
            }
        },
    }
}

// ---------------------------------------------------------------- tool results

/// What a tool asks to be shown of its success.
#[derive(Clone, Debug, PartialEq, Eq)]
pub enum ToolDisplay {
    File { file: String },
    Plan { plan: String },
    Text { text: String },
}

/// What a display shows.
pub open spec fn display_text(d: ToolDisplay, home: Option<Seq<char>>) -> Seq<char> {
    match d {
        ToolDisplay::File { file } => expanded(file@, home),
        ToolDisplay::Plan { plan } => expanded(plan@, home),
        ToolDisplay::Text { text } => trimmed(text@),
    }
}

/// What a display shows.
pub fn display_summary(display: &ToolDisplay, home: Option<&str>) -> (r: String)
    ensures
        r@ == display_text(*display, opt_str(home)),
{
    match display {
        ToolDisplay::File { file } => expand_path_for_terminal(file.as_str(), home),
        ToolDisplay::Plan { plan } => expand_path_for_terminal(plan.as_str(), home),
        ToolDisplay::Text { text } => trim(text.as_str()),
    }
}

/// The parts of a tool's JSON result that the summary lines read: the text of the result itself
/// if it is a string, and those of its members that have the expected type.
#[derive(Clone, Debug, PartialEq, Eq)]
pub struct ToolResult {
    pub text: Option<String>,
    pub error: Option<String>,
    pub message: Option<String>,
    pub summary: Option<String>,
    pub stderr: Option<String>,
    pub lines: Option<u64>,
    pub bytes: Option<u64>,
}

/// The parts of a tool's JSON result that the summary lines read, as mathematics.
pub ghost struct ResultFields {
    pub text: Option<Seq<char>>,
    pub error: Option<Seq<char>>,
    pub message: Option<Seq<char>>,
    pub summary: Option<Seq<char>>,
    pub stderr: Option<Seq<char>>,
    pub lines: Option<u64>,
    pub bytes: Option<u64>,
}

impl View for ToolResult {
    type V = ResultFields;

    open spec fn view(&self) -> ResultFields {
        ResultFields {
            text: opt_text(self.text),
            error: opt_text(self.error),
            message: opt_text(self.message),
            summary: opt_text(self.summary),
            stderr: opt_text(self.stderr),
            lines: self.lines,
            bytes: self.bytes,
        }
    }
}

/// The parts of the JSON value that a text writes, if it writes one that can be read.
pub uninterp spec fn json_fields(s: Seq<char>) -> Option<ResultFields>;

/// `serde_json::from_str` into a `serde_json::Value`, then `Value::as_str` on the value and
/// `Value::get` with `Value::as_str` or `Value::as_u64` on its members: which parts a text has is
/// a function of the text alone. There are none if the text is not one JSON value, nor if it nests
/// arrays and objects 128 deep or deeper, where `serde_json` stops reading.
#[verifier::external_body]
pub(crate) fn parse_json_fields(s: &str) -> (r: Option<ToolResult>)
    ensures
        match r {
            Some(t) => json_fields(s@) == Some(t@),
            None => json_fields(s@) is None,
        },
{
    let v: serde_json::Value = serde_json::from_str(s).ok()?;
    let text = |k: &str| v.get(k).and_then(|x| x.as_str()).map(str::to_owned);
    Some(ToolResult {
        text: v.as_str().map(str::to_owned),
        error: text("error"),
        message: text("message"),
        summary: text("summary"),
        stderr: text("stderr"),
        lines: v.get("lines").and_then(|x| x.as_u64()),
        bytes: v.get("bytes").and_then(|x| x.as_u64()),
    })
}

/// A result that is itself JSON written as text counts as the value written.
pub open spec fn read_result(result: ResultFields) -> ResultFields {
    match result.text {
        Some(s) => match json_fields(s) {
            Some(f) => f,
            None => result,
        },
        None => result,
    }
}

impl ToolResult {
    fn copied(&self) -> (r: ToolResult)
        ensures
            r@ == self@,
    {
        ToolResult {
            text: copy_opt(&self.text),
            error: copy_opt(&self.error),
            message: copy_opt(&self.message),
            summary: copy_opt(&self.summary),
            stderr: copy_opt(&self.stderr),
            lines: self.lines,
            bytes: self.bytes,
        }
    }
}

/// The value that a result stands for: tools that hand JSON on as text are read through.
pub fn parse_tool_result_value(result: &ToolResult) -> (r: ToolResult)
    ensures
        r@ == read_result(result@),
{
    match &result.text {
        Some(s) => match parse_json_fields(s.as_str()) {
            Some(v) => v,
            None => result.copied(),
        },
        None => result.copied(),
    }
}

/// What a failed result says, once it has been read.
pub open spec fn failure_line(parsed: ResultFields) -> Seq<char> {
    truncated(
        match parsed.error {
            Some(e) => e,
            None => match parsed.message {
                Some(m) => m,
                None => "failed"@,
            },
        },
        512,
    )
}

/// What a failed result says, once it has been read.
pub fn failure_summary(parsed: &ToolResult) -> (r: String)
    ensures
        r@ == failure_line(parsed@),
{
    match &parsed.error {
        Some(e) => truncate_chars(e.as_str(), 512),
        None => match &parsed.message {
            Some(m) => truncate_chars(m.as_str(), 512),
            None => truncate_chars("failed", 512),
        },
    }
}

/// What a successful result says, once it has been read.
pub open spec fn success_line(parsed: ResultFields) -> Seq<char> {
    match parsed.lines {
        Some(n) => decimal(n as nat) + " lines"@,
        None => match parsed.bytes {
            Some(n) => decimal(n as nat) + " bytes"@,
            None => match parsed.summary {
                Some(s) => truncated(s, 80),
                None => match parsed.message {
                    Some(m) => truncated(m, 80),
                    None => "ok"@,
                },
            },
        },
    }
}

/// What a successful result says, once it has been read.
pub fn success_summary(parsed: &ToolResult) -> (r: String)
    ensures
        r@ == success_line(parsed@),
{
    if let Some(n) = parsed.lines {
        return cat(decimal_u64(n).as_str(), " lines");
    }
    if let Some(n) = parsed.bytes {
        return cat(decimal_u64(n).as_str(), " bytes");
    }
    match &parsed.summary {
        Some(s) => truncate_chars(s.as_str(), 80),
        None => match &parsed.message {
            Some(m) => truncate_chars(m.as_str(), 80),
            None => "ok".to_owned(),
        },
    }
}

/// The summary of a tool's result: its own words if it failed, else its display, else the most
/// telling of its members.
pub open spec fn result_line(
    result: ResultFields,
    display: Option<ToolDisplay>,
    is_error: bool,
    home: Option<Seq<char>>,
) -> Seq<char> {
    if is_error {
        match result.text {
            Some(s) => if trimmed(s).len() > 0 {
                truncated(trimmed(s), 512)
            } else {
                failure_line(read_result(result))
            },
            None => failure_line(read_result(result)),
        }
    } else {
        match display {
            Some(d) => if display_text(d, home).len() > 0 {
                truncated(
                    display_text(d, home),
                    if d is Text {
                        80
                    } else {
                        512
                    },
                )
            } else {
                success_line(read_result(result))
            },
            None => success_line(read_result(result)),
        }
    }
}

/// The summary of a tool's result.
pub fn result_summary_for_tool(
    result: &ToolResult,
    display: Option<&ToolDisplay>,
    is_error: bool,
    home: Option<&str>,
) -> (r: String)
    ensures
        r@ == result_line(
            result@,
            match display {
                Some(d) => Some(*d),
                None => None,
            },
            is_error,
            opt_str(home),
        ),
{
    if is_error {
        if let Some(s) = &result.text {
            let msg = trim(s.as_str());
            if !msg.as_str().is_empty() {
                return truncate_chars(msg.as_str(), 512);
            }
        }
        let parsed = parse_tool_result_value(result);
        return failure_summary(&parsed);
    }
    if let Some(d) = display {
        let summary = display_summary(d, home);
        if !summary.as_str().is_empty() {
            let max_chars: usize = match d {
                ToolDisplay::Text { .. } => 80,
                _ => 512,
            };
            return truncate_chars(summary.as_str(), max_chars);
        }
    }
    let parsed = parse_tool_result_value(result);
    success_summary(&parsed)
}

/// The summary of a result that comes without a display.
pub fn result_summary(result: &ToolResult, is_error: bool) -> (r: String)
    ensures
        r@ == result_line(result@, None, is_error, None),
{
    result_summary_for_tool(result, None, is_error, None)
}

/// The first `n` of the lines that are not blank, each cut to a length that fits the terminal.
pub open spec fn telling_lines(all: Seq<Seq<char>>, n: nat) -> Seq<Seq<char>>
    decreases all.len(),
{
    if all.len() == 0 || n == 0 {
        Seq::empty()
    } else if trimmed(all[0]).len() == 0 {
        telling_lines(all.drop_first(), n)
    } else {
        seq![truncated(all[0], 512)] + telling_lines(all.drop_first(), (n - 1) as nat)
    }
}

/// The text that explains a failure.
pub open spec fn error_text(result: ResultFields) -> Seq<char> {
    match result.stderr {
        Some(s) => s,
        None => match result.error {
            Some(e) => e,
            None => match result.text {
                Some(t) => t,
                None => Seq::empty(),
            },
        },
    }
}

/// At most `n` lines of what explains a failure.
pub fn error_extra_lines(result: &ToolResult, n: usize) -> (r: Vec<String>)
    ensures
        texts(r@) == telling_lines(lines(error_text(result@)), n as nat),
{
    let raw: &str = match &result.stderr {
        Some(s) => s.as_str(),
        None => match &result.error {
            Some(e) => e.as_str(),
            None => match &result.text {
                Some(t) => t.as_str(),
                None => "",
            },
        },
    };
    proof {
        reveal_strlit("");
        assert(""@ =~= Seq::empty());
    }
    let all = lines_of(raw);
    let ghost whole = texts(all@);
    let mut out: Vec<String> = Vec::new();
    let mut left: usize = n;
    let mut i: usize = 0;
    assert(whole.skip(0) =~= whole);
    assert(texts(out@) + telling_lines(whole, n as nat) =~= telling_lines(whole, n as nat));
    while i < all.len() && left > 0
        invariant
            i <= all@.len(),
            whole == texts(all@),
            texts(out@) + telling_lines(whole.skip(i as int), left as nat) == telling_lines(
                whole,
                n as nat,
            ),
        decreases all@.len() - i,
    {
        let ghost before = texts(out@);
        let ghost rest = whole.skip(i as int);
        assert(rest.drop_first() =~= whole.skip(i + 1));
        assert(rest[0] == all@[i as int]@);
        let line = all[i].as_str();
        let t = trim(line);
        if !t.as_str().is_empty() {
            let cut = truncate_chars(line, 512);
            let ghost cut_text = cut@;
            out.push(cut);
            left = left - 1;
            assert(texts(out@) =~= before.push(cut_text));
            assert(before.push(cut_text) + telling_lines(rest.drop_first(), left as nat) =~= before
                + (seq![cut_text] + telling_lines(rest.drop_first(), left as nat)));
        }
        i = i + 1;
    }
    assert(telling_lines(whole.skip(i as int), left as nat) =~= Seq::empty());
    assert(texts(out@) + telling_lines(whole.skip(i as int), left as nat) =~= texts(out@));
    out
}

// ---------------------------------------------------------------- events

/// The part of a message update that carries new text.
#[derive(Clone, Debug, PartialEq, Eq)]
pub struct AssistantMessageEvent {
    pub kind: Option<String>,
    pub delta: Option<String>,
    pub source: Option<String>,
}

/// The start of a tool's work; `summary` tells its arguments in one line.
#[derive(Clone, Debug, PartialEq, Eq)]
pub struct ToolStart {
    pub tool_call_id: Option<String>,
    pub tool_name: Option<String>,
    pub summary: String,
}

/// How far a tool that waits has come.
#[derive(Clone, Debug, PartialEq, Eq)]
pub struct ToolUpdate {
    pub tool_name: Option<String>,
    pub phase: Option<String>,
    pub task_id: Option<String>,
    pub remaining_ms: Option<u64>,
    /// How long it waits at most, under the name of today and under an older one.
    pub wait_ms: Option<u64>,
    pub timeout_ms: Option<u64>,
}

/// How long a tool waits at most: the name of today counts first.
pub open spec fn longest_wait(u: ToolUpdate) -> nat {
    match u.wait_ms {
        Some(n) => n as nat,
        None => match u.timeout_ms {
            Some(n) => n as nat,
            None => 0,
        },
    }
}

/// The end of a tool's work.
#[derive(Clone, Debug, PartialEq, Eq)]
pub struct ToolEnd {
    pub tool_call_id: Option<String>,
    pub tool_name: Option<String>,
    pub is_error: bool,
    pub result: ToolResult,
    pub display: Option<ToolDisplay>,
}

/// How long a tool worked: whole milliseconds, and the seconds to one decimal, in text.
#[derive(Clone, Debug, PartialEq, Eq)]
pub struct Elapsed {
    pub millis: u64,
    pub seconds: String,
}

/// The text, or `default` where there is none.
pub open spec fn text_or(o: Option<String>, default: Seq<char>) -> Seq<char> {
    match o {
        Some(s) => s@,
        None => default,
    }
}

fn str_or<'a>(o: &'a Option<String>, default: &'a str) -> (r: &'a str)
    ensures
        r@ == text_or(*o, default@),
{
    match o {
        Some(s) => s.as_str(),
        None => default,
    }
}

// ---------------------------------------------------------------- state

/// What was printed last.
#[derive(Clone, Copy, Debug, PartialEq, Eq, Structural)]
pub enum LastKind {
    Nothing,
    Content,
    Thinking,
    ToolStart,
}

/// Where on the terminal the renderer stands.
#[derive(Clone, Copy, Debug, PartialEq, Eq, Structural)]
pub struct RendererState {
    /// What was printed last.
    pub last_kind: LastKind,
    /// Whether the current message has its thinking prefix already.
    pub thinking_prefix_printed: bool,
    /// Whether a countdown line stands on the standard error, to be wiped before anything else.
    pub inline_tool_update_active: bool,
}

/// The renderer of one turn.
#[derive(Clone, Debug, PartialEq, Eq)]
pub struct CliTurnRenderer {
    pub session_id: Option<String>,
    pub thinking_display: ThinkingDisplay,
    pub print_to_stderr: bool,
    pub tool_cli_verbosity: ToolCliVerbosity,
    pub state: RendererState,
    /// For each tool call at work, when it started.
    pub tool_starts: Vec<(String, u64)>,
}

/// The text on the thinking channel.
pub open spec fn thinking_out(to_stderr: bool, s: Seq<char>) -> Out {
    if to_stderr {
        Out::Stderr(s)
    } else {
        Out::Stdout(s)
    }
}

/// The step that wipes a countdown line, if there is one.
pub open spec fn wipe(st: RendererState) -> Seq<Out> {
    if st.inline_tool_update_active {
        seq![Out::Stderr("\r\x1b[2K"@)]
    } else {
        Seq::empty()
    }
}

/// The line break that sets a line on the standard error apart from what was printed last.
pub open spec fn break_line(st: RendererState) -> Seq<Out> {
    if st.last_kind is Nothing {
        Seq::empty()
    } else {
        seq![Out::Stderr("\n"@)]
    }
}

/// One line on the standard error, after the rest of the answer so far.
pub open spec fn stderr_line(st: RendererState, line: Seq<char>, last_kind: LastKind) -> (
    RendererState,
    Seq<Out>,
) {
    (
        RendererState { last_kind, inline_tool_update_active: false, ..st },
        seq![Out::FlushMarkdown] + wipe(st) + break_line(st) + seq![Out::Stderr(line)],
    )
}

/// A new message begins.
pub open spec fn message_started(to_stderr: bool, st: RendererState) -> (RendererState, Seq<Out>) {
    (
        RendererState {
            thinking_prefix_printed: false,
            inline_tool_update_active: false,
            ..st
        },
        wipe(st) + if st.last_kind is Thinking {
            seq![thinking_out(to_stderr, "\n"@)]
        } else {
            Seq::empty()
        },
    )
}

/// What sets thinking apart from what was printed before it.
pub open spec fn before_thinking(to_stderr: bool, st: RendererState) -> Seq<Out> {
    (if st.inline_tool_update_active {
        seq![Out::Stderr("\r\x1b[2K"@), thinking_out(to_stderr, "\n"@)]
    } else {
        Seq::empty()
    }) + (if st.last_kind is Content {
        seq![Out::FlushMarkdown, thinking_out(to_stderr, "\n"@)]
    } else {
        Seq::empty()
    })
}

/// The line that stands for all thinking of a message where thinking is folded away.
pub open spec fn folded_prefix() -> Seq<char> {
    "\x1b[2m\x1b[90m[thinking] …\x1b[0m"@
}

/// What stands before the thinking of a message.
pub open spec fn thinking_prefix() -> Seq<char> {
    "\x1b[2m\x1b[90m[thinking]\x1b[0m "@
}

/// A piece of thinking arrives.
pub open spec fn thinking_shown(
    display: ThinkingDisplay,
    to_stderr: bool,
    st: RendererState,
    delta: Seq<char>,
    source: ThinkingSource,
) -> (RendererState, Seq<Out>) {
    if display is Minimal {
        if st.thinking_prefix_printed {
            (
                RendererState { inline_tool_update_active: false, ..st },
                before_thinking(to_stderr, st),
            )
        } else {
            (
                RendererState {
                    last_kind: LastKind::Thinking,
                    thinking_prefix_printed: true,
                    inline_tool_update_active: false,
                },
                before_thinking(to_stderr, st) + seq![thinking_out(to_stderr, folded_prefix())],
            )
        }
    } else if source is Summary && !display.summary_visible() || source is Raw
        && !display.raw_visible() {
        (st, Seq::empty())
    } else {
        (
            RendererState {
                last_kind: LastKind::Thinking,
                thinking_prefix_printed: true,
                inline_tool_update_active: false,
            },
            before_thinking(to_stderr, st) + (if st.thinking_prefix_printed {
                Seq::empty()
            } else {
                seq![thinking_out(to_stderr, thinking_prefix())]
            }) + seq![thinking_out(to_stderr, "\x1b[2m\x1b[90m"@ + delta + "\x1b[0m"@)],
        )
    }
}

/// A piece of the answer arrives.
pub open spec fn content_shown(st: RendererState, delta: Seq<char>) -> (RendererState, Seq<Out>) {
    (
        RendererState {
            last_kind: LastKind::Content,
            inline_tool_update_active: false,
            ..st
        },
        (if st.inline_tool_update_active {
            seq![Out::Stderr("\r\x1b[2K"@), Out::Stdout("\n"@)]
        } else {
            Seq::empty()
        }) + (if st.last_kind is Thinking || st.last_kind is ToolStart {
            seq![Out::Stdout("\n"@)]
        } else {
            Seq::empty()
        }) + seq![Out::PushMarkdown(delta)],
    )
}

/// The source that an event names: none at all counts as raw thinking, and any other name than
/// the two known ones as no source.
pub open spec fn source_of(source: Option<Seq<char>>) -> Option<ThinkingSource> {
    match source {
        None => Some(ThinkingSource::Raw),
        Some(s) => if s == "summary"@ {
            Some(ThinkingSource::Summary)
        } else if s == "raw"@ {
            Some(ThinkingSource::Raw)
        } else {
            None
        },
    }
}

/// A message update arrives.
pub open spec fn update_shown(
    display: ThinkingDisplay,
    to_stderr: bool,
    st: RendererState,
    kind: Seq<char>,
    delta: Seq<char>,
    source: Option<Seq<char>>,
) -> (RendererState, Seq<Out>) {
    if delta.len() == 0 {
        (st, Seq::empty())
    } else if kind == "thinking_delta"@ {
        match source_of(source) {
            Some(src) => thinking_shown(display, to_stderr, st, delta, src),
            None => (st, Seq::empty()),
        }
    } else if kind == ""@ || kind == "content_delta"@ {
        content_shown(st, delta)
    } else {
        (st, Seq::empty())
    }
}

/// A message of the model's provider: an error in red, a notice in gray.
pub open spec fn provider_line(st: RendererState, message: Seq<char>, color: Seq<char>) -> (
    RendererState,
    Seq<Out>,
) {
    if trimmed(message).len() == 0 {
        (st, Seq::empty())
    } else {
        stderr_line(
            st,
            color + "[llm] "@ + trimmed(message) + "\x1b[0m\n"@,
            LastKind::ToolStart,
        )
    }
}

/// The line that announces a tool.
pub open spec fn tool_line(name: Seq<char>, summary: Seq<char>) -> Seq<char> {
    "\x1b[90m[tool] "@ + name + "  "@ + summary + "\x1b[0m\n"@
}

/// What is told of a tool call whose arguments still arrive.
pub open spec fn streaming_summary(path: Option<Seq<char>>, home: Option<Seq<char>>) -> Seq<char> {
    match path {
        Some(p) => "path="@ + expanded(p, home) + "  receiving args..."@,
        None => "receiving args..."@,
    }
}

/// The countdown line of a tool that waits.
pub open spec fn countdown_line(u: ToolUpdate) -> Seq<char> {
    "\r\x1b[2K\x1b[90m[tool] "@ + text_or(u.tool_name, "?"@) + " … "@ + text_or(
        u.phase,
        "update"@,
    ) + "  task="@ + text_or(u.task_id, "?"@) + " remaining="@ + countdown(
        match u.remaining_ms {
            Some(n) => n as nat,
            None => 0,
        },
    ) + "/"@ + countdown(longest_wait(u)) + "\x1b[0m"@
}

/// How long a tool worked, in text.
pub open spec fn elapsed_text(e: Option<Elapsed>) -> Seq<char> {
    match e {
        None => "?"@,
        Some(t) => if t.millis < 1000 {
            decimal(t.millis as nat) + "ms"@
        } else {
            t.seconds@ + "s"@
        },
    }
}

/// The line that closes a tool's work.
pub open spec fn end_line(ev: ToolEnd, home: Option<Seq<char>>, elapsed: Option<Elapsed>) -> Seq<
    char,
> {
    (if ev.is_error {
        "\x1b[31m"@
    } else {
        "\x1b[32m"@
    }) + "[tool] "@ + text_or(ev.tool_name, "?"@) + "  "@ + (if ev.is_error {
        "✗"@
    } else {
        "✓"@
    }) + " "@ + result_line(ev.result@, ev.display, ev.is_error, home) + " ("@ + elapsed_text(
        elapsed,
    ) + ")\x1b[0m\n"@
}

/// The lines below the closing line of a failed tool.
pub open spec fn extra_outs(all: Seq<Seq<char>>) -> Seq<Out> {
    all.map_values(|l: Seq<char>| Out::Stderr("\x1b[31m       "@ + l + "\x1b[0m\n"@))
}

/// A tool's work ends.
pub open spec fn tool_ended(
    verbosity: ToolCliVerbosity,
    st: RendererState,
    ev: ToolEnd,
    home: Option<Seq<char>>,
    elapsed: Option<Elapsed>,
) -> (RendererState, Seq<Out>) {
    if verbosity is Off {
        (st, Seq::empty())
    } else {
        (
            RendererState { inline_tool_update_active: false, ..st },
            wipe(st) + seq![Out::Stderr(end_line(ev, home, elapsed))] + (if ev.is_error
                && verbosity is Full {
                extra_outs(telling_lines(lines(error_text(ev.result@)), 3))
            } else {
                Seq::empty()
            }),
        )
    }
}

/// When a tool call at work started.
pub open spec fn start_of(starts: Seq<(String, u64)>, id: Seq<char>) -> Option<u64>
    decreases starts.len(),
{
    if starts.len() == 0 {
        None
    } else if starts.last().0@ == id {
        Some(starts.last().1)
    } else {
        start_of(starts.drop_last(), id)
    }
}

proof fn lemma_start_pushed(starts: Seq<(String, u64)>, item: (String, u64), id: Seq<char>)
    ensures
        start_of(starts.push(item), id) == (if item.0@ == id {
            Some(item.1)
        } else {
            start_of(starts, id)
        }),
{
    assert(starts.push(item).drop_last() =~= starts);
}

/// The starts of all calls but one.
fn starts_without(starts: &Vec<(String, u64)>, id: &str) -> (r: Vec<(String, u64)>)
    ensures
        forall|k: Seq<char>| #[trigger]
            start_of(r@, k) == (if k == id@ {
                None
            } else {
                start_of(starts@, k)
            }),
{
    let mut out: Vec<(String, u64)> = Vec::new();
    let mut i: usize = 0;
    while i < starts.len()
        invariant
            i <= starts@.len(),
            forall|k: Seq<char>| #[trigger]
                start_of(out@, k) == (if k == id@ {
                    None
                } else {
                    start_of(starts@.take(i as int), k)
                }),
        decreases starts@.len() - i,
    {
        assert(starts@.take(i + 1).drop_last() =~= starts@.take(i as int));
        if !same(starts[i].0.as_str(), id) {
            let ghost before = out@;
            let item = (starts[i].0.clone(), starts[i].1);
            out.push(item);
            proof {
                assert forall|k: Seq<char>| #[trigger]
                    start_of(out@, k) == (if k == id@ {
                        None
                    } else {
                        start_of(starts@.take(i + 1), k)
                    }) by {
                    lemma_start_pushed(before, item, k);
                    assert(start_of(before, k) == (if k == id@ {
                        None
                    } else {
                        start_of(starts@.take(i as int), k)
                    }));
                }
            }
        } else {
            proof {
                assert forall|k: Seq<char>| #[trigger]
                    start_of(out@, k) == (if k == id@ {
                        None
                    } else {
                        start_of(starts@.take(i + 1), k)
                    }) by {}
            }
        }
        i = i + 1;
    }
    assert(starts@.take(starts@.len() as int) =~= starts@);
    out
}

/// What an event does to the state and to the terminal, and that it leaves the rest alone.
pub open spec fn stepped(
    before: CliTurnRenderer,
    after: CliTurnRenderer,
    out: Seq<Output>,
    step: (RendererState, Seq<Out>),
) -> bool {
    &&& after == (CliTurnRenderer { state: step.0, ..before })
    &&& outs(out) == step.1
}

impl CliTurnRenderer {
    /// A renderer that has printed nothing yet; with a session, it is bound to that session's
    /// events.
    pub fn new(
        thinking_display: ThinkingDisplay,
        session_id: Option<String>,
        print_to_stderr: bool,
        tool_cli_verbosity: ToolCliVerbosity,
    ) -> (r: CliTurnRenderer)
        ensures
            r.thinking_display == thinking_display,
            r.session_id == session_id,
            r.print_to_stderr == print_to_stderr,
            r.tool_cli_verbosity == tool_cli_verbosity,
            r.state == (RendererState {
                last_kind: LastKind::Nothing,
                thinking_prefix_printed: false,
                inline_tool_update_active: false,
            }),
            forall|k: Seq<char>| start_of(r.tool_starts@, k) is None,
    {
        CliTurnRenderer {
            session_id,
            thinking_display,
            print_to_stderr,
            tool_cli_verbosity,
            state: RendererState {
                last_kind: LastKind::Nothing,
                thinking_prefix_printed: false,
                inline_tool_update_active: false,
            },
            tool_starts: Vec::new(),
        }
    }

    /// Whether an event is meant for this renderer: not if both are bound to a session and the
    /// sessions differ.
    pub fn accepts(&self, event_session_id: Option<&str>) -> (r: bool)
        ensures
            r == (self.session_id is None || event_session_id is None || opt_text(self.session_id)
                == opt_str(event_session_id)),
    {
        match &self.session_id {
            None => true,
            Some(bound) => match event_session_id {
                None => true,
                Some(event) => same(event, bound.as_str()),
            },
        }
    }

    /// The steps that empty the Markdown renderer at the end of a run.
    pub fn flush_markdown(&self) -> (r: Vec<Output>)
        ensures
            outs(r@) == seq![Out::FlushMarkdown],
    {
        let mut out: Vec<Output> = Vec::new();
        emit(&mut out, Output::FlushMarkdown);
        assert(outs(out@) =~= seq![Out::FlushMarkdown]);
        out
    }

    /// How much thinking is shown now.
    pub fn thinking_display(&self) -> (r: ThinkingDisplay)
        ensures
            r == self.thinking_display,
    {
        self.thinking_display
    }

    fn write_thinking(&self, out: &mut Vec<Output>, s: &str)
        ensures
            outs(final(out)@) == outs(old(out)@).push(thinking_out(self.print_to_stderr, s@)),
    {
        if self.print_to_stderr {
            stderr(out, s);
        } else {
            stdout(out, s);
        }
    }

    fn wipe_inline(&mut self, out: &mut Vec<Output>)
        ensures
            *final(self) == (CliTurnRenderer {
                state: RendererState { inline_tool_update_active: false, ..old(self).state },
                ..*old(self)
            }),
            outs(final(out)@) == outs(old(out)@) + wipe(old(self).state),
    {
        if self.state.inline_tool_update_active {
            stderr(out, "\r\x1b[2K");
            self.state.inline_tool_update_active = false;
        }
        assert(outs(out@) =~= outs(old(out)@) + wipe(old(self).state));
    }

    fn write_line(&mut self, out: &mut Vec<Output>, line: &str, last_kind: LastKind)
        ensures
            *final(self) == (CliTurnRenderer {
                state: stderr_line(old(self).state, line@, last_kind).0,
                ..*old(self)
            }),
            outs(final(out)@) == outs(old(out)@) + stderr_line(old(self).state, line@, last_kind).1,
    {
        let ghost st = self.state;
        emit(out, Output::FlushMarkdown);
        self.wipe_inline(out);
        if self.state.last_kind != LastKind::Nothing {
            stderr(out, "\n");
        }
        stderr(out, line);
        self.state.last_kind = last_kind;
        assert(outs(out@) =~= outs(old(out)@) + stderr_line(st, line@, last_kind).1);
    }

    /// A new message begins: its thinking gets a prefix of its own, on a line of its own.
    pub fn on_message_start(&mut self) -> (r: Vec<Output>)
        ensures
            stepped(
                *old(self),
                *final(self),
                r@,
                message_started(old(self).print_to_stderr, old(self).state),
            ),
    {
        let mut out: Vec<Output> = Vec::new();
        self.wipe_inline(&mut out);
        if self.state.last_kind == LastKind::Thinking {
            self.write_thinking(&mut out, "\n");
        }
        self.state.thinking_prefix_printed = false;
        assert(outs(out@) =~= message_started(old(self).print_to_stderr, old(self).state).1);
        out
    }

    /// A message update arrives: thinking, a piece of the answer, or something unknown, which is
    /// left out.
    pub fn on_message_update(&mut self, event: Option<&AssistantMessageEvent>) -> (r: Vec<Output>)
        ensures
            stepped(
                *old(self),
                *final(self),
                r@,
                match event {
                    Some(e) => update_shown(
                        old(self).thinking_display,
                        old(self).print_to_stderr,
                        old(self).state,
                        text_or(e.kind, ""@),
                        text_or(e.delta, ""@),
                        opt_text(e.source),
                    ),
                    None => (old(self).state, Seq::empty()),
                },
            ),
    {
        let none: Vec<Output> = Vec::new();
        assert(outs(none@) =~= Seq::empty());
        let e = match event {
            Some(e) => e,
            None => {
                return none;
            },
        };
        let kind = str_or(&e.kind, "");
        let delta = str_or(&e.delta, "");
        if delta.is_empty() {
            return none;
        }
        proof {
            reveal_strlit("");
            reveal_strlit("thinking_delta");
            reveal_strlit("content_delta");
        }
        if same(kind, "thinking_delta") {
            match parse_thinking_source(&e.source) {
                Some(source) => self.handle_thinking_delta(delta, source),
                None => none,
            }
        } else if kind.is_empty() || same(kind, "content_delta") {
            assert(kind@.len() == 0 ==> kind@ =~= ""@);
            self.handle_content_delta(delta)
        } else {
            none
        }
    }

    /// The provider failed: its message goes to the standard error in red.
    pub fn on_llm_error(&mut self, error_message: Option<&str>, message: Option<&str>) -> (r: Vec<
        Output,
    >)
        ensures
            stepped(
                *old(self),
                *final(self),
                r@,
                provider_line(
                    old(self).state,
                    match error_message {
                        Some(m) => m@,
                        None => match message {
                            Some(m) => m@,
                            None => ""@,
                        },
                    },
                    "\x1b[31m"@,
                ),
            ),
    {
        let raw: &str = match error_message {
            Some(m) => m,
            None => match message {
                Some(m) => m,
                None => "",
            },
        };
        self.provider_message(raw, "\x1b[31m")
    }

    /// The provider has something to say: its message goes to the standard error in gray.
    pub fn on_llm_notice(&mut self, message: Option<&str>) -> (r: Vec<Output>)
        ensures
            stepped(
                *old(self),
                *final(self),
                r@,
                provider_line(
                    old(self).state,
                    match message {
                        Some(m) => m@,
                        None => ""@,
                    },
                    "\x1b[2m\x1b[90m"@,
                ),
            ),
    {
        let raw: &str = match message {
            Some(m) => m,
            None => "",
        };
        self.provider_message(raw, "\x1b[2m\x1b[90m")
    }

    fn provider_message(&mut self, raw: &str, color: &str) -> (r: Vec<Output>)
        ensures
            stepped(*old(self), *final(self), r@, provider_line(old(self).state, raw@, color@)),
    {
        let mut out: Vec<Output> = Vec::new();
        let message = trim(raw);
        if message.as_str().is_empty() {
            assert(outs(out@) =~= Seq::empty());
            return out;
        }
        let mut line = color.to_owned();
        line.append("[llm] ");
        line.append(message.as_str());
        line.append("\x1b[0m\n");
        self.write_line(&mut out, line.as_str(), LastKind::ToolStart);
        assert(outs(out@) =~= provider_line(old(self).state, raw@, color@).1);
        out
    }

    fn handle_thinking_delta(&mut self, delta: &str, source: ThinkingSource) -> (r: Vec<Output>)
        ensures
            stepped(
                *old(self),
                *final(self),
                r@,
                thinking_shown(
                    old(self).thinking_display,
                    old(self).print_to_stderr,
                    old(self).state,
                    delta@,
                    source,
                ),
            ),
    {
        let mut out: Vec<Output> = Vec::new();
        let display = self.thinking_display;
        let ghost st = self.state;
        let ghost expected = thinking_shown(display, self.print_to_stderr, st, delta@, source);
        if display != ThinkingDisplay::Minimal {
            if source == ThinkingSource::Summary && !display.shows_summary() {
                assert(outs(out@) =~= expected.1);
                return out;
            }
            if source == ThinkingSource::Raw && !display.shows_raw() {
                assert(outs(out@) =~= expected.1);
                return out;
            }
        }
        if self.state.inline_tool_update_active {
            stderr(&mut out, "\r\x1b[2K");
            self.write_thinking(&mut out, "\n");
            self.state.inline_tool_update_active = false;
        }
        if self.state.last_kind == LastKind::Content {
            emit(&mut out, Output::FlushMarkdown);
            self.write_thinking(&mut out, "\n");
        }
        assert(outs(out@) =~= before_thinking(self.print_to_stderr, st));
        if display == ThinkingDisplay::Minimal {
            if !self.state.thinking_prefix_printed {
                self.write_thinking(&mut out, "\x1b[2m\x1b[90m[thinking] …\x1b[0m");
                self.state.thinking_prefix_printed = true;
                self.state.last_kind = LastKind::Thinking;
            }
            assert(outs(out@) =~= expected.1);
            return out;
        }
        if !self.state.thinking_prefix_printed {
            self.write_thinking(&mut out, "\x1b[2m\x1b[90m[thinking]\x1b[0m ");
            self.state.thinking_prefix_printed = true;
        }
        let piece = cat3("\x1b[2m\x1b[90m", delta, "\x1b[0m");
        self.write_thinking(&mut out, piece.as_str());
        self.state.last_kind = LastKind::Thinking;
        assert(outs(out@) =~= expected.1);
        out
    }

    fn handle_content_delta(&mut self, delta: &str) -> (r: Vec<Output>)
        ensures
            stepped(*old(self), *final(self), r@, content_shown(old(self).state, delta@)),
    {
        let mut out: Vec<Output> = Vec::new();
        let ghost st = self.state;
        if self.state.inline_tool_update_active {
            stderr(&mut out, "\r\x1b[2K");
            stdout(&mut out, "\n");
            self.state.inline_tool_update_active = false;
        }
        if self.state.last_kind == LastKind::Thinking || self.state.last_kind
            == LastKind::ToolStart {
            stdout(&mut out, "\n");
        }
        self.state.last_kind = LastKind::Content;
        emit(&mut out, Output::PushMarkdown(delta.to_owned()));
        assert(outs(out@) =~= content_shown(st, delta@).1);
        out
    }

    /// The arguments of a tool call begin to arrive: announce the tool.
    pub fn on_tool_call_streaming(
        &mut self,
        tool_name: Option<&str>,
        path: Option<&str>,
        home: Option<&str>,
    ) -> (r: Vec<Output>)
        ensures
            stepped(
                *old(self),
                *final(self),
                r@,
                if old(self).tool_cli_verbosity is Full {
                    stderr_line(
                        old(self).state,
                        tool_line(
                            match tool_name {
                                Some(n) => n@,
                                None => "?"@,
                            },
                            streaming_summary(opt_str(path), opt_str(home)),
                        ),
                        LastKind::Nothing,
                    )
                } else {
                    (old(self).state, Seq::empty())
                },
            ),
    {
        let mut out: Vec<Output> = Vec::new();
        assert(outs(out@) =~= Seq::empty());
        if self.tool_cli_verbosity != ToolCliVerbosity::Full {
            return out;
        }
        let name: &str = match tool_name {
            Some(n) => n,
            None => "?",
        };
        let summary = tool_call_streaming_summary(path, home);
        let line = format_tool_line(name, summary.as_str());
        self.write_line(&mut out, line.as_str(), LastKind::Nothing);
        assert(outs(out@) =~= stderr_line(old(self).state, line@, LastKind::Nothing).1);
        out
    }

    /// A tool starts at the time `now`.
    pub fn on_tool_start(&mut self, event: &ToolStart, now: u64) -> (r: Vec<Output>)
        ensures
            ({
                let step = if old(self).tool_cli_verbosity is Full {
                    stderr_line(
                        old(self).state,
                        tool_line(text_or(event.tool_name, "?"@), event.summary@),
                        LastKind::ToolStart,
                    )
                } else {
                    (old(self).state, Seq::empty())
                };
                &&& *final(self) == (CliTurnRenderer {
                    state: step.0,
                    tool_starts: final(self).tool_starts,
                    ..*old(self)
                })
                &&& outs(r@) == step.1
            }),
            forall|k: Seq<char>| #[trigger]
                start_of(final(self).tool_starts@, k) == (if k == text_or(
                    event.tool_call_id,
                    ""@,
                ) {
                    Some(now)
                } else {
                    start_of(old(self).tool_starts@, k)
                }),
    {
        let mut out: Vec<Output> = Vec::new();
        assert(outs(out@) =~= Seq::empty());
        let call_id = str_or(&event.tool_call_id, "");
        let mut starts = starts_without(&self.tool_starts, call_id);
        let ghost kept = starts@;
        let item = (call_id.to_owned(), now);
        starts.push(item);
        proof {
            assert forall|k: Seq<char>| #[trigger]
                start_of(starts@, k) == (if k == call_id@ {
                    Some(now)
                } else {
                    start_of(old(self).tool_starts@, k)
                }) by {
                lemma_start_pushed(kept, item, k);
                assert(start_of(kept, k) == (if k == call_id@ {
                    None
                } else {
                    start_of(old(self).tool_starts@, k)
                }));
            }
        }
        self.tool_starts = starts;
        if self.tool_cli_verbosity != ToolCliVerbosity::Full {
            return out;
        }
        let name = str_or(&event.tool_name, "?");
        let line = format_tool_line(name, event.summary.as_str());
        self.write_line(&mut out, line.as_str(), LastKind::ToolStart);
        assert(outs(out@) =~= stderr_line(old(self).state, line@, LastKind::ToolStart).1);
        out
    }

    /// Forgets a tool call that ended, and tells when it started.
    pub fn take_tool_start(&mut self, tool_call_id: Option<&str>) -> (r: Option<u64>)
        ensures
            r == start_of(
                old(self).tool_starts@,
                match tool_call_id {
                    Some(s) => s@,
                    None => ""@,
                },
            ),
            *final(self) == (CliTurnRenderer {
                tool_starts: final(self).tool_starts,
                ..*old(self)
            }),
            forall|k: Seq<char>| #[trigger]
                start_of(final(self).tool_starts@, k) == (if k == (match tool_call_id {
                    Some(s) => s@,
                    None => ""@,
                }) {
                    None
                } else {
                    start_of(old(self).tool_starts@, k)
                }),
    {
        let id: &str = match tool_call_id {
            Some(s) => s,
            None => "",
        };
        let mut found: Option<u64> = None;
        let mut i: usize = self.tool_starts.len();
        assert(self.tool_starts@.take(i as int) =~= self.tool_starts@);
        while i > 0 && found.is_none()
            invariant
                i <= self.tool_starts@.len(),
                *self == *old(self),
                match found {
                    Some(t) => start_of(self.tool_starts@, id@) == Some(t),
                    None => start_of(self.tool_starts@, id@) == start_of(
                        self.tool_starts@.take(i as int),
                        id@,
                    ),
                },
            decreases i,
        {
            assert(self.tool_starts@.take(i as int).drop_last() =~= self.tool_starts@.take(i - 1));
            i = i - 1;
            if same(self.tool_starts[i].0.as_str(), id) {
                found = Some(self.tool_starts[i].1);
            }
        }
        let starts = starts_without(&self.tool_starts, id);
        self.tool_starts = starts;
        found
    }

    /// A tool that waits reports: the countdown line is rewritten in place, on a terminal only.
    pub fn on_tool_update(&mut self, event: &ToolUpdate, stderr_is_terminal: bool) -> (r: Vec<
        Output,
    >)
        ensures
            stepped(
                *old(self),
                *final(self),
                r@,
                if old(self).tool_cli_verbosity is Full && stderr_is_terminal {
                    (
                        RendererState { inline_tool_update_active: true, ..old(self).state },
                        seq![Out::Stderr(countdown_line(*event))],
                    )
                } else {
                    (old(self).state, Seq::empty())
                },
            ),
    {
        let mut out: Vec<Output> = Vec::new();
        assert(outs(out@) =~= Seq::empty());
        if self.tool_cli_verbosity != ToolCliVerbosity::Full {
            return out;
        }
        if !stderr_is_terminal {
            return out;
        }
        let remaining: u64 = match event.remaining_ms {
            Some(n) => n,
            None => 0,
        };
        let timeout: u64 = match event.wait_ms {
            Some(n) => n,
            None => match event.timeout_ms {
                Some(n) => n,
                None => 0,
            },
        };
        let mut line = "\r\x1b[2K\x1b[90m[tool] ".to_owned();
        line.append(str_or(&event.tool_name, "?"));
        line.append(" … ");
        line.append(str_or(&event.phase, "update"));
        line.append("  task=");
        line.append(str_or(&event.task_id, "?"));
        line.append(" remaining=");
        line.append(format_countdown_ms(remaining).as_str());
        line.append("/");
        line.append(format_countdown_ms(timeout).as_str());
        line.append("\x1b[0m");
        stderr(&mut out, line.as_str());
        self.state.inline_tool_update_active = true;
        assert(outs(out@) =~= seq![Out::Stderr(countdown_line(*event))]);
        out
    }

    /// A tool ends after `elapsed`: its closing line, and the first lines of what went wrong.
    pub fn on_tool_end(
        &mut self,
        event: &ToolEnd,
        elapsed: Option<&Elapsed>,
        home: Option<&str>,
    ) -> (r: Vec<Output>)
        ensures
            stepped(
                *old(self),
                *final(self),
                r@,
                tool_ended(
                    old(self).tool_cli_verbosity,
                    old(self).state,
                    *event,
                    opt_str(home),
                    match elapsed {
                        Some(e) => Some(*e),
                        None => None,
                    },
                ),
            ),
    {
        let mut out: Vec<Output> = Vec::new();
        assert(outs(out@) =~= Seq::empty());
        if self.tool_cli_verbosity == ToolCliVerbosity::Off {
            return out;
        }
        let ghost st = self.state;
        let ghost taken: Option<Elapsed> = match elapsed {
            Some(e) => Some(*e),
            None => None,
        };
        self.wipe_inline(&mut out);
        let line = format_end_line(event, elapsed, home);
        stderr(&mut out, line.as_str());
        assert(outs(out@) =~= wipe(st) + seq![Out::Stderr(end_line(*event, opt_str(home), taken))]);
        let ghost head = outs(out@);
        if event.is_error && self.tool_cli_verbosity == ToolCliVerbosity::Full {
            let extra = error_extra_lines(&event.result, 3);
            let ghost all = texts(extra@);
            let mut i: usize = 0;
            while i < extra.len()
                invariant
                    i <= extra@.len(),
                    all == texts(extra@),
                    outs(out@) == head + extra_outs(all.take(i as int)),
                decreases extra@.len() - i,
            {
                let text = cat3("\x1b[31m       ", extra[i].as_str(), "\x1b[0m\n");
                let ghost before = outs(out@);
                stderr(&mut out, text.as_str());
                assert(extra_outs(all.take(i + 1)) =~= extra_outs(all.take(i as int)).push(
                    Out::Stderr(text@),
                ));
                assert(outs(out@) =~= head + extra_outs(all.take(i + 1)));
                i = i + 1;
            }
            assert(all.take(all.len() as int) =~= all);
        }
        assert(outs(out@) =~= tool_ended(
            old(self).tool_cli_verbosity,
            st,
            *event,
            opt_str(home),
            taken,
        ).1);
        out
    }
}

/// The source that an event names.
pub fn parse_thinking_source(source: &Option<String>) -> (r: Option<ThinkingSource>)
    ensures
        r == source_of(opt_text(*source)),
{
    proof {
        reveal_strlit("summary");
        reveal_strlit("raw");
    }
    match source {
        None => Some(ThinkingSource::Raw),
        Some(s) => if same(s.as_str(), "summary") {
            Some(ThinkingSource::Summary)
        } else if same(s.as_str(), "raw") {
            Some(ThinkingSource::Raw)
        } else {
            None
        },
    }
}

/// What is told of a tool call whose arguments still arrive.
pub fn tool_call_streaming_summary(path: Option<&str>, home: Option<&str>) -> (r: String)
    ensures
        r@ == streaming_summary(opt_str(path), opt_str(home)),
{
    match path {
        Some(p) => cat3(
            "path=",
            expand_path_for_terminal(p, home).as_str(),
            "  receiving args...",
        ),
        None => "receiving args...".to_owned(),
    }
}

fn format_tool_line(name: &str, summary: &str) -> (r: String)
    ensures
        r@ == tool_line(name@, summary@),
{
    let mut line = "\x1b[90m[tool] ".to_owned();
    line.append(name);
    line.append("  ");
    line.append(summary);
    line.append("\x1b[0m\n");
    line
}

/// How long a tool worked, in text.
pub fn elapsed_label(elapsed: Option<&Elapsed>) -> (r: String)
    ensures
        r@ == elapsed_text(
            match elapsed {
                Some(e) => Some(*e),
                None => None,
            },
        ),
{
    match elapsed {
        None => "?".to_owned(),
        Some(e) => if e.millis < 1000 {
            cat(decimal_u64(e.millis).as_str(), "ms")
        } else {
            cat(e.seconds.as_str(), "s")
        },
    }
}

fn format_end_line(event: &ToolEnd, elapsed: Option<&Elapsed>, home: Option<&str>) -> (r: String)
    ensures
        r@ == end_line(
            *event,
            opt_str(home),
            match elapsed {
                Some(e) => Some(*e),
                None => None,
            },
        ),
{
    let display = match &event.display {
        Some(d) => Some(d),
        None => None,
    };
    let summary = result_summary_for_tool(&event.result, display, event.is_error, home);
    let mut line = (if event.is_error {
        "\x1b[31m"
    } else {
        "\x1b[32m"
    }).to_owned();
    line.append("[tool] ");
    line.append(str_or(&event.tool_name, "?"));
    line.append("  ");
    line.append(
        if event.is_error {
            "✗"
        } else {
            "✓"
        },
    );
    line.append(" ");
    line.append(summary.as_str());
    line.append(" (");
    line.append(elapsed_label(elapsed).as_str());
    line.append(")\x1b[0m\n");
    line
}

// ---------------------------------------------------------------- laws

/// One piece of thinking: its text and its source.
pub ghost struct Thought {
    pub delta: Seq<char>,
    pub source: ThinkingSource,
}

/// A run of thinking, with nothing else in between.
pub open spec fn thinking_run(
    display: ThinkingDisplay,
    to_stderr: bool,
    st: RendererState,
    run: Seq<Thought>,
) -> (RendererState, Seq<Out>)
    decreases run.len(),
{
    if run.len() == 0 {
        (st, Seq::empty())
    } else {
        let first = thinking_run(display, to_stderr, st, run.drop_last());
        let next = thinking_shown(
            display,
            to_stderr,
            first.0,
            run.last().delta,
            run.last().source,
        );
        (next.0, first.1 + next.1)
    }
}

/// Folded thinking takes one line per message: however many pieces arrive, the placeholder is
/// printed once, and none of their text is.
pub proof fn law_folded_thinking_prints_once(to_stderr: bool, st: RendererState, run: Seq<Thought>)
    requires
        run.len() > 0,
        !st.thinking_prefix_printed,
    ensures
        thinking_run(ThinkingDisplay::Minimal, to_stderr, st, run) == (
            RendererState {
                last_kind: LastKind::Thinking,
                thinking_prefix_printed: true,
                inline_tool_update_active: false,
            },
            before_thinking(to_stderr, st) + seq![thinking_out(to_stderr, folded_prefix())],
        ),
    decreases run.len(),
{
    reveal_with_fuel(thinking_run, 2);
    let display = ThinkingDisplay::Minimal;
    let total = thinking_run(display, to_stderr, st, run).1;
    let all = before_thinking(to_stderr, st) + seq![thinking_out(to_stderr, folded_prefix())];
    if run.len() == 1 {
        assert(run.drop_last() =~= Seq::empty());
        assert(total =~= all);
    } else {
        law_folded_thinking_prints_once(to_stderr, st, run.drop_last());
        let first = thinking_run(display, to_stderr, st, run.drop_last());
        assert(before_thinking(to_stderr, first.0) =~= Seq::empty());
        assert(total =~= all);
    }
}

/// Thinking that is shown streams on one line: the prefix once, then each piece in its order.
pub proof fn law_shown_thinking_streams(to_stderr: bool, st: RendererState, run: Seq<Thought>)
    requires
        run.len() > 0,
        !st.thinking_prefix_printed,
    ensures
        thinking_run(ThinkingDisplay::Full, to_stderr, st, run).1 == before_thinking(to_stderr, st)
            + seq![thinking_out(to_stderr, thinking_prefix())] + run.map_values(
            |t: Thought|
                thinking_out(to_stderr, "\x1b[2m\x1b[90m"@ + t.delta + "\x1b[0m"@),
        ),
        thinking_run(ThinkingDisplay::Full, to_stderr, st, run).0 == (RendererState {
            last_kind: LastKind::Thinking,
            thinking_prefix_printed: true,
            inline_tool_update_active: false,
        }),
    decreases run.len(),
{
    reveal_with_fuel(thinking_run, 2);
    let display = ThinkingDisplay::Full;
    let piece = |t: Thought|
        thinking_out(to_stderr, "\x1b[2m\x1b[90m"@ + t.delta + "\x1b[0m"@);
    let total = thinking_run(display, to_stderr, st, run).1;
    let head = before_thinking(to_stderr, st) + seq![thinking_out(to_stderr, thinking_prefix())];
    if run.len() == 1 {
        assert(run.drop_last() =~= Seq::empty());
        assert(total =~= head + run.map_values(piece));
    } else {
        law_shown_thinking_streams(to_stderr, st, run.drop_last());
        let first = thinking_run(display, to_stderr, st, run.drop_last());
        assert(before_thinking(to_stderr, first.0) =~= Seq::empty());
        assert(run.map_values(piece) =~= run.drop_last().map_values(piece).push(piece(run.last())));
        assert(total =~= head + run.map_values(piece));
    }
}

/// A countdown line never stays under other output: every event that prints something else
/// leaves no countdown line, and wipes one that stands there before it writes any text.
pub proof fn law_countdown_is_wiped(
    display: ThinkingDisplay,
    to_stderr: bool,
    st: RendererState,
    text: Seq<char>,
    source: ThinkingSource,
    last_kind: LastKind,
    verbosity: ToolCliVerbosity,
    ev: ToolEnd,
    home: Option<Seq<char>>,
    elapsed: Option<Elapsed>,
)
    requires
        st.inline_tool_update_active,
        !(verbosity is Off),
    ensures
        !message_started(to_stderr, st).0.inline_tool_update_active,
        message_started(to_stderr, st).1[0] == Out::Stderr("\r\x1b[2K"@),
        !content_shown(st, text).0.inline_tool_update_active,
        content_shown(st, text).1[0] == Out::Stderr("\r\x1b[2K"@),
        !stderr_line(st, text, last_kind).0.inline_tool_update_active,
        stderr_line(st, text, last_kind).1[0] == Out::FlushMarkdown,
        stderr_line(st, text, last_kind).1[1] == Out::Stderr("\r\x1b[2K"@),
        thinking_shown(display, to_stderr, st, text, source).1.len() > 0 ==> {
            &&& !thinking_shown(display, to_stderr, st, text, source).0.inline_tool_update_active
            &&& thinking_shown(display, to_stderr, st, text, source).1[0] == Out::Stderr(
                "\r\x1b[2K"@,
            )
        },
        !tool_ended(verbosity, st, ev, home, elapsed).0.inline_tool_update_active,
        tool_ended(verbosity, st, ev, home, elapsed).1[0] == Out::Stderr("\r\x1b[2K"@),
{
}

/// The end of a tool's work leaves what was printed last as it was, so that the answer after it
/// still starts on a line of its own.
pub proof fn law_tool_end_keeps_last_kind(
    verbosity: ToolCliVerbosity,
    st: RendererState,
    ev: ToolEnd,
    home: Option<Seq<char>>,
    elapsed: Option<Elapsed>,
    delta: Seq<char>,
)
    ensures
        tool_ended(verbosity, st, ev, home, elapsed).0.last_kind == st.last_kind,
        st.last_kind is ToolStart && !st.inline_tool_update_active ==> content_shown(
            tool_ended(verbosity, st, ev, home, elapsed).0,
            delta,
        ).1 == seq![Out::Stdout("\n"@), Out::PushMarkdown(delta)],
{
    let after = tool_ended(verbosity, st, ev, home, elapsed).0;
    if st.last_kind is ToolStart && !st.inline_tool_update_active {
        assert(content_shown(after, delta).1 =~= seq![
            Out::Stdout("\n"@),
            Out::PushMarkdown(delta),
        ]);
    }
}

/// Thinking and the answer never share a line: an answer that follows thinking begins with a line
/// break.
pub proof fn law_answer_after_thinking_breaks_line(
    to_stderr: bool,
    st: RendererState,
    thought: Seq<char>,
    delta: Seq<char>,
)
    ensures
        ({
            let st1 = thinking_shown(
                ThinkingDisplay::Full,
                to_stderr,
                st,
                thought,
                ThinkingSource::Raw,
            ).0;
            content_shown(st1, delta).1 == seq![Out::Stdout("\n"@), Out::PushMarkdown(delta)]
        }),
{
    let st1 = thinking_shown(ThinkingDisplay::Full, to_stderr, st, thought, ThinkingSource::Raw).0;
    assert(content_shown(st1, delta).1 =~= seq![Out::Stdout("\n"@), Out::PushMarkdown(delta)]);
}

/// The listeners that a renderer has on an event bus.
#[derive(Clone, Copy, Debug, PartialEq, Eq, Structural)]
pub struct CliTurnRendererListenerIds {
    pub msg_start: u64,
    pub msg: u64,
    pub tool_call_streaming: u64,
    pub tool_start: u64,
    pub tool_update: u64,
    pub tool_end: u64,
    pub llm_error: u64,
    pub llm_notice: u64,
}

impl CliTurnRendererListenerIds {
    /// All of the listeners, to be taken off the bus.
    pub fn all(&self) -> (r: Vec<u64>)
        ensures
            r@ == seq![
                self.msg_start,
                self.msg,
                self.tool_call_streaming,
                self.tool_start,
                self.tool_update,
                self.tool_end,
                self.llm_error,
                self.llm_notice,
            ],
    {
        let mut v: Vec<u64> = Vec::new();
        v.push(self.msg_start);
        v.push(self.msg);
        v.push(self.tool_call_streaming);
        v.push(self.tool_start);
        v.push(self.tool_update);
        v.push(self.tool_end);
        v.push(self.llm_error);
        v.push(self.llm_notice);
        assert(v@ =~= seq![
            self.msg_start,
            self.msg,
            self.tool_call_streaming,
            self.tool_start,
            self.tool_update,
            self.tool_end,
            self.llm_error,
            self.llm_notice,
        ]);
        v
    }
}

/// The pieces of an answer, with nothing in between.
pub open spec fn answer_run(st: RendererState, run: Seq<Seq<char>>) -> (RendererState, Seq<Out>)
    decreases run.len(),
{
    if run.len() == 0 {
        (st, Seq::empty())
    } else {
        let first = answer_run(st, run.drop_last());
        let next = content_shown(first.0, run.last());
        (next.0, first.1 + next.1)
    }
}

/// An answer reads on without line breaks: behind its first piece nothing is written but the pieces
/// themselves, each handed to the Markdown renderer in its order.
pub proof fn law_answers_stream_without_breaks(st: RendererState, run: Seq<Seq<char>>)
    requires
        run.len() > 0,
    ensures
        answer_run(st, run).1 == content_shown(st, run[0]).1 + run.drop_first().map_values(
            |d: Seq<char>| Out::PushMarkdown(d),
        ),
        answer_run(st, run).0.last_kind is Content,
        !answer_run(st, run).0.inline_tool_update_active,
        answer_run(st, run).0.thinking_prefix_printed == st.thinking_prefix_printed,
    decreases run.len(),
{
    reveal_with_fuel(answer_run, 2);
    let push = |d: Seq<char>| Out::PushMarkdown(d);
    let total = answer_run(st, run).1;
    if run.len() == 1 {
        assert(run.drop_last() =~= Seq::<Seq<char>>::empty());
        assert(total =~= content_shown(st, run[0]).1 + run.drop_first().map_values(push));
    } else {
        let front = run.drop_last();
        law_answers_stream_without_breaks(st, front);
        let before = answer_run(st, front).0;
        assert(content_shown(before, run.last()).1 =~= seq![Out::PushMarkdown(run.last())]);
        assert(run.drop_first() =~= front.drop_first().push(run.last()));
        assert(run.drop_first().map_values(push) =~= front.drop_first().map_values(push).push(
            Out::PushMarkdown(run.last()),
        ));
        assert(total =~= content_shown(st, run[0]).1 + run.drop_first().map_values(push));
    }
}

/// The first piece of an answer starts on a line of its own: behind thinking or a tool a line break
/// stands before it, and behind an answer or at the start there is none.
pub proof fn law_answers_start_on_their_own_line(st: RendererState, delta: Seq<char>)
    requires
        !st.inline_tool_update_active,
    ensures
        st.last_kind is Thinking || st.last_kind is ToolStart ==> content_shown(st, delta).1 == seq![
            Out::Stdout("\n"@),
            Out::PushMarkdown(delta),
        ],
        st.last_kind is Nothing || st.last_kind is Content ==> content_shown(st, delta).1 == seq![
            Out::PushMarkdown(delta),
        ],
{
    assert(st.last_kind is Thinking || st.last_kind is ToolStart ==> content_shown(st, delta).1 =~= seq![
        Out::Stdout("\n"@),
        Out::PushMarkdown(delta),
    ]);
    assert(st.last_kind is Nothing || st.last_kind is Content ==> content_shown(st, delta).1 =~= seq![
        Out::PushMarkdown(delta),
    ]);
}

/// One update of a message: its kind, its text and where it says it comes from.
pub ghost struct Update {
    pub kind: Seq<char>,
    pub delta: Seq<char>,
    pub source: Option<Seq<char>>,
}

/// The updates of a turn, one after the other.
pub open spec fn update_run(
    display: ThinkingDisplay,
    to_stderr: bool,
    st: RendererState,
    run: Seq<Update>,
) -> (RendererState, Seq<Out>)
    decreases run.len(),
{
    if run.len() == 0 {
        (st, Seq::empty())
    } else {
        let first = update_run(display, to_stderr, st, run.drop_last());
        let u = run.last();
        let next = update_shown(display, to_stderr, first.0, u.kind, u.delta, u.source);
        (next.0, first.1 + next.1)
    }
}

/// The texts that are handed to the Markdown renderer.
pub open spec fn pushed(all: Seq<Out>) -> Seq<Out> {
    all.filter(|o: Out| o is PushMarkdown)
}

/// The updates that bring a piece of the answer.
pub open spec fn answers(run: Seq<Update>) -> Seq<Update> {
    run.filter(
        |u: Update| u.delta.len() > 0 && (u.kind == ""@ || u.kind == "content_delta"@),
    )
}

proof fn lemma_pushed_add(a: Seq<Out>, b: Seq<Out>)
    ensures
        pushed(a + b) == pushed(a) + pushed(b),
{
    Seq::filter_distributes_over_add(a, b, |o: Out| o is PushMarkdown);
}

proof fn lemma_none_pushed(a: Seq<Out>)
    requires
        forall|i: int| 0 <= i < a.len() ==> !((#[trigger] a[i]) is PushMarkdown),
    ensures
        pushed(a) == Seq::<Out>::empty(),
    decreases a.len(),
{
    reveal(Seq::filter);
    if a.len() > 0 {
        let front = a.drop_last();
        assert forall|i: int| 0 <= i < front.len() implies !((#[trigger] front[i]) is PushMarkdown) by {
            assert(front[i] == a[i]);
        }
        lemma_none_pushed(front);
        assert(!(a[a.len() - 1] is PushMarkdown));
    } else {
        assert(pushed(a) =~= Seq::<Out>::empty());
    }
}

/// Nothing of an answer is lost, doubled or moved: whatever is thought in between, and however that is
/// shown, the Markdown renderer gets the pieces of the answer and nothing else, each once, in their
/// order.
#[verifier::rlimit(40)]
#[verifier::spinoff_prover]
pub proof fn law_answer_is_handed_on_whole(
    display: ThinkingDisplay,
    to_stderr: bool,
    st: RendererState,
    run: Seq<Update>,
)
    ensures
        pushed(update_run(display, to_stderr, st, run).1) == answers(run).map_values(
            |u: Update| Out::PushMarkdown(u.delta),
        ),
    decreases run.len(),
{
    reveal(Seq::filter);
    reveal_strlit("");
    reveal_strlit("content_delta");
    reveal_strlit("thinking_delta");
    let piece = |u: Update| Out::PushMarkdown(u.delta);
    if run.len() == 0 {
        assert(pushed(update_run(display, to_stderr, st, run).1) =~= answers(run).map_values(piece));
    } else {
        let front = run.drop_last();
        law_answer_is_handed_on_whole(display, to_stderr, st, front);
        let first = update_run(display, to_stderr, st, front);
        let u = run.last();
        let next = update_shown(display, to_stderr, first.0, u.kind, u.delta, u.source);
        lemma_pushed_add(first.1, next.1);
        if u.delta.len() > 0 && (u.kind == ""@ || u.kind == "content_delta"@) {
            assert(u.kind != "thinking_delta"@) by {
                assert(""@.len() != "thinking_delta"@.len());
                assert("content_delta"@.len() != "thinking_delta"@.len());
            }
            let head = next.1.drop_last();
            assert(next.1 =~= head.push(Out::PushMarkdown(u.delta)));
            lemma_none_pushed(head);
            assert(pushed(next.1) =~= seq![Out::PushMarkdown(u.delta)]);
            assert(answers(run) =~= answers(front).push(u));
            assert(answers(run).map_values(piece) =~= answers(front).map_values(piece).push(
                Out::PushMarkdown(u.delta),
            ));
        } else {
            lemma_none_pushed(next.1);
            assert(answers(run) == answers(front));
        }
        assert(pushed(update_run(display, to_stderr, st, run).1) =~= answers(run).map_values(piece));
    }
}

/// Updates without text, or of a kind that is not known, change nothing and print nothing; an update
/// without a kind is a piece of the answer, and thinking that names no source is raw.
pub proof fn law_what_updates_mean(
    display: ThinkingDisplay,
    to_stderr: bool,
    st: RendererState,
    kind: Seq<char>,
    delta: Seq<char>,
    source: Option<Seq<char>>,
)
    ensures
        delta.len() == 0 ==> update_shown(display, to_stderr, st, kind, delta, source) == (
            st,
            Seq::<Out>::empty(),
        ),
        kind != ""@ && kind != "content_delta"@ && kind != "thinking_delta"@ ==> update_shown(
            display,
            to_stderr,
            st,
            kind,
            delta,
            source,
        ) == (st, Seq::<Out>::empty()),
        update_shown(display, to_stderr, st, ""@, delta, source) == update_shown(
            display,
            to_stderr,
            st,
            "content_delta"@,
            delta,
            None,
        ),
        update_shown(display, to_stderr, st, "thinking_delta"@, delta, None) == update_shown(
            display,
            to_stderr,
            st,
            "thinking_delta"@,
            delta,
            Some("raw"@),
        ),
        source != Some("raw"@) && source != Some("summary"@) && source is Some ==> update_shown(
            display,
            to_stderr,
            st,
            "thinking_delta"@,
            delta,
            source,
        ) == (st, Seq::<Out>::empty()),
{
    reveal_strlit("");
    reveal_strlit("content_delta");
    reveal_strlit("thinking_delta");
    reveal_strlit("raw");
    reveal_strlit("summary");
    assert(""@.len() == 0 && "thinking_delta"@.len() == 14 && "content_delta"@.len() == 13);
    assert("raw"@.len() != "summary"@.len());
}

/// Thinking is shown as the user wants it: all of it, or summaries only, or none of its text. What is not
/// shown prints nothing, and what is shown ends with its own text and nothing of it is changed.
pub proof fn law_thinking_is_shown_as_wanted(
    display: ThinkingDisplay,
    to_stderr: bool,
    st: RendererState,
    delta: Seq<char>,
    source: ThinkingSource,
)
    ensures
        display is Summary && source is Raw ==> thinking_shown(display, to_stderr, st, delta, source)
            == (st, Seq::<Out>::empty()),
        display is Full || display is Summary && source is Summary ==> {
            let r = thinking_shown(display, to_stderr, st, delta, source);
            &&& r.1.len() > 0
            &&& r.1.last() == thinking_out(to_stderr, "\x1b[2m\x1b[90m"@ + delta + "\x1b[0m"@)
            &&& r.0.last_kind is Thinking
            &&& r.0.thinking_prefix_printed
        },
        display is Minimal && st.thinking_prefix_printed && !st.inline_tool_update_active && !(
        st.last_kind is Content) ==> thinking_shown(display, to_stderr, st, delta, source) == (
            st,
            Seq::<Out>::empty(),
        ),
        display is Minimal ==> forall|other: Seq<char>|
            thinking_shown(display, to_stderr, st, delta, source) == #[trigger] thinking_shown(
                display,
                to_stderr,
                st,
                other,
                source,
            ),
{
    if display is Minimal && st.thinking_prefix_printed && !st.inline_tool_update_active && !(
    st.last_kind is Content) {
        assert(before_thinking(to_stderr, st) =~= Seq::<Out>::empty());
    }
}

/// Thinking goes to the channel that is set for it: on the standard error it never touches the standard
/// output, and on the standard output nothing of it is on the standard error but the wiping of a
/// countdown.
pub proof fn law_thinking_keeps_to_its_channel(
    display: ThinkingDisplay,
    st: RendererState,
    delta: Seq<char>,
    source: ThinkingSource,
    i: int,
)
    ensures
        0 <= i < thinking_shown(display, true, st, delta, source).1.len() ==> !(thinking_shown(
            display,
            true,
            st,
            delta,
            source,
        ).1[i] is Stdout),
        0 <= i < thinking_shown(display, false, st, delta, source).1.len() && (i > 0
            || !st.inline_tool_update_active) ==> !(thinking_shown(
            display,
            false,
            st,
            delta,
            source,
        ).1[i] is Stderr),
{
}

/// Thinking behind an answer waits for the rest of the answer and starts on a line of its own; behind
/// anything else it needs no line break.
pub proof fn law_thinking_after_an_answer_breaks_line(to_stderr: bool, st: RendererState)
    requires
        !st.inline_tool_update_active,
    ensures
        st.last_kind is Content ==> before_thinking(to_stderr, st) == seq![
            Out::FlushMarkdown,
            if to_stderr {
                Out::Stderr("\n"@)
            } else {
                Out::Stdout("\n"@)
            },
        ],
        !(st.last_kind is Content) ==> before_thinking(to_stderr, st) == Seq::<Out>::empty(),
{
    assert(st.last_kind is Content ==> before_thinking(to_stderr, st) =~= seq![
        Out::FlushMarkdown,
        thinking_out(to_stderr, "\n"@),
    ]);
    assert(!(st.last_kind is Content) ==> before_thinking(to_stderr, st) =~= Seq::<Out>::empty());
}

/// A new message ends the line of the thinking before it, if there was any, and lets its own thinking
/// have a prefix again; what was printed last stays known.
pub proof fn law_messages_start_afresh(to_stderr: bool, st: RendererState)
    ensures
        !message_started(to_stderr, st).0.thinking_prefix_printed,
        message_started(to_stderr, st).0.last_kind == st.last_kind,
        !st.inline_tool_update_active && st.last_kind is Thinking ==> message_started(
            to_stderr,
            st,
        ).1 == seq![
            if to_stderr {
                Out::Stderr("\n"@)
            } else {
                Out::Stdout("\n"@)
            },
        ],
        !st.inline_tool_update_active && !(st.last_kind is Thinking) ==> message_started(
            to_stderr,
            st,
        ).1 == Seq::<Out>::empty(),
{
    assert(!st.inline_tool_update_active && st.last_kind is Thinking ==> message_started(
        to_stderr,
        st,
    ).1 =~= seq![thinking_out(to_stderr, "\n"@)]);
    assert(!st.inline_tool_update_active && !(st.last_kind is Thinking) ==> message_started(
        to_stderr,
        st,
    ).1 =~= Seq::<Out>::empty());
}

/// A line about tools or the provider comes whole, after the rest of the answer, on a line of its own,
/// and never on the standard output.
pub proof fn law_lines_come_after_the_answer(st: RendererState, line: Seq<char>, kind: LastKind, i: int)
    ensures
        stderr_line(st, line, kind).1.len() > 1,
        stderr_line(st, line, kind).1[0] is FlushMarkdown,
        stderr_line(st, line, kind).1.last() == Out::Stderr(line),
        0 <= i < stderr_line(st, line, kind).1.len() ==> !(stderr_line(st, line, kind).1[i] is Stdout),
        !st.inline_tool_update_active && !(st.last_kind is Nothing) ==> stderr_line(st, line, kind).1
            == seq![Out::FlushMarkdown, Out::Stderr("\n"@), Out::Stderr(line)],
        !st.inline_tool_update_active && st.last_kind is Nothing ==> stderr_line(st, line, kind).1
            == seq![Out::FlushMarkdown, Out::Stderr(line)],
        stderr_line(st, line, kind).0.last_kind == kind,
        stderr_line(st, line, kind).0.thinking_prefix_printed == st.thinking_prefix_printed,
{
    assert(!st.inline_tool_update_active && !(st.last_kind is Nothing) ==> stderr_line(st, line, kind).1
        =~= seq![Out::FlushMarkdown, Out::Stderr("\n"@), Out::Stderr(line)]);
    assert(!st.inline_tool_update_active && st.last_kind is Nothing ==> stderr_line(st, line, kind).1
        =~= seq![Out::FlushMarkdown, Out::Stderr(line)]);
}

/// What the provider says is told without the white space around it, and not at all if it is blank.
#[verifier::rlimit(40)]
#[verifier::spinoff_prover]
pub proof fn law_provider_messages_are_told(st: RendererState, message: Seq<char>, color: Seq<char>)
    ensures
        trimmed(message).len() == 0 ==> provider_line(st, message, color) == (st, Seq::<Out>::empty()),
        trimmed(message).len() > 0 ==> {
            let r = provider_line(st, message, color);
            &&& r.1.len() > 0
            &&& r.1.last() matches Out::Stderr(line)
            &&& crate::search::has_text(line, trimmed(message))
            &&& has_prefix(line, color)
            &&& r.0.last_kind is ToolStart
        },
{
    if trimmed(message).len() > 0 {
        let line = color + "[llm] "@ + trimmed(message) + "\x1b[0m\n"@;
        crate::search::lemma_text_in_itself(trimmed(message));
        crate::search::lemma_text_within(
            color + "[llm] "@,
            trimmed(message),
            "\x1b[0m\n"@,
            trimmed(message),
        );
        assert(line.subrange(0, color.len() as int) =~= color);
    }
}

/// The line of a tool names the tool and tells what it works on, both in full.
#[verifier::rlimit(40)]
#[verifier::spinoff_prover]
pub proof fn law_tool_lines_name_the_tool(name: Seq<char>, summary: Seq<char>)
    ensures
        crate::search::has_text(tool_line(name, summary), name + "  "@ + summary),
{
    let told = name + "  "@ + summary;
    crate::search::lemma_text_in_itself(told);
    crate::search::lemma_text_within("\x1b[90m[tool] "@, told, "\x1b[0m\n"@, told);
    assert(tool_line(name, summary) =~= "\x1b[90m[tool] "@ + told + "\x1b[0m\n"@);
}

/// The closing line of a tool names it, tells whether it failed, what came of it and how long it took.
#[verifier::rlimit(40)]
#[verifier::spinoff_prover]
pub proof fn law_end_lines_tell_how_it_went(
    ev: ToolEnd,
    home: Option<Seq<char>>,
    elapsed: Option<Elapsed>,
)
    ensures
        crate::search::has_text(
            end_line(ev, home, elapsed),
            text_or(ev.tool_name, "?"@) + "  "@ + (if ev.is_error {
                "✗"@
            } else {
                "✓"@
            }) + " "@ + result_line(ev.result@, ev.display, ev.is_error, home) + " ("@ + elapsed_text(
                elapsed,
            ) + ")"@,
        ),
        has_prefix(
            end_line(ev, home, elapsed),
            if ev.is_error {
                "\x1b[31m"@
            } else {
                "\x1b[32m"@
            },
        ),
{
    let color = if ev.is_error {
        "\x1b[31m"@
    } else {
        "\x1b[32m"@
    };
    let mark = if ev.is_error {
        "✗"@
    } else {
        "✓"@
    };
    let front = text_or(ev.tool_name, "?"@) + "  "@ + mark + " "@ + result_line(
        ev.result@,
        ev.display,
        ev.is_error,
        home,
    ) + " ("@ + elapsed_text(elapsed);
    let told = front + ")"@;
    reveal_strlit(")");
    reveal_strlit(")\x1b[0m\n");
    reveal_strlit("\x1b[0m\n");
    assert(")\x1b[0m\n"@ =~= ")"@ + "\x1b[0m\n"@);
    let all = end_line(ev, home, elapsed);
    crate::search::lemma_text_in_itself(told);
    crate::search::lemma_text_within(color + "[tool] "@, told, "\x1b[0m\n"@, told);
    assert(all =~= (color + "[tool] "@) + front + ")\x1b[0m\n"@);
    assert(all =~= (color + "[tool] "@) + told + "\x1b[0m\n"@);
    assert(all.subrange(0, color.len() as int) =~= color);
}

/// How long a tool took is told in milliseconds below one second, and else in seconds.
pub proof fn law_times_are_told_in_their_unit(t: Elapsed)
    ensures
        t.millis < 1000 ==> elapsed_text(Some(t)) == decimal(t.millis as nat) + "ms"@,
        t.millis >= 1000 ==> elapsed_text(Some(t)) == t.seconds@ + "s"@,
        elapsed_text(None) == "?"@,
{
}

/// The end of a tool prints nothing where tools are not shown, one line where they are, and below it only
/// for a failure, and only where everything is shown, at most three lines of what went wrong.
pub proof fn law_tool_ends_print_one_line(
    verbosity: ToolCliVerbosity,
    st: RendererState,
    ev: ToolEnd,
    home: Option<Seq<char>>,
    elapsed: Option<Elapsed>,
)
    requires
        !st.inline_tool_update_active,
    ensures
        verbosity is Off ==> tool_ended(verbosity, st, ev, home, elapsed) == (st, Seq::<Out>::empty()),
        !(verbosity is Off) ==> {
            let r = tool_ended(verbosity, st, ev, home, elapsed).1;
            &&& 1 <= r.len() <= 4
            &&& r[0] == Out::Stderr(end_line(ev, home, elapsed))
            &&& (!ev.is_error || verbosity is Brief) ==> r.len() == 1
            &&& forall|i: int| 0 <= i < r.len() ==> (#[trigger] r[i]) is Stderr
        },
{
    law_failures_are_explained_in_few_lines(lines(error_text(ev.result@)), 3);
}

/// What explains a failure is its first lines that are not blank, no more than asked for, in their order,
/// each cut to 512 characters.
pub proof fn law_failures_are_explained_in_few_lines(all: Seq<Seq<char>>, n: nat)
    ensures
        telling_lines(all, n).len() <= n,
        ({
            let full = all.filter(|l: Seq<char>| trimmed(l).len() > 0);
            let few = if full.len() < n {
                full
            } else {
                full.take(n as int)
            };
            telling_lines(all, n) == few.map_values(|l: Seq<char>| truncated(l, 512))
        }),
    decreases all.len(),
{
    let keep = |l: Seq<char>| trimmed(l).len() > 0;
    let cut = |l: Seq<char>| truncated(l, 512);
    let full = all.filter(keep);
    let few = if full.len() < n {
        full
    } else {
        full.take(n as int)
    };
    if all.len() == 0 {
        reveal(Seq::filter);
        assert(full =~= Seq::<Seq<char>>::empty());
        assert(telling_lines(all, n) =~= few.map_values(cut));
    } else if n == 0 {
        assert(telling_lines(all, n) =~= few.map_values(cut));
    } else {
        let rest = all.drop_first();
        assert(all =~= seq![all[0]] + rest);
        Seq::filter_distributes_over_add(seq![all[0]], rest, keep);
        reveal(Seq::filter);
        assert(seq![all[0]].drop_last() =~= Seq::<Seq<char>>::empty());
        assert(Seq::<Seq<char>>::empty().filter(keep) =~= Seq::<Seq<char>>::empty());
        if trimmed(all[0]).len() == 0 {
            law_failures_are_explained_in_few_lines(rest, n);
            assert(full =~= rest.filter(keep));
        } else {
            law_failures_are_explained_in_few_lines(rest, (n - 1) as nat);
            assert(seq![all[0]].filter(keep) =~= seq![all[0]]);
            assert(full =~= seq![all[0]] + rest.filter(keep));
            let fewer = if rest.filter(keep).len() < n - 1 {
                rest.filter(keep)
            } else {
                rest.filter(keep).take(n - 1)
            };
            assert(few =~= seq![all[0]] + fewer);
            assert(telling_lines(all, n) =~= few.map_values(cut));
        }
    }
}

/// A text that is cut keeps its first characters, as many as may stand, and shows that it was cut; one
/// that fits is not touched.
pub proof fn law_cut_texts_keep_their_start(s: Seq<char>, max: nat)
    ensures
        s.len() <= max ==> truncated(s, max) == s,
        s.len() > max ==> truncated(s, max).len() == max + 1 && truncated(s, max).take(max as int)
            == s.take(max as int) && truncated(s, max).last() == '…',
{
    reveal_strlit("…");
    if s.len() > max {
        assert(truncated(s, max).take(max as int) =~= s.take(max as int));
    }
}

/// A waiting time is told in seconds, rounded up: `m` minutes and `s` seconds are enough, and one second
/// less is not.
pub proof fn law_countdowns_round_up(ms: nat, m: nat, s: nat)
    requires
        ms + 999 <= u64::MAX,
        s < 60,
        ms <= (60 * m + s) * 1000,
        60 * m + s > 0 ==> (60 * m + s - 1) * 1000 < ms,
    ensures
        m == 0 ==> countdown(ms) == decimal(s) + "s"@,
        m > 0 && s < 10 ==> countdown(ms) == decimal(m) + "m"@ + "0"@ + decimal(s) + "s"@,
        m > 0 && s >= 10 ==> countdown(ms) == decimal(m) + "m"@ + decimal(s) + "s"@,
{
    let t = (ms + 999) / 1000;
    assert(t == 60 * m + s);
    assert(t / 60 == m && t % 60 == s);
    assert(decimal(m) + "m"@ + ("0"@ + decimal(s)) + "s"@ =~= decimal(m) + "m"@ + "0"@ + decimal(s) + "s"@);
}

/// The countdown line tells the tool, what it does, for which task, how long is left and of how much.
pub proof fn law_countdowns_tell_time_left(u: ToolUpdate, name: Seq<char>, phase: Seq<char>, task: Seq<char>)
    requires
        name == text_or(u.tool_name, "?"@),
        phase == text_or(u.phase, "update"@),
        task == text_or(u.task_id, "?"@),
    ensures
        has_prefix(
            countdown_line(u),
            "\r\x1b[2K\x1b[90m[tool] "@ + name + " … "@ + phase + "  task="@ + task,
        ),
        u.remaining_ms matches Some(left) ==> crate::search::has_suffix(
            countdown_line(u),
            " remaining="@ + countdown(left as nat) + "/"@ + countdown(longest_wait(u)) + "\x1b[0m"@,
        ),
        u.wait_ms matches Some(n) ==> longest_wait(u) == n,
        u.wait_ms is None ==> (u.timeout_ms matches Some(n) ==> longest_wait(u) == n),
{
    let left = countdown(
        match u.remaining_ms {
            Some(n) => n as nat,
            None => 0,
        },
    );
    let front = "\r\x1b[2K\x1b[90m[tool] "@ + name + " … "@ + phase + "  task="@ + task;
    let tail = " remaining="@ + left + "/"@ + countdown(longest_wait(u)) + "\x1b[0m"@;
    let all = countdown_line(u);
    assert(all =~= front + tail);
    assert(all.subrange(0, front.len() as int) =~= front);
    assert(all.subrange(all.len() - tail.len(), all.len() as int) =~= tail);
}

/// A path below the home directory is shown in full, and every other path as it is.
pub proof fn law_home_is_written_out(path: Seq<char>, home: Seq<char>)
    ensures
        expanded("~"@, Some(home)) == home,
        expanded("~/"@ + path, Some(home)) == path_joined(home, path),
        path.len() > 0 && path[0] != '~' ==> expanded(path, Some(home)) == path,
        expanded(path, None) == path,
{
    reveal_strlit("~");
    reveal_strlit("~/");
    let s = "~/"@ + path;
    assert(s.subrange(0, 2) =~= "~/"@);
    assert(s.skip(2) =~= path);
    assert(s.len() >= 2 && "~"@.len() == 1);
    if path.len() > 0 && path[0] != '~' {
        assert("~"@[0] == '~');
        if has_prefix(path, "~/"@) {
            assert(path.subrange(0, 2)[0] == path[0]);
        }
    }
}

/// A success tells the most telling thing that is known of it: the lines, else the bytes, else its own
/// summary, else its message, cut to 80 characters, and else that all is well.
pub proof fn law_success_is_told_by_its_parts(p: ResultFields)
    ensures
        p.lines matches Some(n) ==> success_line(p) == decimal(n as nat) + " lines"@,
        p.lines is None ==> (p.bytes matches Some(n) ==> success_line(p) == decimal(n as nat) + " bytes"@),
        p.lines is None && p.bytes is None ==> (p.summary matches Some(s) ==> success_line(p)
            == truncated(s, 80)),
        p.lines is None && p.bytes is None && p.summary is None ==> (p.message matches Some(s)
            ==> success_line(p) == truncated(s, 80)),
        p.lines is None && p.bytes is None && p.summary is None && p.message is None ==> success_line(p)
            == "ok"@,
{
}

/// A failure tells its own words, cut to 512 characters: what it says itself, else its error, else its
/// message; a success with something to show shows that.
pub proof fn law_results_speak_for_themselves(
    result: ResultFields,
    display: Option<ToolDisplay>,
    home: Option<Seq<char>>,
)
    ensures
        result.text matches Some(s) ==> (trimmed(s).len() > 0 ==> result_line(result, display, true, home)
            == truncated(trimmed(s), 512)),
        result.text is None ==> (result.error matches Some(e) ==> result_line(
            result,
            display,
            true,
            home,
        ) == truncated(e, 512)),
        result.text is None && result.error is None ==> (result.message matches Some(m) ==> result_line(
            result,
            display,
            true,
            home,
        ) == truncated(m, 512)),
        display matches Some(ToolDisplay::File { file }) ==> (expanded(file@, home).len() > 0
            ==> result_line(result, display, false, home) == truncated(expanded(file@, home), 512)),
        display matches Some(ToolDisplay::Plan { plan }) ==> (expanded(plan@, home).len() > 0
            ==> result_line(result, display, false, home) == truncated(expanded(plan@, home), 512)),
        display matches Some(ToolDisplay::Text { text }) ==> (trimmed(text@).len() > 0 ==> result_line(
            result,
            display,
            false,
            home,
        ) == truncated(trimmed(text@), 80)),
        display is None && result.text is None ==> result_line(result, display, false, home)
            == success_line(result),
{
}

/// A result that is JSON written as text is read through; one that is not stays what it is.
pub proof fn law_written_results_are_read(result: ResultFields)
    ensures
        result.text is None ==> read_result(result) == result,
        result.text matches Some(s) ==> (json_fields(s) matches Some(f) ==> read_result(result) == f),
        result.text matches Some(s) ==> (json_fields(s) is None ==> read_result(result) == result),
{
}

/// What explains a failure is what the tool wrote to its standard error, else its error, else its text.
pub proof fn law_failures_are_explained_by_their_parts(result: ResultFields)
    ensures
        result.stderr matches Some(s) ==> error_text(result) == s,
        result.stderr is None ==> (result.error matches Some(s) ==> error_text(result) == s),
        result.stderr is None && result.error is None ==> (result.text matches Some(s) ==> error_text(result)
            == s),
{
}

/// A tool call started when it was last noted to start; other calls do not count.
pub proof fn law_last_start_counts(starts: Seq<(String, u64)>, item: (String, u64), id: Seq<char>)
    ensures
        start_of(Seq::<(String, u64)>::empty(), id) is None,
        item.0@ == id ==> start_of(starts.push(item), id) == Some(item.1),
        item.0@ != id ==> start_of(starts.push(item), id) == start_of(starts, id),
{
    lemma_start_pushed(starts, item, id);
}

/// While the arguments of a call arrive, the file that they name is told in full, if they name one.
pub proof fn law_named_files_are_told_early(path: Seq<char>, home: Option<Seq<char>>)
    ensures
        has_prefix(streaming_summary(Some(path), home), "path="@ + expanded(path, home)),
        streaming_summary(None, home) == "receiving args..."@,
{
    let all = streaming_summary(Some(path), home);
    let head = "path="@ + expanded(path, home);
    assert(all.subrange(0, head.len() as int) =~= head);
}

/// Every line that explains a failure is printed, in full and in order.
#[verifier::rlimit(40)]
#[verifier::spinoff_prover]
pub proof fn law_every_explaining_line_is_printed(all: Seq<Seq<char>>, i: int)
    requires
        0 <= i < all.len(),
    ensures
        extra_outs(all).len() == all.len(),
        extra_outs(all)[i] matches Out::Stderr(line) && crate::search::has_text(line, all[i]),
{
    crate::search::lemma_text_in_itself(all[i]);
    crate::search::lemma_text_within("\x1b[31m       "@, all[i], "\x1b[0m\n"@, all[i]);
}

/// What is said of output is said of what is written: every step in its place, on its channel, with its text;
/// an event changes where the renderer stands and nothing else of it.
pub proof fn law_output_is_seen_as_it_is(
    before: CliTurnRenderer,
    after: CliTurnRenderer,
    out: Seq<Output>,
    step: (RendererState, Seq<Out>),
    i: int,
)
    requires
        stepped(before, after, out, step),
    ensures
        out.len() == step.1.len(),
        0 <= i < out.len() ==> match out[i] {
            Output::Stdout(s) => step.1[i] == Out::Stdout(s@),
            Output::Stderr(s) => step.1[i] == Out::Stderr(s@),
            Output::FlushMarkdown => step.1[i] is FlushMarkdown,
            Output::PushMarkdown(s) => step.1[i] == Out::PushMarkdown(s@),
        },
        after.state == step.0,
        after.session_id == before.session_id,
        after.thinking_display == before.thinking_display,
        after.print_to_stderr == before.print_to_stderr,
        after.tool_cli_verbosity == before.tool_cli_verbosity,
        after.tool_starts == before.tool_starts,
{
    assert(outs(out).len() == out.len());
    if 0 <= i < out.len() {
        assert(outs(out)[i] == out[i]@);
    }
}

} // verus!
