//! Asking once for the whole working directory, when something in it is first touched.
//!
//! Everything else is left to the provider that asks file by file:
//!
//! ```text
//!   dismissed, a command, no target, target elsewhere, directory allowed ──► file by file
//!   no terminal ── dismiss ──► file by file
//!   else ask: [s] this session   [w] from now on   [c] cancel, and dismiss
//! ```

use vstd::prelude::*;
use vstd::string::*;

use crate::paths::{path_starts_with, paths_equal};
#[allow(unused_imports)]
use crate::paths::{lies_in, same_path};
use crate::search::{lines_of, strip_prefix};
#[allow(unused_imports)]
use crate::search::{has_prefix, lines};
use crate::text::{cat3, cat5, one_text, push_text, same, to_unicode_lower, trim};
#[allow(unused_imports)]
use crate::text::{opt_text, texts, trimmed, unicode_lowered};

verus! {

/// The choices, as the prompt shows them.
pub const CWD_PROMPT_CHOICES: &'static str = "[s/w/c]";

/// What the user chose for the working directory.
#[derive(Clone, Copy, Debug, PartialEq, Eq, Structural)]
pub enum CwdPromptChoice {
    /// Allowed for this session.
    AllowSessionOnly,
    /// Allowed from now on.
    AddPersistent,
    /// Not allowed; files are asked for one by one from now on.
    Cancel,
}

/// The choice that a word in small letters names.
pub open spec fn word_choice(w: Seq<char>) -> Option<CwdPromptChoice> {
    if w == "s"@ || w == "session"@ || w == "once"@ {
        Some(CwdPromptChoice::AllowSessionOnly)
    } else if w == "w"@ || w == "workspace"@ || w == "persist"@ {
        Some(CwdPromptChoice::AddPersistent)
    } else if w == "c"@ || w == "cancel"@ || w == "n"@ || w == "no"@ || w == "skip"@ {
        Some(CwdPromptChoice::Cancel)
    } else {
        None
    }
}

/// The choice that a word in small letters names.
pub fn choice_of_word(w: &str) -> (r: Option<CwdPromptChoice>)
    ensures
        r == word_choice(w@),
{
    if same(w, "s") || same(w, "session") || same(w, "once") {
        Some(CwdPromptChoice::AllowSessionOnly)
    } else if same(w, "w") || same(w, "workspace") || same(w, "persist") {
        Some(CwdPromptChoice::AddPersistent)
    } else if same(w, "c") || same(w, "cancel") || same(w, "n") || same(w, "no") || same(w, "skip") {
        Some(CwdPromptChoice::Cancel)
    } else {
        None
    }
}

/// The choice that the user typed, if it is one.
pub fn parse_choice(s: &str) -> (r: Option<CwdPromptChoice>)
    ensures
        r == word_choice(unicode_lowered(trimmed(s@))),
{
    choice_of_word(to_unicode_lower(trim(s).as_str()).as_str())
}

/// What is said about something typed that is no choice.
pub fn unrecognized_choice_message(input: &str) -> (r: String)
    ensures
        r@ == "未识别的选项「"@ + trimmed(input@)
            + "」；可选项为 [s] / [w] / [c]，本次按取消处理。"@,
{
    cat3(
        "未识别的选项「",
        trim(input).as_str(),
        "」；可选项为 [s] / [w] / [c]，本次按取消处理。",
    )
}

/// Whether a target lies in the working directory.
pub fn target_in_cwd(target: &str, cwd: &str) -> (r: bool)
    ensures
        r == lies_in(target@, cwd@),
{
    path_starts_with(target, cwd)
}

/// Whether a path is among others.
pub open spec fn is_among(path: Seq<char>, others: Seq<Seq<char>>) -> bool {
    exists|i: int| 0 <= i < others.len() && same_path(#[trigger] others[i], path)
}

fn stands_among(path: &str, others: &Vec<String>) -> (r: bool)
    ensures
        r == is_among(path@, texts(others@)),
{
    let ghost all = texts(others@);
    let mut i: usize = 0;
    while i < others.len()
        invariant
            i <= others@.len(),
            all == texts(others@),
            forall|j: int| 0 <= j < i ==> !same_path(#[trigger] all[j], path@),
        decreases others@.len() - i,
    {
        assert(all[i as int] == others@[i as int]@);
        if paths_equal(others[i].as_str(), path) {
            return true;
        }
        i = i + 1;
    }
    false
}

/// The directories that may be used.
#[derive(Clone, Debug, PartialEq, Eq)]
pub struct EffectiveRoots {
    pub read_write: Vec<String>,
    pub read_only: Vec<String>,
}

/// Whether the working directory is itself one that may be used.
pub open spec fn is_authorized(cwd: Seq<char>, roots: EffectiveRoots) -> bool {
    is_among(cwd, texts(roots.read_write@)) || is_among(cwd, texts(roots.read_only@))
}

/// Whether the working directory is itself one that may be used.
pub fn cwd_already_authorized(cwd: &str, roots: &EffectiveRoots) -> (r: bool)
    ensures
        r == is_authorized(cwd@, *roots),
{
    stands_among(cwd, &roots.read_write) || stands_among(cwd, &roots.read_only)
}

/// The target that a line names.
pub open spec fn line_target(line: Seq<char>) -> Option<Seq<char>> {
    if has_prefix(line, "路径: "@) {
        let t = trimmed(line.skip("路径: "@.len() as int));
        if t.len() > 0 {
            Some(t)
        } else {
            None
        }
    } else {
        None
    }
}

/// The target that the first of the lines with one names.
pub open spec fn first_target(ls: Seq<Seq<char>>, from: int) -> Option<Seq<char>>
    decreases ls.len() - from,
{
    if from >= ls.len() {
        None
    } else {
        match line_target(ls[from]) {
            Some(t) => Some(t),
            None => first_target(ls, from + 1),
        }
    }
}

/// The target that a preview names.
pub fn extract_target_from_preview(preview: &str) -> (r: Option<String>)
    ensures
        opt_text(r) == first_target(lines(preview@), 0),
{
    let ls = lines_of(preview);
    let ghost all = texts(ls@);
    let mut i: usize = 0;
    while i < ls.len()
        invariant
            i <= ls@.len(),
            all == texts(ls@),
            all == lines(preview@),
            first_target(all, i as int) == first_target(all, 0),
        decreases ls@.len() - i,
    {
        assert(all[i as int] == ls@[i as int]@);
        if let Some(rest) = strip_prefix(ls[i].as_str(), "路径: ") {
            let t = trim(rest.as_str());
            if !t.as_str().is_empty() {
                return Some(t);
            }
        }
        i = i + 1;
    }
    None
}

/// Asks for the working directory.
#[derive(Clone, Debug, PartialEq, Eq)]
pub struct CwdLazyPrompt {
    pub cwd: String,
    /// Whether it is not asked any more in this session.
    pub dismissed: bool,
}

/// What is to be done about an operation.
#[derive(Clone, Debug, PartialEq, Eq)]
pub enum CwdStep {
    /// The provider that asks file by file decides.
    Forward,
    /// The user is to be asked: the lines, and what stands before the answer.
    Ask { lines: Vec<String>, prompt: String },
}

/// Whether an operation is one to ask about the working directory for.
pub open spec fn concerns_cwd(
    p: CwdLazyPrompt,
    is_bash: bool,
    preview: Seq<char>,
    roots: EffectiveRoots,
) -> bool {
    &&& !p.dismissed
    &&& !is_bash
    &&& first_target(lines(preview), 0) is Some
    &&& lies_in(first_target(lines(preview), 0)->0, p.cwd@)
    &&& !is_authorized(p.cwd@, roots)
}

/// The lines that ask.
pub open spec fn asking_lines(cwd: Seq<char>, target: Seq<char>) -> Seq<Seq<char>> {
    seq![
        "─────────────────────────────────────────────────────────────"@,
        "当前目录 "@ + cwd + " 尚未授权访问。"@,
        "即将操作: "@ + target,
        "[s] 本次会话期间允许访问"@,
        "[w] 以后也允许访问（写入配置 ~/.tomcat/tomcat.config.toml workspace.workspace_roots）"@,
        "[c] 取消本次操作（后续按文件粒度逐次询问）"@,
    ]
}

/// What the user decides about an operation.
#[derive(Clone, Debug, PartialEq, Eq)]
pub enum ConfirmDecision {
    AllowOnce,
    /// It is allowed, and so is what lies below a directory from now on.
    AllowAndPersistRoot { root: String },
    Deny,
}

/// What a choice brings about.
#[derive(Clone, Debug, PartialEq, Eq)]
pub struct AppliedChoice {
    pub decision: ConfirmDecision,
    /// The directory that is allowed for the session from now on.
    pub grant: Option<String>,
    pub lines: Vec<String>,
}

/// What is left to do about a choice.
#[derive(Clone, Debug, PartialEq, Eq)]
pub enum ChoiceStep {
    /// It is carried out.
    Done(AppliedChoice),
    /// The directory is to be written down first.
    Write { root: String },
}

impl CwdLazyPrompt {
    /// Asks for a directory, and has not been dismissed.
    pub fn new(cwd: String) -> (r: CwdLazyPrompt)
        ensures
            r.cwd == cwd,
            !r.dismissed,
    {
        CwdLazyPrompt { cwd, dismissed: false }
    }

    /// The same prompt, dismissed or not.
    pub fn with_dismissed(self, dismissed: bool) -> (r: CwdLazyPrompt)
        ensures
            r == (CwdLazyPrompt { dismissed, ..self }),
    {
        CwdLazyPrompt { cwd: self.cwd, dismissed }
    }

    /// Whether it is not asked any more in this session.
    pub fn is_dismissed(&self) -> (r: bool)
        ensures
            r == self.dismissed,
    {
        self.dismissed
    }

    fn render_prompt(&self, target: &str) -> (r: Vec<String>)
        ensures
            texts(r@) == asking_lines(self.cwd@, target@),
    {
        let mut v = one_text(
            "─────────────────────────────────────────────────────────────".to_owned(),
        );
        push_text(&mut v, cat3("当前目录 ", self.cwd.as_str(), " 尚未授权访问。"));
        push_text(&mut v, crate::text::cat("即将操作: ", target));
        push_text(&mut v, "[s] 本次会话期间允许访问".to_owned());
        push_text(
            &mut v,
            "[w] 以后也允许访问（写入配置 ~/.tomcat/tomcat.config.toml workspace.workspace_roots）".to_owned(),
        );
        push_text(&mut v, "[c] 取消本次操作（后续按文件粒度逐次询问）".to_owned());
        assert(texts(v@) =~= asking_lines(self.cwd@, target@));
        v
    }

    /// Decides whether the user is asked about the working directory. Where there is no terminal to
    /// ask at, it is dismissed.
    pub fn confirm_decision(
        &mut self,
        is_bash: bool,
        preview: &str,
        roots: &EffectiveRoots,
        stdin_is_terminal: bool,
    ) -> (r: CwdStep)
        ensures
            if !concerns_cwd(*old(self), is_bash, preview@, *roots) {
                r is Forward && *final(self) == *old(self)
            } else if !stdin_is_terminal {
                r is Forward && *final(self) == (CwdLazyPrompt { dismissed: true, ..*old(self) })
            } else {
                &&& *final(self) == *old(self)
                &&& r matches CwdStep::Ask { lines: ls, prompt }
                &&& texts(ls@) == asking_lines(
                    old(self).cwd@,
                    first_target(lines(preview@), 0)->0,
                )
                &&& prompt@ == "选择 "@ + CWD_PROMPT_CHOICES@ + ": "@
            },
    {
        if self.dismissed || is_bash {
            return CwdStep::Forward;
        }
        let target = match extract_target_from_preview(preview) {
            Some(t) => t,
            None => {
                return CwdStep::Forward;
            },
        };
        if !target_in_cwd(target.as_str(), self.cwd.as_str()) {
            return CwdStep::Forward;
        }
        if cwd_already_authorized(self.cwd.as_str(), roots) {
            return CwdStep::Forward;
        }
        if !stdin_is_terminal {
            self.dismissed = true;
            return CwdStep::Forward;
        }
        CwdStep::Ask {
            lines: self.render_prompt(target.as_str()),
            prompt: cat3("选择 ", CWD_PROMPT_CHOICES, ": "),
        }
    }

    /// Carries a choice out, as far as that is possible at once. `canon` is the working directory as
    /// the file system knows it, and `denied_because` is why it must not be read, if it must not: then
    /// it cannot be allowed, and nothing changes. Only a choice for good has the directory written
    /// down, before it is allowed.
    pub fn apply_choice(
        &mut self,
        choice: CwdPromptChoice,
        canon: &str,
        denied_because: Option<&str>,
    ) -> (r: Result<ChoiceStep, String>)
        ensures
            match r {
                Err(m) => {
                    &&& !(choice is Cancel)
                    &&& denied_because is Some
                    &&& *final(self) == *old(self)
                    &&& m@ == denial(canon@, denied_because->0@)
                },
                Ok(step) => {
                    &&& choice is Cancel || denied_because is None
                    &&& match choice {
                        CwdPromptChoice::Cancel => {
                            &&& *final(self) == (CwdLazyPrompt { dismissed: true, ..*old(self) })
                            &&& step matches ChoiceStep::Done(a)
                            &&& a.decision is Deny
                            &&& a.grant is None
                            &&& texts(a.lines@)
                                == seq!["✓ 已取消：本会话内不再就 cwd 范围弹此提示，转入逐文件确认"@]
                        },
                        CwdPromptChoice::AllowSessionOnly => {
                            &&& *final(self) == *old(self)
                            &&& step matches ChoiceStep::Done(a)
                            &&& a.decision is AllowOnce
                            &&& opt_text(a.grant) == Some(canon@)
                            &&& texts(a.lines@) == seq!["✓ "@ + canon@ + " 本次会话期间允许访问"@]
                        },
                        CwdPromptChoice::AddPersistent => {
                            &&& *final(self) == *old(self)
                            &&& step matches ChoiceStep::Write { root }
                            &&& root@ == canon@
                        },
                    }
                },
            },
    {
        if let CwdPromptChoice::Cancel = choice {
            self.dismissed = true;
            return Ok(
                ChoiceStep::Done(
                    AppliedChoice {
                        decision: ConfirmDecision::Deny,
                        grant: None,
                        lines: one_text(
                            "✓ 已取消：本会话内不再就 cwd 范围弹此提示，转入逐文件确认".to_owned(),
                        ),
                    },
                ),
            );
        }
        if let Err(m) = ensure_not_denied(canon, denied_because) {
            return Err(m);
        }
        if let CwdPromptChoice::AllowSessionOnly = choice {
            return Ok(
                ChoiceStep::Done(
                    AppliedChoice {
                        decision: ConfirmDecision::AllowOnce,
                        grant: Some(canon.to_owned()),
                        lines: one_text(cat3("✓ ", canon, " 本次会话期间允许访问")),
                    },
                ),
            );
        }
        Ok(ChoiceStep::Write { root: canon.to_owned() })
    }

    /// Goes on once the directory was written down, or could not be: it is allowed for the session
    /// either way.
    pub fn choice_written(&self, canon: &str, persist_error: Option<&str>) -> (r: AppliedChoice)
        ensures
            r.decision is AllowOnce,
            opt_text(r.grant) == Some(canon@),
            texts(r.lines@) == (match persist_error {
                Some(e) => seq![
                    "✗ 持久化失败："@ + e@ + "；已改为仅本次会话允许访问 "@ + canon@,
                    "✓ "@ + self.cwd@ + " 本次会话期间允许访问"@,
                ],
                None => seq!["✓ "@ + self.cwd@ + " 本次会话期间允许访问"@],
            }),
    {
        let mut out: Vec<String> = Vec::new();
        if let Some(e) = persist_error {
            push_text(
                &mut out,
                crate::text::cat4(
                    "✗ 持久化失败：",
                    e,
                    "；已改为仅本次会话允许访问 ",
                    canon,
                ),
            );
        }
        push_text(&mut out, cat3("✓ ", self.cwd.as_str(), " 本次会话期间允许访问"));
        proof {
            let done = "✓ "@ + self.cwd@ + " 本次会话期间允许访问"@;
            match persist_error {
                Some(e) => {
                    assert(texts(out@) =~= seq![
                        "✗ 持久化失败："@ + e@ + "；已改为仅本次会话允许访问 "@ + canon@,
                        done,
                    ]);
                },
                None => {
                    assert(texts(out@) =~= seq![done]);
                },
            }
        }
        AppliedChoice {
            decision: ConfirmDecision::AllowOnce,
            grant: Some(canon.to_owned()),
            lines: out,
        }
    }
}

/// The choice for what was typed, and what is said if that is no choice: it counts as cancelling.
/// Nothing typed counts as an empty line.
pub fn take_choice(typed: Option<&str>) -> (r: (CwdPromptChoice, Option<String>))
    ensures
        ({
            let line = match typed {
                Some(t) => t@,
                None => ""@,
            };
            match word_choice(unicode_lowered(trimmed(line))) {
                Some(c) => r.0 == c && r.1 is None,
                None => r.0 is Cancel && opt_text(r.1) == Some(
                    "未识别的选项「"@ + trimmed(line)
                        + "」；可选项为 [s] / [w] / [c]，本次按取消处理。"@,
                ),
            }
        }),
{
    let line: &str = match typed {
        Some(t) => t,
        None => "",
    };
    match parse_choice(line) {
        Some(c) => (c, None),
        None => (CwdPromptChoice::Cancel, Some(unrecognized_choice_message(line))),
    }
}

/// Why a directory cannot be allowed.
pub open spec fn denial(path: Seq<char>, reason: Seq<char>) -> Seq<char> {
    "该路径已被禁止访问，无法加入当前会话或配置："@ + path + " ("@ + reason + ")"@
}

/// What is checked before a directory is allowed: one that is forbidden stays so.
pub fn ensure_not_denied(path: &str, denied_because: Option<&str>) -> (r: Result<(), String>)
    ensures
        match r {
            Ok(_) => denied_because is None,
            Err(m) => denied_because is Some && m@ == denial(path@, denied_because->0@),
        },
{
    match denied_because {
        Some(reason) => Err(
            cat5(
                "该路径已被禁止访问，无法加入当前会话或配置：",
                path,
                " (",
                reason,
                ")",
            ),
        ),
        None => Ok(()),
    }
}

// ---------------------------------------------------------------- laws

/// Once dismissed, the user is never asked about the working directory again.
pub proof fn law_dismissed_is_never_asked(
    p: CwdLazyPrompt,
    is_bash: bool,
    preview: Seq<char>,
    roots: EffectiveRoots,
)
    requires
        p.dismissed,
    ensures
        !concerns_cwd(p, is_bash, preview, roots),
{
}

/// Once the directory is allowed, the user is not asked about it again.
pub proof fn law_allowed_is_not_asked(
    p: CwdLazyPrompt,
    is_bash: bool,
    preview: Seq<char>,
    roots: EffectiveRoots,
)
    requires
        is_authorized(p.cwd@, roots),
    ensures
        !concerns_cwd(p, is_bash, preview, roots),
{
}

/// Words for the session allow the session only, words for good allow for good, and words of refusal refuse:
/// no word means two things, and a word that is none of these means nothing.
pub proof fn law_choices_by_their_words(w: Seq<char>)
    ensures
        word_choice(w) == Some(CwdPromptChoice::AllowSessionOnly) <==> seq![
            "s"@,
            "session"@,
            "once"@,
        ].contains(w),
        word_choice(w) == Some(CwdPromptChoice::AddPersistent) <==> seq![
            "w"@,
            "workspace"@,
            "persist"@,
        ].contains(w),
        word_choice(w) == Some(CwdPromptChoice::Cancel) <==> seq![
            "c"@,
            "cancel"@,
            "n"@,
            "no"@,
            "skip"@,
        ].contains(w),
{
    reveal_strlit("s");
    reveal_strlit("session");
    reveal_strlit("once");
    reveal_strlit("w");
    reveal_strlit("workspace");
    reveal_strlit("persist");
    reveal_strlit("c");
    reveal_strlit("cancel");
    reveal_strlit("n");
    reveal_strlit("no");
    reveal_strlit("skip");
    let a = seq!["s"@, "session"@, "once"@];
    let b = seq!["w"@, "workspace"@, "persist"@];
    let c = seq!["c"@, "cancel"@, "n"@, "no"@, "skip"@];
    assert(a[0] == "s"@ && a[1] == "session"@ && a[2] == "once"@);
    assert(b[0] == "w"@ && b[1] == "workspace"@ && b[2] == "persist"@);
    assert(c[0] == "c"@ && c[1] == "cancel"@ && c[2] == "n"@ && c[3] == "no"@ && c[4] == "skip"@);
    assert("skip"@[1] == 'k' && "session"@[1] == 'e');
    assert("s"@[0] == 's' && "session"@[0] == 's' && "once"@[0] == 'o' && "w"@[0] == 'w'
        && "workspace"@[0] == 'w' && "persist"@[0] == 'p' && "c"@[0] == 'c' && "cancel"@[0] == 'c'
        && "n"@[0] == 'n' && "no"@[0] == 'n' && "skip"@[0] == 's');
    assert("s"@.len() == 1 && "skip"@.len() == 4);
}

/// The target of a preview is what the first line that names one names: lines before it do not count, and
/// neither does what follows.
pub proof fn law_first_named_target_counts(ls: Seq<Seq<char>>, from: int, i: int, path: Seq<char>)
    requires
        0 <= from <= i < ls.len(),
        ls[i] == "路径: "@ + path,
        trimmed(path).len() > 0,
        forall|j: int| from <= j < i ==> !has_prefix(#[trigger] ls[j], "路径: "@),
    ensures
        first_target(ls, from) == Some(trimmed(path)),
    decreases i - from,
{
    let mark = "路径: "@;
    if from == i {
        assert(ls[i].subrange(0, mark.len() as int) =~= mark);
        assert(ls[i].skip(mark.len() as int) =~= path);
    } else {
        assert(!has_prefix(ls[from], mark));
        law_first_named_target_counts(ls, from + 1, i, path);
    }
}

/// Where no line names a target there is none.
pub proof fn law_no_target_without_a_name(ls: Seq<Seq<char>>, from: int)
    requires
        0 <= from <= ls.len(),
        forall|j: int| from <= j < ls.len() ==> !has_prefix(#[trigger] ls[j], "路径: "@),
    ensures
        first_target(ls, from) is None,
    decreases ls.len() - from,
{
    if from < ls.len() {
        law_no_target_without_a_name(ls, from + 1);
    }
}

/// The user is asked about the directory exactly if it was not dismissed, no command is run, and something in
/// the directory is touched that is not allowed yet, for reading or for writing.
pub proof fn law_when_the_directory_is_asked_about(
    p: CwdLazyPrompt,
    is_bash: bool,
    preview: Seq<char>,
    roots: EffectiveRoots,
)
    ensures
        concerns_cwd(p, is_bash, preview, roots) <==> {
            &&& !p.dismissed
            &&& !is_bash
            &&& first_target(lines(preview), 0) matches Some(t) && lies_in(t, p.cwd@)
            &&& forall|i: int|
                0 <= i < roots.read_write@.len() ==> !same_path((#[trigger] roots.read_write@[i])@, p.cwd@)
            &&& forall|i: int|
                0 <= i < roots.read_only@.len() ==> !same_path((#[trigger] roots.read_only@[i])@, p.cwd@)
        },
{
    let w = texts(roots.read_write@);
    let r = texts(roots.read_only@);
    assert forall|i: int| 0 <= i < w.len() implies #[trigger] w[i] == roots.read_write@[i]@ by {}
    assert forall|i: int| 0 <= i < r.len() implies #[trigger] r[i] == roots.read_only@[i]@ by {}
    if is_among(p.cwd@, w) {
        let i = choose|i: int| 0 <= i < w.len() && same_path(#[trigger] w[i], p.cwd@);
        assert(same_path(roots.read_write@[i]@, p.cwd@));
    } else {
        assert forall|i: int| 0 <= i < roots.read_write@.len() implies !same_path(
            (#[trigger] roots.read_write@[i])@,
            p.cwd@,
        ) by {
            assert(!same_path(w[i], p.cwd@));
        }
    }
    if is_among(p.cwd@, r) {
        let i = choose|i: int| 0 <= i < r.len() && same_path(#[trigger] r[i], p.cwd@);
        assert(same_path(roots.read_only@[i]@, p.cwd@));
    } else {
        assert forall|i: int| 0 <= i < roots.read_only@.len() implies !same_path(
            (#[trigger] roots.read_only@[i])@,
            p.cwd@,
        ) by {
            assert(!same_path(r[i], p.cwd@));
        }
    }
}

/// Who is asked sees the directory and what is touched, and who is refused sees the path and the reason.
#[verifier::rlimit(40)]
#[verifier::spinoff_prover]
pub proof fn law_questions_and_denials_name_the_path(a: Seq<char>, b: Seq<char>)
    ensures
        crate::search::has_text(asking_lines(a, b)[1], a),
        crate::search::has_suffix(asking_lines(a, b)[2], b),
        crate::search::has_text(denial(a, b), a),
        crate::search::has_text(denial(a, b), b),
{
    crate::search::lemma_text_in_itself(a);
    crate::search::lemma_text_in_itself(b);
    crate::search::lemma_text_within("当前目录 "@, a, " 尚未授权访问。"@, a);
    let line = "即将操作: "@ + b;
    assert(asking_lines(a, b)[2] == line);
    assert(line.subrange(line.len() - b.len(), line.len() as int) =~= b);
    let head = "该路径已被禁止访问，无法加入当前会话或配置："@;
    crate::search::lemma_text_within(head, a, " ("@ + b + ")"@, a);
    assert(denial(a, b) =~= head + a + (" ("@ + b + ")"@));
    crate::search::lemma_text_within(head + a + " ("@, b, ")"@, b);
}

} // verus!
