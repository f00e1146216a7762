//! Asking the user on the terminal whether something may be done.

use vstd::prelude::*;
use vstd::string::*;

use crate::numerals::decimal_usize;
#[allow(unused_imports)]
use crate::numerals::decimal;
use crate::permission::cwd_lazy::ConfirmDecision;
use crate::search::{join, lines_of, strip_prefix};
#[allow(unused_imports)]
use crate::search::{has_prefix, joined, lines};
use crate::text::{cat, cat4, one_text, push_text, same, to_unicode_lower, trim};
#[allow(unused_imports)]
use crate::text::{opt_str, opt_text, texts, trimmed, unicode_lowered};

verus! {

/// Asks on the terminal.
#[derive(Clone, Copy, Debug, PartialEq, Eq)]
pub struct CliConfirmation;

/// What the user chose when asked about a path.
#[derive(Clone, Debug, PartialEq, Eq)]
pub enum PathPromptChoice {
    AllowSession,
    PersistWorkspaceRoot { root: String },
    Cancel,
}

/// How many lines of a preview are shown.
pub const PREVIEW_LINES: usize = 20;

/// Who asks for something to be done.
pub open spec fn source_label(plugin_id: Seq<char>) -> Seq<char> {
    if plugin_id == "__agent__"@ {
        "host"@
    } else {
        plugin_id
    }
}

/// The preview as it is shown: the first lines, and how many were left out.
pub open spec fn shown_preview(preview: Seq<char>) -> Seq<char> {
    let ls = lines(preview);
    if ls.len() > PREVIEW_LINES {
        joined(ls.take(PREVIEW_LINES as int), "\n"@) + "\n  ... ("@ + decimal(
            (ls.len() - PREVIEW_LINES) as nat,
        ) + " 行已省略)"@
    } else {
        preview
    }
}

/// The lines that put the question.
pub open spec fn question_lines(
    operation: Seq<char>,
    preview: Seq<char>,
    plugin_id: Seq<char>,
) -> Seq<Seq<char>> {
    let head = seq![
        "\n--- 操作确认 ---"@,
        "类型: "@ + operation + "  来源: "@ + source_label(plugin_id),
    ];
    if preview.len() == 0 {
        head
    } else {
        head.push("预览:\n"@ + shown_preview(preview))
    }
}

fn show_preview(preview: &str) -> (r: String)
    ensures
        r@ == shown_preview(preview@),
{
    let ls = lines_of(preview);
    let n: usize = ls.len();
    let ghost all = texts(ls@);
    if n > PREVIEW_LINES {
        let mut first: Vec<String> = Vec::new();
        let mut i: usize = 0;
        assert(texts(first@) =~= all.take(0));
        while i < PREVIEW_LINES
            invariant
                i <= PREVIEW_LINES < n,
                n == ls@.len(),
                all == texts(ls@),
                texts(first@) == all.take(i as int),
            decreases PREVIEW_LINES - i,
        {
            push_text(&mut first, ls[i].clone());
            assert(all.take(i + 1) =~= all.take(i as int).push(all[i as int]));
            i = i + 1;
        }
        cat4(
            join(&first, "\n").as_str(),
            "\n  ... (",
            decimal_usize(n - PREVIEW_LINES).as_str(),
            " 行已省略)",
        )
    } else {
        preview.to_owned()
    }
}

impl CliConfirmation {
    /// The lines that put the question; `operation` is how the operation is written.
    pub fn confirm_lines(&self, operation: &str, preview: &str, plugin_id: &str) -> (r: Vec<String>)
        ensures
            texts(r@) == question_lines(operation@, preview@, plugin_id@),
    {
        let mut v = one_text("\n--- 操作确认 ---".to_owned());
        let label: &str = if same(plugin_id, "__agent__") {
            "host"
        } else {
            plugin_id
        };
        push_text(&mut v, cat4("类型: ", operation, "  来源: ", label));
        if !preview.is_empty() {
            push_text(&mut v, cat("预览:\n", show_preview(preview).as_str()));
        }
        assert(texts(v@) =~= question_lines(operation@, preview@, plugin_id@));
        v
    }

    /// What stands before the answer.
    pub fn confirm_prompt(&self) -> (r: &'static str)
        ensures
            r@ == "是否执行？[y/N] "@,
    {
        "是否执行？[y/N] "
    }

    /// Whether the answer is yes.
    pub fn is_yes(&self, line: &str) -> (r: bool)
        ensures
            r == means_yes(unicode_lowered(trimmed(line@))),
    {
        word_means_yes(to_unicode_lower(trim(line).as_str()).as_str())
    }

    /// What an answer to the question about a command decides.
    pub fn command_decision(&self, answered_yes: bool) -> (r: ConfirmDecision)
        ensures
            r == (if answered_yes {
                ConfirmDecision::AllowOnce
            } else {
                ConfirmDecision::Deny
            }),
    {
        if answered_yes {
            ConfirmDecision::AllowOnce
        } else {
            ConfirmDecision::Deny
        }
    }

    /// What stands beside the question about a path: which operation it is, and for whom.
    pub fn path_note(&self, operation: &str, plugin_id: &str) -> (r: String)
        ensures
            r@ == "类型: "@ + operation@ + "  来源: "@ + plugin_id@,
    {
        cat4("类型: ", operation, "  来源: ", plugin_id)
    }

    /// What a choice about a path decides. The second part is the directory that the configuration
    /// has to take in before the decision holds.
    pub fn path_decision(&self, choice: PathPromptChoice) -> (r: (ConfirmDecision, Option<String>))
        ensures
            match choice {
                PathPromptChoice::AllowSession => r.0 is AllowOnce && r.1 is None,
                PathPromptChoice::PersistWorkspaceRoot { root } => opt_text(r.1) == Some(root@) && (
                r.0 matches ConfirmDecision::AllowAndPersistRoot { root: allowed } && allowed@
                    == root@),
                PathPromptChoice::Cancel => r.0 is Deny && r.1 is None,
            },
    {
        match choice {
            PathPromptChoice::AllowSession => (ConfirmDecision::AllowOnce, None),
            PathPromptChoice::PersistWorkspaceRoot { root } => {
                let kept = root.clone();
                (ConfirmDecision::AllowAndPersistRoot { root }, Some(kept))
            },
            PathPromptChoice::Cancel => (ConfirmDecision::Deny, None),
        }
    }

    /// The path that is asked about: the one that the preview names, else the one that is proposed,
    /// else the directory at hand.
    pub fn asked_path(&self, preview: &str, suggested_root: Option<&str>) -> (r: String)
        ensures
            r@ == (match named_path(lines(preview@), 0) {
                Some(p) => p,
                None => match opt_str(suggested_root) {
                    Some(s) => s,
                    None => "."@,
                },
            }),
    {
        match extract_path_from_preview(preview) {
            Some(p) => p,
            None => match suggested_root {
                Some(s) => s.to_owned(),
                None => ".".to_owned(),
            },
        }
    }
}

/// Whether a word in small letters means yes.
pub open spec fn means_yes(word: Seq<char>) -> bool {
    word == "y"@ || word == "yes"@
}

/// Whether a word in small letters means yes.
pub fn word_means_yes(word: &str) -> (r: bool)
    ensures
        r == means_yes(word@),
{
    same(word, "y") || same(word, "yes")
}

/// The path that the first of the lines with one names.
pub open spec fn named_path(ls: Seq<Seq<char>>, from: int) -> Option<Seq<char>>
    decreases ls.len() - from,
{
    if from >= ls.len() {
        None
    } else if has_prefix(ls[from], "路径: "@) {
        Some(ls[from].skip("路径: "@.len() as int))
    } else {
        named_path(ls, from + 1)
    }
}

/// The path that a preview names.
pub fn extract_path_from_preview(preview: &str) -> (r: Option<String>)
    ensures
        opt_text(r) == named_path(lines(preview@), 0),
{
    let ls = lines_of(preview);
    let ghost all = texts(ls@);
    let mut i: usize = 0;
    while i < ls.len()
        invariant
            i <= ls@.len(),
            all == texts(ls@),
            all == lines(preview@),
            named_path(all, i as int) == named_path(all, 0),
        decreases ls@.len() - i,
    {
        assert(all[i as int] == ls@[i as int]@);
        if let Some(rest) = strip_prefix(ls[i].as_str(), "路径: ") {
            return Some(rest);
        }
        i = i + 1;
    }
    None
}

// ---------------------------------------------------------------- laws

/// A preview of up to twenty lines is shown as it is; of a longer one the first twenty are, and it is told how
/// many are left out.
pub proof fn law_previews_show_their_start(preview: Seq<char>)
    ensures
        lines(preview).len() <= 20 ==> shown_preview(preview) == preview,
        lines(preview).len() > 20 ==> crate::search::has_prefix(
            shown_preview(preview),
            joined(lines(preview).take(20), "\n"@) + "\n  ... ("@ + decimal(
                (lines(preview).len() - 20) as nat,
            ),
        ),
{
    let ls = lines(preview);
    if ls.len() > 20 {
        let head = joined(ls.take(20), "\n"@) + "\n  ... ("@ + decimal((ls.len() - 20) as nat);
        let all = shown_preview(preview);
        assert(all.subrange(0, head.len() as int) =~= head);
    }
}

/// A question tells what is to be done, who wants it, and what it is about; the agent itself is told as the
/// host, and a plugin by its name.
#[verifier::rlimit(40)]
#[verifier::spinoff_prover]
pub proof fn law_questions_tell_who_wants_what(
    operation: Seq<char>,
    preview: Seq<char>,
    plugin_id: Seq<char>,
)
    ensures
        crate::search::has_text(question_lines(operation, preview, plugin_id)[1], operation),
        plugin_id != "__agent__"@ ==> crate::search::has_suffix(
            question_lines(operation, preview, plugin_id)[1],
            plugin_id,
        ),
        crate::search::has_suffix(question_lines(operation, preview, "__agent__"@)[1], "host"@),
        preview.len() > 0 ==> question_lines(operation, preview, plugin_id).len() == 3
            && crate::search::has_suffix(
            question_lines(operation, preview, plugin_id)[2],
            shown_preview(preview),
        ),
        preview.len() == 0 ==> question_lines(operation, preview, plugin_id).len() == 2,
{
    crate::search::lemma_text_in_itself(operation);
    let tail = "  来源: "@ + source_label(plugin_id);
    crate::search::lemma_text_within("类型: "@, operation, tail, operation);
    let line = question_lines(operation, preview, plugin_id)[1];
    assert(line =~= "类型: "@ + operation + tail);
    let who = source_label(plugin_id);
    assert(line.subrange(line.len() - who.len(), line.len() as int) =~= who);
    let host = question_lines(operation, preview, "__agent__"@)[1];
    assert(host =~= "类型: "@ + operation + ("  来源: "@ + "host"@));
    assert(host.subrange(host.len() - "host"@.len(), host.len() as int) =~= "host"@);
    if preview.len() > 0 {
        let last = "预览:\n"@ + shown_preview(preview);
        let s = shown_preview(preview);
        assert(question_lines(operation, preview, plugin_id)[2] == last);
        assert(last.subrange(last.len() - s.len(), last.len() as int) =~= s);
    }
}

/// The path of a preview is what the first line that names one names, as it is written.
pub proof fn law_first_named_path_counts(ls: Seq<Seq<char>>, from: int, i: int, path: Seq<char>)
    requires
        0 <= from <= i < ls.len(),
        ls[i] == "路径: "@ + path,
        forall|j: int| from <= j < i ==> !has_prefix(#[trigger] ls[j], "路径: "@),
    ensures
        named_path(ls, from) == Some(path),
    decreases i - from,
{
    let mark = "路径: "@;
    if from == i {
        assert(ls[i].subrange(0, mark.len() as int) =~= mark);
        assert(ls[i].skip(mark.len() as int) =~= path);
    } else {
        assert(!has_prefix(ls[from], mark));
        law_first_named_path_counts(ls, from + 1, i, path);
    }
}

/// Only yes means yes.
pub proof fn law_only_yes_means_yes(word: Seq<char>)
    ensures
        means_yes(word) <==> word == seq!['y'] || word == seq!['y', 'e', 's'],
{
    reveal_strlit("y");
    reveal_strlit("yes");
    assert("y"@ =~= seq!['y']);
    assert("yes"@ =~= seq!['y', 'e', 's']);
}

} // verus!
