//! What a reviewing agent is asked, and how its answer is read.

use vstd::prelude::*;
use vstd::string::*;

use crate::search::{
    ends_with, find_char, find_text, lines_of, rfind_text, starts_with, strip_prefix, take_chars,
};
#[allow(unused_imports)]
use crate::search::{
    chomped, has_prefix, has_suffix, has_text, joined, last_text, lemma_last_text,
    lemma_lines_append, lemma_next_text, lemma_one_line, lemma_stands_beside_line, lines,
    next_char, next_text, stands_at,
};
use crate::text::{bare, bare_start, chars_of, push_text, same, slice_text, to_ascii_lower, trim};
#[allow(unused_imports)]
use crate::text::{
    ascii_lowered, bared, bared_start, lemma_trimmed_end, texts, trimmed, trimmed_start, white,
};

verus! {

/// Whether a reviewing agent may change the plan: it always may.
pub const REVIEWER_ALLOW_REVIEW_EDIT: bool = true;

/// What a reviewing agent is told first.
pub const REVIEWER_SYSTEM_PROMPT: &'static str = r#"
You are an internal review subagent. You are NOT the user-facing agent.
Your output is advisory — you do not gate or approve downstream workflow steps.

You receive a review brief in the initial user message (what to review, scope,
constraints, and any artifact paths). Treat that brief as the source of truth.

Workflow:
1. Inspect the subject with `read` / `search_files` / `list_dir` (and any
   other read-only tools granted by runtime). The catalog name `search_files`
   covers grep- and find-style queries.
2. Record findings as you go (nit / suggestion / concern).
3. For substantive issues: explore the repo, reason about root cause, and
   formulate fixes. You have edit-capable tools (`edit`, `update_plan`)
   granted — apply proportionate fixes directly; runtime enforces path/scope
   guards (`edit` may modify the target plan body under
   `~/.tomcat/plans/<id>.plan.md` but must NOT raw-edit frontmatter;
   `update_plan` only touches the target plan's todos).
4. End with the required output block below (review opinion + changes summary).

Tools (runtime-filtered; only granted tools are callable):
- read, search_files, list_dir, todos (personal scratchpad only)
- edit, update_plan (write tools, guarded by tool_exec); out-of-scope edits
  return tool errors — adjust and retry or fall back to read-only recommendations.
- create_plan / bash / write / dispatch_agent / checkpoint are NEVER available.

Output contract (must be the final assistant message, exact format):

<review>
findings:
  - { severity: nit|suggestion|concern, area: "<short label>", note: "<one-line concrete remark>" }
  - ...
summary: <review opinion — what you found and overall assessment, <= 600 chars>
changes_summary: <what you changed and why; use "none" if read-only or no edits>
applied_changes: <true | false>
</review>

Rules:
1. Advisory only. Do NOT emit gate verdicts (approve/reject/block) or prescribe
   what the parent agent or user should do next in their workflow.
2. Severities: nit (style/cleanup), suggestion (worth adjusting), concern
   (substantive risk or gap).
3. Stay within the review brief; do not expand scope or invent requirements.
4. Do not modify repository source unless a write tool was granted and runtime
   accepts the target path. When writes are denied, put fix guidance in
   changes_summary as recommendations, not as claims of applied edits.
5. Stay within max_turns reasoning turns; if you cannot finish, emit findings
   gathered so far, note what remains unclear in summary, and set
   changes_summary to "none" or partial edits only.
"#;

// ---------------------------------------------------------------- blocks in an answer

/// What stands between the last opening tag of a text and the next closing tag.
pub open spec fn last_block(text: Seq<char>, open: Seq<char>, close: Seq<char>) -> Option<Seq<char>> {
    match last_text(text, open, text.len() as int) {
        Some(i) => match next_text(text, close, i + open.len()) {
            Some(j) => Some(text.subrange(i + open.len(), j)),
            None => None,
        },
        None => None,
    }
}

/// What stands between the last opening tag of a text and the next closing tag.
pub fn find_last_block(text: &str, open: &str, close: &str) -> (r: Option<String>)
    ensures
        crate::text::opt_text(r) == last_block(text@, open@, close@),
{
    let v = chars_of(text);
    let a = chars_of(open);
    let z = chars_of(close);
    let n: usize = v.len();
    match rfind_text(&v, &a) {
        Some(i) => {
            assert(i + a@.len() <= n);
            let start: usize = i + a.len();
            match find_text(&v, &z, start) {
                Some(j) => Some(slice_text(&v, start, j)),
                None => None,
            }
        },
        None => None,
    }
}

// ---------------------------------------------------------------- findings

/// One thing that a review found.
#[derive(Clone, Debug, PartialEq, Eq)]
pub struct Finding {
    pub severity: String,
    pub area: String,
    pub note: String,
}

/// One thing that a review found, as mathematics.
pub ghost struct Remark {
    pub severity: Seq<char>,
    pub area: Seq<char>,
    pub note: Seq<char>,
}

impl View for Finding {
    type V = Remark;

    open spec fn view(&self) -> Remark {
        Remark { severity: self.severity@, area: self.area@, note: self.note@ }
    }
}

/// The findings of a list.
pub open spec fn remarks(v: Seq<Finding>) -> Seq<Remark> {
    v.map_values(|f: Finding| f@)
}

/// Whether a character opens or closes a quotation.
pub open spec fn is_quote(c: char) -> bool {
    c == '"' || c == '\''
}

/// The quotation that is open before the character at `i`, named by its mark.
pub open spec fn open_quote(s: Seq<char>, i: int) -> Option<char>
    decreases i,
{
    if i <= 0 {
        None
    } else {
        let c = s[i - 1];
        match open_quote(s, i - 1) {
            Some(q) => if c == q {
                None
            } else {
                Some(q)
            },
            None => if is_quote(c) {
                Some(c)
            } else {
                None
            },
        }
    }
}

/// Whether a comma outside quotations stands at `i`.
pub open spec fn cuts(s: Seq<char>, i: int) -> bool {
    s[i] == ',' && open_quote(s, i) is None
}

/// What stands between the commas that are outside quotations, where a piece began at `from` and
/// the text is read on from `i`.
pub open spec fn comma_pieces(s: Seq<char>, from: int, i: int) -> Seq<Seq<char>>
    decreases s.len() - i,
{
    if i >= s.len() {
        seq![s.subrange(from, s.len() as int)]
    } else if cuts(s, i) {
        seq![s.subrange(from, i)] + comma_pieces(s, i + 1, i + 1)
    } else {
        comma_pieces(s, from, i + 1)
    }
}

/// What stands between the commas that are outside quotations.
pub fn split_top_level_commas(s: &str) -> (r: Vec<String>)
    ensures
        texts(r@) == comma_pieces(s@, 0, 0),
{
    let v = chars_of(s);
    let n: usize = v.len();
    let mut out: Vec<String> = Vec::new();
    let mut start: usize = 0;
    let mut i: usize = 0;
    let mut quote: Option<char> = None;
    assert(texts(out@) + comma_pieces(s@, 0, 0) =~= comma_pieces(s@, 0, 0));
    while i < n
        invariant
            n == v@.len(),
            v@ == s@,
            start <= i <= n,
            quote == open_quote(s@, i as int),
            texts(out@) + comma_pieces(s@, start as int, i as int) == comma_pieces(s@, 0, 0),
        decreases n - i,
    {
        let c: char = v[i];
        match quote {
            Some(q) => {
                if c == q {
                    quote = None;
                }
            },
            None => {
                if c == '"' || c == '\'' {
                    quote = Some(c);
                } else if c == ',' {
                    let ghost before = texts(out@);
                    push_text(&mut out, slice_text(&v, start, i));
                    assert(texts(out@) + comma_pieces(s@, i + 1, i + 1) =~= before + comma_pieces(
                        s@,
                        start as int,
                        i as int,
                    ));
                    start = i + 1;
                }
            },
        }
        i = i + 1;
    }
    let ghost before = texts(out@);
    push_text(&mut out, slice_text(&v, start, n));
    assert(texts(out@) =~= before + comma_pieces(s@, start as int, i as int));
    out
}

/// The key of a piece: what stands before its first colon.
pub open spec fn piece_key(piece: Seq<char>) -> Seq<char> {
    bared(trimmed(piece.take(next_char(piece, ':', 0))), '"', '"')
}

/// The value of a piece: what stands behind its first colon.
pub open spec fn piece_value(piece: Seq<char>) -> Seq<char> {
    bared(trimmed(piece.skip(next_char(piece, ':', 0) + 1)), '"', '\'')
}

/// Whether each piece has a colon.
pub open spec fn all_keyed(pieces: Seq<Seq<char>>) -> bool {
    forall|i: int| 0 <= i < pieces.len() ==> (#[trigger] pieces[i]).contains(':')
}

/// The value of the last piece with a key.
pub open spec fn keyed_value(pieces: Seq<Seq<char>>, key: Seq<char>) -> Option<Seq<char>>
    decreases pieces.len(),
{
    if pieces.len() == 0 {
        None
    } else if piece_key(pieces.last()) == key {
        Some(piece_value(pieces.last()))
    } else {
        keyed_value(pieces.drop_last(), key)
    }
}

/// The finding that a line writes, if it writes one: `- { severity: .., area: "..", note: ".." }`.
pub open spec fn finding_of(line: Seq<char>) -> Option<Remark> {
    let item = trimmed(bared_start(line, '-', '-'));
    if !has_prefix(item, "{"@) || !has_suffix(item, "}"@) {
        None
    } else {
        let pieces = comma_pieces(item.subrange(1, item.len() - 1), 0, 0);
        if !all_keyed(pieces) {
            None
        } else {
            match keyed_value(pieces, "note"@) {
                Some(note) => Some(
                    Remark {
                        severity: match keyed_value(pieces, "severity"@) {
                            Some(s) => s,
                            None => "suggestion"@,
                        },
                        area: match keyed_value(pieces, "area"@) {
                            Some(a) => a,
                            None => Seq::empty(),
                        },
                        note,
                    },
                ),
                None => None,
            }
        }
    }
}

/// The key and the value of a piece, if it has a colon.
fn split_piece(piece: &str) -> (r: Option<(String, String)>)
    ensures
        match r {
            Some(p) => piece@.contains(':') && p.0@ == piece_key(piece@) && p.1@ == piece_value(
                piece@,
            ),
            None => !piece@.contains(':'),
        },
{
    let v = chars_of(piece);
    proof {
        crate::search::lemma_next_char(v@, ':', 0);
    }
    let i = find_char(&v, ':', 0);
    if i >= v.len() {
        return None;
    }
    assert(piece@[i as int] == ':');
    let k = slice_text(&v, 0, i);
    let val = slice_text(&v, i + 1, v.len());
    assert(k@ =~= piece@.take(i as int));
    assert(val@ =~= piece@.skip(i + 1));
    Some((bare(trim(k.as_str()).as_str(), '"', '"'), bare(trim(val.as_str()).as_str(), '"', '\'')))
}

/// The value of the last piece with a key, if each piece has a colon.
fn find_keyed(pieces: &Vec<String>, key: &str) -> (r: Option<String>)
    requires
        all_keyed(texts(pieces@)),
    ensures
        crate::text::opt_text(r) == keyed_value(texts(pieces@), key@),
{
    let ghost all = texts(pieces@);
    let mut n: usize = pieces.len();
    assert(all.take(n as int) =~= all);
    while n > 0
        invariant
            n <= pieces@.len(),
            all == texts(pieces@),
            all_keyed(all),
            keyed_value(all.take(n as int), key@) == keyed_value(all, key@),
        decreases n,
    {
        assert(all.take(n as int).drop_last() =~= all.take(n - 1));
        assert(all[n - 1] == pieces@[n - 1]@);
        match split_piece(pieces[n - 1].as_str()) {
            Some(p) => {
                let (k, val) = p;
                if same(k.as_str(), key) {
                    return Some(val);
                }
            },
            None => {
                assert(all[n - 1].contains(':'));
            },
        }
        n = n - 1;
    }
    None
}

/// Whether each piece has a colon.
fn are_keyed(pieces: &Vec<String>) -> (r: bool)
    ensures
        r == all_keyed(texts(pieces@)),
{
    let ghost all = texts(pieces@);
    let mut i: usize = 0;
    while i < pieces.len()
        invariant
            i <= pieces@.len(),
            all == texts(pieces@),
            forall|j: int| 0 <= j < i ==> (#[trigger] all[j]).contains(':'),
        decreases pieces@.len() - i,
    {
        assert(all[i as int] == pieces@[i as int]@);
        if !crate::search::contains_char(pieces[i].as_str(), ':') {
            return false;
        }
        i = i + 1;
    }
    true
}

/// The finding that a line writes, if it writes one.
pub fn parse_finding_line(line: &str) -> (r: Option<Finding>)
    ensures
        match r {
            Some(f) => finding_of(line@) == Some(f@),
            None => finding_of(line@) is None,
        },
{
    proof {
        reveal_strlit("{");
        reveal_strlit("}");
    }
    let item = trim(bare_start(line, '-', '-').as_str());
    if !starts_with(item.as_str(), "{") || !ends_with(item.as_str(), "}") {
        return None;
    }
    let v = chars_of(item.as_str());
    proof {
        assert(item@.subrange(0, 1)[0] == '{');
        assert(item@.subrange(item@.len() - 1, item@.len() as int)[0] == '}');
        assert(item@.len() >= 2);
    }
    let inner = slice_text(&v, 1, v.len() - 1);
    let pieces = split_top_level_commas(inner.as_str());
    if !are_keyed(&pieces) {
        return None;
    }
    let severity = match find_keyed(&pieces, "severity") {
        Some(s) => s,
        None => "suggestion".to_owned(),
    };
    let area = match find_keyed(&pieces, "area") {
        Some(a) => a,
        None => {
            let none: String = String::new();
            assert(none@ =~= Seq::empty());
            none
        },
    };
    match find_keyed(&pieces, "note") {
        Some(note) => Some(Finding { severity, area, note }),
        None => None,
    }
}

// ---------------------------------------------------------------- the answer

/// What came of a review.
#[derive(Clone, Debug, PartialEq, Eq)]
pub struct ReviewSummary {
    /// Whether there is no review.
    pub aborted: bool,
    /// The opinion, or why there is none.
    pub summary: String,
    pub changes_summary: String,
    /// Whether the review changed anything.
    pub applied_changes: bool,
    pub findings: Vec<Finding>,
    pub reviewer_turns_used: u32,
    pub reviewer_turns_limit: u32,
    pub reviewer_stop_reason: String,
    pub child_session_id: String,
}

/// Whether `r` says that there is no review, with a reason and a word for how it stopped.
pub open spec fn is_aborted_review(r: ReviewSummary, reason: Seq<char>, stop: Seq<char>) -> bool {
    &&& r.aborted
    &&& r.summary@ == reason
    &&& r.changes_summary@ == "none"@
    &&& !r.applied_changes
    &&& r.findings@.len() == 0
    &&& r.reviewer_turns_used == 0
    &&& r.reviewer_turns_limit == 0
    &&& r.reviewer_stop_reason@ == stop
    &&& r.child_session_id@ == Seq::<char>::empty()
}

/// What is said where there is nobody to review.
pub open spec fn nobody_reviews(agent: Seq<char>) -> Seq<char> {
    agent + " 子 Agent 将在 P4 接入；当前阶段返回 aborted 占位"@
}

impl ReviewSummary {
    /// What stands for a review where there is nobody to review; `agent` is what the one who would
    /// is called.
    pub fn placeholder_pending(agent: &str) -> (r: ReviewSummary)
        ensures
            is_aborted_review(r, nobody_reviews(agent@), "not_dispatched"@),
    {
        let mut r = ReviewSummary::aborted_with(
            crate::text::cat(agent, " 子 Agent 将在 P4 接入；当前阶段返回 aborted 占位"),
        );
        r.reviewer_stop_reason = "not_dispatched".to_owned();
        r
    }

    /// That there is no review, and why.
    pub fn aborted_with(reason: String) -> (r: ReviewSummary)
        ensures
            is_aborted_review(r, reason@, "aborted"@),
    {
        let none: String = String::new();
        assert(none@ =~= Seq::empty());
        ReviewSummary {
            aborted: true,
            summary: reason,
            changes_summary: "none".to_owned(),
            applied_changes: false,
            findings: Vec::new(),
            reviewer_turns_used: 0,
            reviewer_turns_limit: 0,
            reviewer_stop_reason: "aborted".to_owned(),
            child_session_id: none,
        }
    }
}

/// What the last line with a key says.
pub open spec fn line_value(ls: Seq<Seq<char>>, key: Seq<char>) -> Option<Seq<char>>
    decreases ls.len(),
{
    if ls.len() == 0 {
        None
    } else {
        let line = trimmed(ls.last());
        if has_prefix(line, key) {
            Some(trimmed(line.skip(key.len() as int)))
        } else {
            line_value(ls.drop_last(), key)
        }
    }
}

/// The truth value that a word names.
pub open spec fn truth(word: Seq<char>) -> Option<bool> {
    if ascii_lowered(word) == "true"@ {
        Some(true)
    } else if ascii_lowered(word) == "false"@ {
        Some(false)
    } else {
        None
    }
}

/// Whether each line that says if changes were made says it with a truth value.
pub open spec fn answers_clearly(ls: Seq<Seq<char>>) -> bool
    decreases ls.len(),
{
    ls.len() == 0 || (answers_clearly(ls.drop_last()) && {
        let line = trimmed(ls.last());
        has_prefix(line, "applied_changes:"@) ==> truth(
            trimmed(line.skip("applied_changes:"@.len() as int)),
        ) is Some
    })
}

/// Whether the line that follows belongs to the list of findings.
pub open spec fn lists_findings(ls: Seq<Seq<char>>) -> bool
    decreases ls.len(),
{
    if ls.len() == 0 {
        false
    } else {
        let line = trimmed(ls.last());
        if has_prefix(line, "summary:"@) || has_prefix(line, "changes_summary:"@) || has_prefix(
            line,
            "applied_changes:"@,
        ) {
            false
        } else {
            has_prefix(line, "findings:"@) || lists_findings(ls.drop_last())
        }
    }
}

/// Whether a line is one of those with a key.
pub open spec fn is_key_line(line: Seq<char>) -> bool {
    has_prefix(line, "summary:"@) || has_prefix(line, "changes_summary:"@) || has_prefix(
        line,
        "applied_changes:"@,
    ) || has_prefix(line, "findings:"@)
}

/// The findings that are listed; a line that writes none is passed over.
pub open spec fn listed_findings(ls: Seq<Seq<char>>) -> Seq<Remark>
    decreases ls.len(),
{
    if ls.len() == 0 {
        Seq::empty()
    } else {
        let rest = listed_findings(ls.drop_last());
        let line = trimmed(ls.last());
        if !is_key_line(line) && lists_findings(ls.drop_last()) {
            match finding_of(line) {
                Some(f) => rest.push(f),
                None => rest,
            }
        } else {
            rest
        }
    }
}

/// A text cut off after `n` characters.
pub open spec fn cut_to(s: Seq<char>, n: int) -> Seq<char> {
    if s.len() <= n {
        s
    } else {
        s.take(n)
    }
}

/// Whether a block of lines holds a review: an opinion, what was changed, and whether anything
/// was.
pub open spec fn is_review_block(ls: Seq<Seq<char>>) -> bool {
    answers_clearly(ls) && line_value(ls, "summary:"@) is Some && line_value(
        ls,
        "changes_summary:"@,
    ) is Some && line_value(ls, "applied_changes:"@) is Some
}

/// Whether `r` is the review that a block of lines holds.
pub open spec fn is_review_of(r: ReviewSummary, ls: Seq<Seq<char>>) -> bool {
    &&& !r.aborted
    &&& r.summary@ == cut_to(line_value(ls, "summary:"@)->0, 600)
    &&& r.changes_summary@ == line_value(ls, "changes_summary:"@)->0
    &&& Some(r.applied_changes) == truth(line_value(ls, "applied_changes:"@)->0)
    &&& remarks(r.findings@) == listed_findings(ls)
    &&& r.reviewer_turns_used == 0
    &&& r.reviewer_turns_limit == 0
    &&& r.reviewer_stop_reason@ == "completed"@
    &&& r.child_session_id@ == Seq::<char>::empty()
}

/// The lines of the last review block of an answer.
pub open spec fn review_lines(text: Seq<char>) -> Option<Seq<Seq<char>>> {
    match last_block(text, "<review>"@, "</review>"@) {
        Some(b) => Some(lines(b)),
        None => None,
    }
}

/// The review that an answer holds: in its last `<review>` block, if that is complete.
pub fn parse_review_block(text: &str) -> (r: Option<ReviewSummary>)
    ensures
        match r {
            Some(s) => review_lines(text@) is Some && is_review_block(review_lines(text@)->0)
                && is_review_of(s, review_lines(text@)->0),
            None => !(review_lines(text@) is Some && is_review_block(review_lines(text@)->0)),
        },
{
    match find_last_block(text, "<review>", "</review>") {
        Some(block) => read_review(&lines_of(block.as_str())),
        None => None,
    }
}

/// Lines with different keys are different.
proof fn lemma_keys_differ(line: Seq<char>)
    ensures
        has_prefix(line, "summary:"@) ==> !has_prefix(line, "changes_summary:"@) && !has_prefix(
            line,
            "applied_changes:"@,
        ) && !has_prefix(line, "findings:"@),
        has_prefix(line, "changes_summary:"@) ==> !has_prefix(line, "applied_changes:"@)
            && !has_prefix(line, "findings:"@),
        has_prefix(line, "applied_changes:"@) ==> !has_prefix(line, "findings:"@),
{
    reveal_strlit("summary:");
    reveal_strlit("changes_summary:");
    reveal_strlit("applied_changes:");
    reveal_strlit("findings:");
    assert("summary:"@[0] == 's' && "changes_summary:"@[0] == 'c' && "applied_changes:"@[0] == 'a'
        && "findings:"@[0] == 'f');
    if has_prefix(line, "summary:"@) {
        assert(line.subrange(0, "summary:"@.len() as int)[0] == line[0]);
    }
    if has_prefix(line, "changes_summary:"@) {
        assert(line.subrange(0, "changes_summary:"@.len() as int)[0] == line[0]);
    }
    if has_prefix(line, "applied_changes:"@) {
        assert(line.subrange(0, "applied_changes:"@.len() as int)[0] == line[0]);
    }
    if has_prefix(line, "findings:"@) {
        assert(line.subrange(0, "findings:"@.len() as int)[0] == line[0]);
    }
}

/// A line that answers unclearly spoils the lines before and behind it.
proof fn lemma_unclear(ls: Seq<Seq<char>>, n: int)
    requires
        0 <= n <= ls.len(),
        !answers_clearly(ls.take(n)),
    ensures
        !answers_clearly(ls),
    decreases ls.len() - n,
{
    if n == ls.len() {
        assert(ls.take(n) =~= ls);
    } else {
        assert(ls.take(n + 1).drop_last() =~= ls.take(n));
        lemma_unclear(ls, n + 1);
    }
}

/// The review that a block of lines holds, if it is complete.
pub fn read_review(block: &Vec<String>) -> (r: Option<ReviewSummary>)
    ensures
        match r {
            Some(s) => is_review_block(texts(block@)) && is_review_of(s, texts(block@)),
            None => !is_review_block(texts(block@)),
        },
{
    let ghost ls = texts(block@);
    let mut summary: Option<String> = None;
    let mut changes: Option<String> = None;
    let mut applied: Option<bool> = None;
    let mut findings: Vec<Finding> = Vec::new();
    let mut in_findings = false;
    let mut i: usize = 0;
    assert(remarks(findings@) =~= listed_findings(ls.take(0)));
    while i < block.len()
        invariant
            i <= block@.len(),
            ls == texts(block@),
            crate::text::opt_text(summary) == line_value(ls.take(i as int), "summary:"@),
            crate::text::opt_text(changes) == line_value(ls.take(i as int), "changes_summary:"@),
            answers_clearly(ls.take(i as int)),
            (match line_value(ls.take(i as int), "applied_changes:"@) {
                Some(w) => applied is Some && applied == truth(w),
                None => applied is None,
            }),
            in_findings == lists_findings(ls.take(i as int)),
            remarks(findings@) == listed_findings(ls.take(i as int)),
        decreases block@.len() - i,
    {
        assert(ls.take(i + 1).drop_last() =~= ls.take(i as int));
        assert(ls.take(i + 1).last() == block@[i as int]@);
        let line = trim(block[i].as_str());
        proof {
            lemma_keys_differ(line@);
        }
        if let Some(rest) = strip_prefix(line.as_str(), "summary:") {
            in_findings = false;
            summary = Some(trim(rest.as_str()));
        } else if let Some(rest) = strip_prefix(line.as_str(), "changes_summary:") {
            in_findings = false;
            changes = Some(trim(rest.as_str()));
        } else if let Some(rest) = strip_prefix(line.as_str(), "applied_changes:") {
            in_findings = false;
            let word = to_ascii_lower(trim(rest.as_str()).as_str());
            if same(word.as_str(), "true") {
                applied = Some(true);
            } else if same(word.as_str(), "false") {
                applied = Some(false);
            } else {
                proof {
                    lemma_unclear(ls, i + 1);
                }
                return None;
            }
        } else if starts_with(line.as_str(), "findings:") {
            in_findings = true;
        } else if in_findings {
            if let Some(item) = parse_finding_line(line.as_str()) {
                let ghost before = findings@;
                findings.push(item);
                assert(remarks(findings@) =~= remarks(before).push(item@));
            }
        }
        i = i + 1;
    }
    assert(ls.take(ls.len() as int) =~= ls);
    proof {
        reveal_strlit("true");
        reveal_strlit("false");
        assert("true"@.len() != "false"@.len());
    }
    match (summary, changes, applied) {
        (Some(s), Some(c), Some(a)) => {
            let none: String = String::new();
            assert(none@ =~= Seq::empty());
            Some(
                ReviewSummary {
                    aborted: false,
                    summary: take_chars(s.as_str(), 600),
                    changes_summary: c,
                    applied_changes: a,
                    findings,
                    reviewer_turns_used: 0,
                    reviewer_turns_limit: 0,
                    reviewer_stop_reason: "completed".to_owned(),
                    child_session_id: none,
                },
            )
        },
        _ => None,
    }
}

// ---------------------------------------------------------------- the question

/// What the review is to look at.
pub const REVIEW_SCOPE: &'static str = "Scope:\n- Inspect frontmatter `goal`, `todos[]`, and the markdown body.\n- Flag risks (unclear acceptance criteria, missing dependencies, oversized todos).\n- Read the exact plan file path above before broad search if you need to confirm current disk content.\n- You may use `update_plan` to adjust `todos[]`, or `edit` the exact plan file above\n  in-place; runtime enforces path guards and rejects raw frontmatter edits.\n- If you inspect repository files, start from the project/workspace root above instead of wandering.\n- End with the required <review> output block.\n\n----- BEGIN PLAN -----\n";

/// Where the artifacts are, and that nothing else is to be tried first.
pub const ARTIFACT_PATHS: &'static str = "`).\nArtifact paths (use these first; do not guess alternate locations):\n- Exact plan file path: `";

/// The line about the workspace.
pub open spec fn review_workspace_hint(root: Option<Seq<char>>) -> Seq<char> {
    match root {
        Some(r) => "         - Project/workspace root (start repo inspection here first): `"@ + r
            + "`\n"@,
        None => Seq::empty(),
    }
}

/// What the agent for reviews is asked about a plan.
pub open spec fn review_prompt(
    plan_id: Seq<char>,
    plan_text: Seq<char>,
    plan_path: Seq<char>,
    root: Option<Seq<char>>,
) -> Seq<char> {
    "Review the following PlanFile (plan_id = `"@ + plan_id + ARTIFACT_PATHS@ + plan_path + "`\n"@
        + review_workspace_hint(root) + REVIEW_SCOPE@ + plan_text + "\n----- END PLAN -----\n"@
}

/// What the agent for reviews is asked about a plan, with the paths as they are shown.
pub fn build_review_prompt(
    plan_id: &str,
    plan_text: &str,
    plan_path: &str,
    workspace_root: Option<&str>,
) -> (r: String)
    ensures
        r@ == review_prompt(plan_id@, plan_text@, plan_path@, crate::text::opt_str(workspace_root)),
{
    let mut out = "Review the following PlanFile (plan_id = `".to_owned();
    out.append(plan_id);
    out.append(ARTIFACT_PATHS);
    out.append(plan_path);
    out.append("`\n");
    let ghost before = out@;
    match workspace_root {
        Some(root) => {
            let mut hint = crate::text::cat(
                "         - Project/workspace root (start repo inspection here first): `",
                root,
            );
            hint.append("`\n");
            out.append(hint.as_str());
        },
        None => {
            assert(before + Seq::<char>::empty() =~= before);
        },
    }
    out.append(REVIEW_SCOPE);
    out.append(plan_text);
    out.append("\n----- END PLAN -----\n");
    out
}

// ---------------------------------------------------------------- laws

/// Joining the pieces of a text with commas gives the text back.
pub proof fn law_pieces_make_the_text(s: Seq<char>, from: int, i: int)
    requires
        0 <= from <= i <= s.len(),
    ensures
        joined(comma_pieces(s, from, i), ","@) == s.subrange(from, s.len() as int),
        comma_pieces(s, from, i).len() > 0,
    decreases s.len() - i,
{
    reveal_strlit(",");
    if i >= s.len() {
        let one = seq![s.subrange(from, s.len() as int)];
        reveal_with_fuel(joined, 2);
        assert(joined(one, ","@) =~= s.subrange(from, s.len() as int));
    } else if cuts(s, i) {
        law_pieces_make_the_text(s, i + 1, i + 1);
        let rest = comma_pieces(s, i + 1, i + 1);
        let all = seq![s.subrange(from, i)] + rest;
        lemma_joined_front(s.subrange(from, i), rest, ","@);
        assert(s.subrange(from, i) + ","@ + s.subrange(i + 1, s.len() as int) =~= s.subrange(
            from,
            s.len() as int,
        ));
    } else {
        law_pieces_make_the_text(s, from, i + 1);
    }
}

proof fn lemma_joined_front(a: Seq<char>, rest: Seq<Seq<char>>, sep: Seq<char>)
    requires
        rest.len() > 0,
    ensures
        joined(seq![a] + rest, sep) == a + sep + joined(rest, sep),
    decreases rest.len(),
{
    let all = seq![a] + rest;
    reveal_with_fuel(joined, 3);
    if rest.len() == 1 {
        assert(all.drop_last() =~= seq![a]);
        assert(rest.drop_last() =~= Seq::<Seq<char>>::empty());
        assert(joined(all, sep) =~= a + sep + joined(rest, sep));
    } else {
        lemma_joined_front(a, rest.drop_last(), sep);
        assert(all.drop_last() =~= seq![a] + rest.drop_last());
        assert(joined(all, sep) =~= a + sep + joined(rest, sep));
    }
}

/// Whether a line stands among findings without writing one: it can be read as no finding, and it is
/// no line with a key.
pub open spec fn is_broken_finding(line: Seq<char>) -> bool {
    !is_key_line(trimmed(line)) && finding_of(trimmed(line)) is None
}

proof fn lemma_broken_line(before: Seq<Seq<char>>, line: Seq<char>, after: Seq<Seq<char>>)
    requires
        is_broken_finding(line),
    ensures
        ({
            let without = before + after;
            let with = before.push(line) + after;
            &&& line_value(with, "summary:"@) == line_value(without, "summary:"@)
            &&& line_value(with, "changes_summary:"@) == line_value(without, "changes_summary:"@)
            &&& line_value(with, "applied_changes:"@) == line_value(without, "applied_changes:"@)
            &&& answers_clearly(with) == answers_clearly(without)
            &&& lists_findings(with) == lists_findings(without)
            &&& listed_findings(with) == listed_findings(without)
        }),
    decreases after.len(),
{
    let without = before + after;
    let with = before.push(line) + after;
    if after.len() == 0 {
        assert(without =~= before);
        assert(with =~= before.push(line));
        assert(with.drop_last() =~= before);
    } else {
        lemma_broken_line(before, line, after.drop_last());
        assert(without.drop_last() =~= before + after.drop_last());
        assert(with.drop_last() =~= before.push(line) + after.drop_last());
        assert(without.last() == after.last() && with.last() == after.last());
    }
}

/// A line that writes no finding, put between any two lines of a block, leaves the review as it was,
/// or that there is none.
proof fn lemma_broken_block(before: Seq<Seq<char>>, line: Seq<char>, after: Seq<Seq<char>>)
    requires
        is_broken_finding(line),
    ensures
        is_review_block(before.push(line) + after) == is_review_block(before + after),
        forall|r: ReviewSummary| #[trigger]
            is_review_of(r, before.push(line) + after) == is_review_of(r, before + after),
{
    lemma_broken_line(before, line, after);
}

/// Whether what stands between `front` and `back` would stand in the last block of their text.
pub open spec fn meet_in_last_block(front: Seq<char>, back: Seq<char>) -> bool {
    let text = front + back;
    match last_text(text, "<review>"@, text.len() as int) {
        Some(i) => i + "<review>"@.len() <= front.len() && (match next_text(
            text,
            "</review>"@,
            i + "<review>"@.len(),
        ) {
            Some(j) => front.len() <= j,
            None => false,
        }),
        None => false,
    }
}

proof fn lemma_line_in_block(front: Seq<char>, line: Seq<char>, back: Seq<char>)
    requires
        front.len() > 0,
        front.last() == '\n',
        meet_in_last_block(front, back),
        !line.contains('\n'),
        !has_text(line, "<review>"@),
        !has_text(line, "</review>"@),
    ensures
        exists|before: Seq<Seq<char>>, after: Seq<Seq<char>>|
            review_lines(front + back) == Some(before + after) && review_lines(
                front + line.push('\n') + back,
            ) == Some(#[trigger] (before.push(chomped(line)) + after)),
{
    let open = "<review>"@;
    let close = "</review>"@;
    reveal_strlit("<review>");
    reveal_strlit("</review>");
    let t = front + back;
    let u = front + line.push('\n') + back;
    let d = line.len() + 1;
    assert(!open.contains('\n') && open.len() == 8);
    assert(!close.contains('\n') && close.len() == 9);
    lemma_last_text(t, open, t.len() as int);
    let i = last_text(t, open, t.len() as int)->0;
    lemma_next_text(t, close, i + open.len());
    let j = next_text(t, close, i + open.len())->0;
    assert forall|k: int| #[trigger] stands_at(u, open, k) implies k <= i by {
        lemma_stands_beside_line(front, line, back, open, k);
        if k + open.len() > front.len() {
            assert(stands_at(t, open, k - d));
        }
    }
    lemma_stands_beside_line(front, line, back, open, i);
    assert(stands_at(u, open, i));
    lemma_last_text(u, open, u.len() as int);
    assert(last_text(u, open, u.len() as int) == Some(i));
    assert forall|k: int| i + open.len() <= k < j + d implies !#[trigger] stands_at(u, close, k) by {
        lemma_stands_beside_line(front, line, back, close, k);
        if stands_at(u, close, k) {
            if k + close.len() <= front.len() {
                assert(stands_at(t, close, k));
            } else {
                assert(stands_at(t, close, k - d));
            }
        }
    }
    lemma_stands_beside_line(front, line, back, close, j + d);
    assert(stands_at(u, close, j + d));
    lemma_next_text(u, close, i + open.len());
    assert(next_text(u, close, i + open.len()) == Some(j + d));
    let a = front.skip(i + open.len());
    let b = back.take(j - front.len());
    assert(t.subrange(i + open.len(), j) =~= a + b);
    assert(u.subrange(i + open.len(), j + d) =~= a + (line.push('\n') + b));
    if a.len() > 0 {
        assert(a.last() == front.last());
    }
    lemma_lines_append(a, b);
    lemma_lines_append(a, line.push('\n') + b);
    lemma_lines_append(line.push('\n'), b);
    lemma_one_line(line);
    let before = lines(a);
    let after = lines(b);
    assert(before + (seq![chomped(line)] + after) =~= before.push(chomped(line)) + after);
    assert(review_lines(t) == Some(before + after));
    assert(review_lines(u) == Some(before.push(chomped(line)) + after));
}

/// A finding that cannot be read drops only itself: a line that writes none, put behind any line of
/// the last block of an answer, leaves the review that the answer holds as it was, or that it holds
/// none.
pub proof fn law_broken_findings_drop_only_themselves(
    front: Seq<char>,
    line: Seq<char>,
    back: Seq<char>,
)
    requires
        front.len() > 0,
        front.last() == '\n',
        meet_in_last_block(front, back),
        !line.contains('\n'),
        !has_text(line, "<review>"@),
        !has_text(line, "</review>"@),
        is_broken_finding(chomped(line)),
    ensures
        review_lines(front + back) is Some,
        review_lines(front + line.push('\n') + back) is Some,
        is_review_block(review_lines(front + line.push('\n') + back)->0) == is_review_block(
            review_lines(front + back)->0,
        ),
        forall|r: ReviewSummary|
            #![trigger is_review_of(r, review_lines(front + back)->0)]
            is_review_of(r, review_lines(front + line.push('\n') + back)->0) == is_review_of(
                r,
                review_lines(front + back)->0,
            ),
{
    lemma_line_in_block(front, line, back);
    let (before, after) = choose|before: Seq<Seq<char>>, after: Seq<Seq<char>>|
        review_lines(front + back) == Some(before + after) && review_lines(
            front + line.push('\n') + back,
        ) == Some(#[trigger] (before.push(chomped(line)) + after));
    lemma_broken_block(before, chomped(line), after);
    assert forall|r: ReviewSummary|
        #![trigger is_review_of(r, review_lines(front + back)->0)]
        is_review_of(r, review_lines(front + line.push('\n') + back)->0) == is_review_of(
            r,
            review_lines(front + back)->0,
        ) by {
        assert(is_review_of(r, before.push(chomped(line)) + after) == is_review_of(
            r,
            before + after,
        ));
    }
}

proof fn lemma_bared_last(s: Seq<char>, a: char, b: char)
    ensures
        bared_start(s, a, b).len() > 0 ==> bared_start(s, a, b).last() == s.last(),
    decreases s.len(),
{
    if s.len() > 0 && (s[0] == a || s[0] == b) {
        lemma_bared_last(s.drop_first(), a, b);
    }
}

proof fn lemma_trimmed_start_last(s: Seq<char>)
    ensures
        trimmed_start(s).len() > 0 ==> trimmed_start(s).last() == s.last(),
    decreases s.len(),
{
    if s.len() > 0 && white(s[0]) {
        lemma_trimmed_start_last(s.drop_first());
    }
}

/// A finding that is not closed is no finding: a line that begins with a dash and does not end with a
/// closing brace, but for white space, writes none.
pub proof fn law_unclosed_findings_are_broken(line: Seq<char>)
    requires
        trimmed(line).len() > 0,
        trimmed(line)[0] == '-',
        trimmed(line).last() != '}',
    ensures
        is_broken_finding(line),
{
    reveal_strlit("}");
    reveal_strlit("summary:");
    reveal_strlit("changes_summary:");
    reveal_strlit("applied_changes:");
    reveal_strlit("findings:");
    let t = trimmed(line);
    let keys = seq!["summary:"@, "changes_summary:"@, "applied_changes:"@, "findings:"@];
    assert forall|i: int| 0 <= i < 4 implies !has_prefix(t, #[trigger] keys[i]) by {
        if has_prefix(t, keys[i]) {
            assert(t.subrange(0, keys[i].len() as int)[0] == keys[i][0]);
        }
    }
    assert(!has_prefix(t, keys[0]) && !has_prefix(t, keys[1]) && !has_prefix(t, keys[2])
        && !has_prefix(t, keys[3]));
    lemma_trimmed_end(trimmed_start(line));
    assert(!white(t.last()));
    let bare = bared_start(t, '-', '-');
    lemma_bared_last(t, '-', '-');
    lemma_trimmed_start_last(bare);
    let item = trimmed(bare);
    let begun = trimmed_start(bare);
    if begun.len() > 0 {
        assert(begun.last() == t.last());
        assert(item == begun);
    }
    if has_suffix(item, "}"@) {
        assert(item.subrange(item.len() - 1, item.len() as int)[0] == "}"@[0]);
    }
}

/// An opinion is never longer than 600 characters.
pub proof fn law_opinions_are_short(r: ReviewSummary, ls: Seq<Seq<char>>)
    requires
        is_review_of(r, ls),
    ensures
        r.summary@.len() <= 600,
{
}

/// Of several lines with the same key the last one counts, and what it says is taken without white space
/// around it.
pub proof fn law_last_line_with_a_key_counts(
    a: Seq<Seq<char>>,
    line: Seq<char>,
    b: Seq<Seq<char>>,
    key: Seq<char>,
)
    requires
        has_prefix(trimmed(line), key),
        forall|i: int| 0 <= i < b.len() ==> !has_prefix(trimmed(#[trigger] b[i]), key),
    ensures
        line_value(a + seq![line] + b, key) == Some(trimmed(trimmed(line).skip(key.len() as int))),
    decreases b.len(),
{
    let all = a + seq![line] + b;
    if b.len() == 0 {
        assert(all.last() == line);
    } else {
        let n = b.len() - 1;
        assert(!has_prefix(trimmed(b[n]), key));
        assert(all.last() == b[n]);
        assert(all.drop_last() =~= a + seq![line] + b.drop_last());
        assert forall|i: int| 0 <= i < n implies !has_prefix(trimmed(#[trigger] b.drop_last()[i]), key) by {
            assert(b.drop_last()[i] == b[i]);
        }
        law_last_line_with_a_key_counts(a, line, b.drop_last(), key);
    }
}

/// A key that no line has says nothing.
pub proof fn law_missing_keys_say_nothing(ls: Seq<Seq<char>>, key: Seq<char>)
    requires
        forall|i: int| 0 <= i < ls.len() ==> !has_prefix(trimmed(#[trigger] ls[i]), key),
    ensures
        line_value(ls, key) is None,
    decreases ls.len(),
{
    if ls.len() > 0 {
        assert(!has_prefix(trimmed(ls[ls.len() - 1]), key));
        assert forall|i: int| 0 <= i < ls.len() - 1 implies !has_prefix(
            trimmed(#[trigger] ls.drop_last()[i]),
            key,
        ) by {
            assert(ls.drop_last()[i] == ls[i]);
        }
        law_missing_keys_say_nothing(ls.drop_last(), key);
    }
}

/// The findings are all lines behind their heading that write one, in order, up to the next line with a key.
pub proof fn law_findings_are_listed_in_order(ls: Seq<Seq<char>>, heading: Seq<char>, fs: Seq<Seq<char>>)
    requires
        has_prefix(trimmed(heading), "findings:"@),
        forall|i: int| 0 <= i < fs.len() ==> !is_key_line(trimmed(#[trigger] fs[i])),
    ensures
        lists_findings(ls.push(heading) + fs),
        listed_findings(ls.push(heading) + fs) == listed_findings(ls) + fs.filter(
            |l: Seq<char>| finding_of(trimmed(l)) is Some,
        ).map_values(|l: Seq<char>| finding_of(trimmed(l))->0),
    decreases fs.len(),
{
    reveal(Seq::filter);
    let reads = |l: Seq<char>| finding_of(trimmed(l)) is Some;
    let read = |l: Seq<char>| finding_of(trimmed(l))->0;
    let all = ls.push(heading) + fs;
    if fs.len() == 0 {
        assert(all =~= ls.push(heading));
        assert(all.drop_last() =~= ls);
        lemma_keys_differ(trimmed(heading));
        assert(listed_findings(all) =~= listed_findings(ls) + fs.filter(reads).map_values(read));
    } else {
        let front = fs.drop_last();
        assert forall|i: int| 0 <= i < front.len() implies !is_key_line(trimmed(#[trigger] front[i])) by {
            assert(front[i] == fs[i]);
        }
        law_findings_are_listed_in_order(ls, heading, front);
        assert(all.drop_last() =~= ls.push(heading) + front);
        let l = fs[fs.len() - 1];
        assert(all.last() == l);
        assert(!is_key_line(trimmed(l)));
        if reads(l) {
            assert(fs.filter(reads) =~= front.filter(reads).push(l));
            assert(fs.filter(reads).map_values(read) =~= front.filter(reads).map_values(read).push(read(l)));
        } else {
            assert(fs.filter(reads) =~= front.filter(reads));
        }
        assert(listed_findings(all) =~= listed_findings(ls) + fs.filter(reads).map_values(read));
    }
}

/// Whether changes were made is said by true or false, in any case, and by nothing else.
pub proof fn law_truth_is_said_plainly(word: Seq<char>)
    ensures
        truth(word) == Some(true) <==> ascii_lowered(word) == "true"@,
        truth(word) == Some(false) <==> ascii_lowered(word) == "false"@,
{
    reveal_strlit("true");
    reveal_strlit("false");
    assert("true"@.len() != "false"@.len());
}

/// The last block of a text is what stands between its last opening mark and the next closing mark, in full.
pub proof fn law_last_block_is_taken_whole(
    front: Seq<char>,
    open: Seq<char>,
    body: Seq<char>,
    close: Seq<char>,
    back: Seq<char>,
)
    requires
        open.len() > 0,
        close.len() > 0,
        forall|i: int|
            i > front.len() ==> !#[trigger] stands_at(front + open + body + close + back, open, i),
        forall|i: int|
            front.len() + open.len() <= i < front.len() + open.len() + body.len() ==> !#[trigger] stands_at(
                front + open + body + close + back,
                close,
                i,
            ),
    ensures
        last_block(front + open + body + close + back, open, close) == Some(body),
{
    let text = front + open + body + close + back;
    let i = front.len() as int;
    let j = i + open.len() + body.len();
    assert(text.subrange(i, i + open.len()) =~= open);
    assert(stands_at(text, open, i));
    lemma_last_text(text, open, text.len() as int);
    assert(last_text(text, open, text.len() as int) == Some(i));
    assert(text.subrange(j, j + close.len()) =~= close);
    assert(stands_at(text, close, j));
    lemma_next_text(text, close, i + open.len());
    assert(next_text(text, close, i + open.len()) == Some(j));
    assert(text.subrange(i + open.len(), j) =~= body);
}

/// A text is cut to its first characters if it is too long, and else not touched.
pub proof fn law_cutting_keeps_the_start(s: Seq<char>, n: int)
    requires
        0 <= n,
    ensures
        s.len() <= n ==> cut_to(s, n) == s,
        s.len() > n ==> cut_to(s, n).len() == n && forall|i: int|
            0 <= i < n ==> #[trigger] cut_to(s, n)[i] == s[i],
{
}

/// A review tells what its block says: the opinion, the changes and whether they were made, and every finding
/// that is listed, in order.
pub proof fn law_reviews_tell_what_they_say(r: ReviewSummary, ls: Seq<Seq<char>>)
    requires
        is_review_block(ls),
        is_review_of(r, ls),
    ensures
        line_value(ls, "summary:"@) matches Some(s) && (s.len() <= 600 ==> r.summary@ == s),
        line_value(ls, "changes_summary:"@) matches Some(s) && r.changes_summary@ == s,
        line_value(ls, "applied_changes:"@) matches Some(s) && (r.applied_changes ==> ascii_lowered(s)
            == "true"@) && (!r.applied_changes ==> ascii_lowered(s) == "false"@),
        r.findings@.len() == listed_findings(ls).len(),
        forall|i: int|
            0 <= i < r.findings@.len() ==> (#[trigger] r.findings@[i])@ == listed_findings(ls)[i],
        !r.aborted,
{
    let all = remarks(r.findings@);
    assert(all.len() == r.findings@.len());
    assert forall|i: int| 0 <= i < r.findings@.len() implies (#[trigger] r.findings@[i])@
        == listed_findings(ls)[i] by {
        assert(all[i] == r.findings@[i]@);
    }
    law_truth_is_said_plainly(line_value(ls, "applied_changes:"@)->0);
}

/// The agent that reviews a plan is given the plan in full, its id, where it is and where the work is.
#[verifier::rlimit(40)]
#[verifier::spinoff_prover]
pub proof fn law_reviews_are_given_the_plan(
    id: Seq<char>,
    text: Seq<char>,
    path: Seq<char>,
    root: Option<Seq<char>>,
)
    ensures
        has_suffix(review_prompt(id, text, path, root), text + "\n----- END PLAN -----\n"@),
        has_text(review_prompt(id, text, path, root), id),
        has_text(review_prompt(id, text, path, root), path),
        root matches Some(r) ==> has_text(review_prompt(id, text, path, root), r),
{
    let all = review_prompt(id, text, path, root);
    let a = "Review the following PlanFile (plan_id = `"@;
    let hint = review_workspace_hint(root);
    let end = "\n----- END PLAN -----\n"@;
    let tail = text + end;
    assert(all =~= a + id + ARTIFACT_PATHS@ + path + "`\n"@ + hint + REVIEW_SCOPE@ + tail);
    assert(all.subrange(all.len() - tail.len(), all.len() as int) =~= tail);
    crate::search::lemma_text_in_itself(id);
    let b = ARTIFACT_PATHS@ + path + "`\n"@ + hint + REVIEW_SCOPE@ + tail;
    crate::search::lemma_text_within(a, id, b, id);
    assert(all =~= a + id + b);
    crate::search::lemma_text_in_itself(path);
    let c = "`\n"@ + hint + REVIEW_SCOPE@ + tail;
    crate::search::lemma_text_within(a + id + ARTIFACT_PATHS@, path, c, path);
    assert(all =~= (a + id + ARTIFACT_PATHS@) + path + c);
    if let Some(r) = root {
        let h = "         - Project/workspace root (start repo inspection here first): `"@;
        crate::search::lemma_text_in_itself(r);
        crate::search::lemma_text_within(h, r, "`\n"@, r);
        let front = a + id + ARTIFACT_PATHS@ + path + "`\n"@;
        crate::search::lemma_text_within(front, hint, REVIEW_SCOPE@ + tail, r);
        assert(all =~= front + hint + (REVIEW_SCOPE@ + tail));
    }
}

/// The quotation that is open behind a text, if `q` is open before it.
spec fn quote_behind(q: Option<char>, p: Seq<char>) -> Option<char>
    decreases p.len(),
{
    if p.len() == 0 {
        q
    } else {
        let c = p.last();
        match quote_behind(q, p.drop_last()) {
            Some(o) => if c == o {
                None
            } else {
                Some(o)
            },
            None => if is_quote(c) {
                Some(c)
            } else {
                None
            },
        }
    }
}

proof fn lemma_open_quote(s: Seq<char>, i: int)
    requires
        0 <= i <= s.len(),
    ensures
        open_quote(s, i) == quote_behind(None, s.take(i)),
    decreases i,
{
    if i > 0 {
        lemma_open_quote(s, i - 1);
        assert(s.take(i).drop_last() =~= s.take(i - 1));
        assert(s.take(i).last() == s[i - 1]);
    }
}

proof fn lemma_quote_concat(q: Option<char>, a: Seq<char>, b: Seq<char>)
    ensures
        quote_behind(q, a + b) == quote_behind(quote_behind(q, a), b),
    decreases b.len(),
{
    if b.len() == 0 {
        assert(a + b =~= a);
    } else {
        lemma_quote_concat(q, a, b.drop_last());
        assert((a + b).drop_last() =~= a + b.drop_last());
        assert((a + b).last() == b.last());
    }
}

/// Whether a text holds no quotation marks.
pub open spec fn is_unquoted(s: Seq<char>) -> bool {
    forall|i: int| 0 <= i < s.len() ==> !is_quote(#[trigger] s[i])
}

proof fn lemma_unquoted(q: Option<char>, p: Seq<char>)
    requires
        is_unquoted(p),
        q matches Some(c) ==> is_quote(c),
    ensures
        quote_behind(q, p) == q,
    decreases p.len(),
{
    if p.len() > 0 {
        let front = p.drop_last();
        assert forall|i: int| 0 <= i < front.len() implies !is_quote(#[trigger] front[i]) by {
            assert(front[i] == p[i]);
        }
        lemma_unquoted(q, front);
        assert(!is_quote(p[p.len() - 1]));
    }
}

/// Whether a piece is one that no comma cuts and that leaves no quotation open.
spec fn is_whole(p: Seq<char>) -> bool {
    quote_behind(None, p) is None && forall|k: int|
        0 <= k < p.len() && #[trigger] p[k] == ',' ==> quote_behind(None, p.take(k)) is Some
}

proof fn lemma_plain_is_whole(p: Seq<char>)
    requires
        is_unquoted(p),
        !p.contains(','),
    ensures
        is_whole(p),
{
    lemma_unquoted(None, p);
    assert forall|k: int| 0 <= k < p.len() && #[trigger] p[k] == ',' implies quote_behind(
        None,
        p.take(k),
    ) is Some by {
        assert(p.contains(p[k]));
    }
}

proof fn lemma_quoted_is_whole(a: Seq<char>, t: Seq<char>, b: Seq<char>)
    requires
        is_unquoted(a),
        is_unquoted(t),
        is_unquoted(b),
        !a.contains(','),
        !b.contains(','),
    ensures
        is_whole(a + seq!['"'] + t + seq!['"'] + b),
{
    let mark = seq!['"'];
    let p = a + mark + t + mark + b;
    lemma_unquoted(None, a);
    lemma_quote_concat(None, a, mark);
    assert(mark.drop_last() =~= Seq::<char>::empty());
    assert(quote_behind(None, mark.drop_last()) is None);
    assert(quote_behind(None, mark) == Some('"'));
    lemma_quote_concat(None, a + mark, t);
    lemma_unquoted(Some('"'), t);
    lemma_quote_concat(None, a + mark + t, mark);
    assert(quote_behind(Some('"'), mark.drop_last()) == Some('"'));
    assert(quote_behind(Some('"'), mark) is None);
    lemma_quote_concat(None, a + mark + t + mark, b);
    lemma_unquoted(None, b);
    let n = a.len() as int;
    assert forall|k: int| 0 <= k < p.len() && #[trigger] p[k] == ',' implies quote_behind(
        None,
        p.take(k),
    ) is Some by {
        if k < n {
            assert(a.contains(a[k]));
        } else if k > n + t.len() + 1 {
            assert(b.contains(b[k - n - t.len() - 2]));
        } else {
            assert(n < k <= n + t.len());
            let part = t.take(k - n - 1);
            assert(p.take(k) =~= a + mark + part);
            lemma_quote_concat(None, a + mark, part);
            assert forall|i: int| 0 <= i < part.len() implies !is_quote(#[trigger] part[i]) by {
                assert(part[i] == t[i]);
            }
            lemma_unquoted(Some('"'), part);
        }
    }
}

proof fn lemma_uncut(s: Seq<char>, from: int, i: int, j: int)
    requires
        0 <= from <= i <= j <= s.len(),
        forall|k: int| i <= k < j ==> !#[trigger] cuts(s, k),
    ensures
        comma_pieces(s, from, i) == comma_pieces(s, from, j),
    decreases j - i,
{
    if i < j {
        assert(!cuts(s, i));
        lemma_uncut(s, from, i + 1, j);
    }
}

/// A whole piece behind what is closed is cut off at the comma that follows it, or at the end.
proof fn lemma_cut_piece(front: Seq<char>, p: Seq<char>, back: Seq<char>)
    requires
        is_whole(p),
        quote_behind(None, front) is None,
        back.len() == 0 || back[0] == ',',
    ensures
        back.len() == 0 ==> comma_pieces(front + p + back, front.len() as int, front.len() as int) == seq![p],
        back.len() > 0 ==> comma_pieces(front + p + back, front.len() as int, front.len() as int) == seq![p]
            + comma_pieces(
            front + p + back,
            (front.len() + p.len() + 1) as int,
            (front.len() + p.len() + 1) as int,
        ),
        quote_behind(None, front + p + seq![',']) is None,
{
    let s = front + p + back;
    let i = front.len() as int;
    let j = i + p.len();
    assert forall|k: int| i <= k < j implies !#[trigger] cuts(s, k) by {
        lemma_open_quote(s, k);
        assert(s.take(k) =~= front + p.take(k - i));
        lemma_quote_concat(None, front, p.take(k - i));
        assert(s[k] == p[k - i]);
    }
    lemma_uncut(s, i, i, j);
    lemma_open_quote(s, j);
    assert(s.take(j) =~= front + p);
    lemma_quote_concat(None, front, p);
    assert(s.subrange(i, j) =~= p);
    if back.len() > 0 {
        assert(s[j] == ',');
        assert(cuts(s, j));
    } else {
        assert(s.len() == j);
    }
    lemma_quote_concat(None, front + p, seq![',']);
    assert(seq![','].drop_last() =~= Seq::<char>::empty());
    assert(quote_behind(None, seq![','].drop_last()) is None);
}

/// Commas cut between whole pieces, and only there: three pieces with commas between them are cut into these
/// three.
proof fn lemma_three_pieces(p: Seq<char>, q: Seq<char>, r: Seq<char>)
    requires
        is_whole(p),
        is_whole(q),
        is_whole(r),
    ensures
        comma_pieces(p + seq![','] + q + seq![','] + r, 0, 0) == seq![p, q, r],
{
    let comma = seq![','];
    let s = p + comma + q + comma + r;
    let none = Seq::<char>::empty();
    let b1 = comma + q + comma + r;
    assert(none + p + b1 =~= s);
    lemma_cut_piece(none, p, b1);
    assert(none + p + comma =~= p + comma);
    let f2 = p + comma;
    let b2 = comma + r;
    assert(f2 + q + b2 =~= s);
    lemma_cut_piece(f2, q, b2);
    let f3 = f2 + q + comma;
    assert(f3 + r + none =~= s);
    lemma_cut_piece(f3, r, none);
    assert(comma_pieces(s, 0, 0) =~= seq![p, q, r]);
}

proof fn lemma_bared_tidy(s: Seq<char>, a: char, b: char)
    requires
        s.len() > 0 ==> s[0] != a && s[0] != b && s.last() != a && s.last() != b,
    ensures
        bared(s, a, b) == s,
{
}

proof fn lemma_bared_quoted(t: Seq<char>)
    requires
        is_unquoted(t),
    ensures
        bared(seq!['"'] + t + seq!['"'], '"', '\'') == t,
{
    let s = seq!['"'] + t + seq!['"'];
    let u = t + seq!['"'];
    assert(s.drop_first() =~= u);
    assert(s[0] == '"');
    assert(bared_start(s, '"', '\'') == bared_start(u, '"', '\''));
    if t.len() == 0 {
        assert(u =~= seq!['"']);
        assert(u.drop_first() =~= Seq::<char>::empty());
        assert(bared_start(u, '"', '\'') == bared_start(u.drop_first(), '"', '\''));
        assert(bared(s, '"', '\'') =~= t);
    } else {
        assert(!is_quote(t[0]));
        assert(u[0] == t[0]);
        assert(bared_start(u, '"', '\'') == u);
        assert(u.last() == '"');
        assert(u.drop_last() =~= t);
        assert(!is_quote(t[t.len() - 1]));
        assert(crate::text::bared_end(u, '"', '\'') == crate::text::bared_end(t, '"', '\''));
    }
}

/// A piece that writes a value under a key is read as that value under that key.
proof fn lemma_piece_is_read(key: Seq<char>, value: Seq<char>, meant: Seq<char>, piece: Seq<char>)
    requires
        piece == seq![' '] + key + seq![':'] + value,
        key.len() > 0,
        forall|i: int| 0 <= i < key.len() ==> 'a' <= #[trigger] key[i] <= 'z',
        bared(trimmed(value), '"', '\'') == meant,
    ensures
        piece_key(piece) == key,
        piece_value(piece) == meant,
        piece.contains(':'),
{
    crate::search::lemma_next_char(piece, ':', 0);
    let n = key.len() as int;
    assert(piece[n + 1] == ':');
    let i = next_char(piece, ':', 0);
    if i < n + 1 {
        if i > 0 {
            assert(piece[i] == key[i - 1]);
        }
    }
    assert(i == n + 1);
    let head = seq![' '] + key;
    assert(piece.take(i) =~= head);
    assert(piece.skip(i + 1) =~= value);
    assert(head.drop_first() =~= key);
    assert('a' <= key[0] <= 'z' && 'a' <= key[n - 1] <= 'z');
    assert(trimmed_start(head) == trimmed_start(key));
    assert(trimmed(head) == key);
    lemma_bared_tidy(key, '"', '"');
}

proof fn lemma_word_piece(key: Seq<char>, word: Seq<char>, piece: Seq<char>)
    requires
        key.len() > 0,
        forall|i: int| 0 <= i < key.len() ==> 'a' <= #[trigger] key[i] <= 'z',
        word.len() > 0,
        forall|i: int| 0 <= i < word.len() ==> 'a' <= #[trigger] word[i] <= 'z',
        piece == seq![' '] + key + seq![':'] + (seq![' '] + word),
    ensures
        is_whole(piece),
        piece_key(piece) == key,
        piece_value(piece) == word,
        piece.contains(':'),
{
    let n = key.len() as int;
    assert forall|i: int| 0 <= i < piece.len() implies !is_quote(#[trigger] piece[i]) && piece[i] != ',' by {
        if 0 < i <= n {
            assert(piece[i] == key[i - 1]);
        } else if i >= n + 3 {
            assert(piece[i] == word[i - n - 3]);
        }
    }
    lemma_plain_is_whole(piece);
    let v = seq![' '] + word;
    assert(v.drop_first() =~= word);
    assert('a' <= word[0] <= 'z' && 'a' <= word[word.len() - 1] <= 'z');
    assert(trimmed_start(v) == trimmed_start(word));
    assert(trimmed(v) == word);
    lemma_bared_tidy(word, '"', '\'');
    lemma_piece_is_read(key, v, word, piece);
}

proof fn lemma_quoted_piece(key: Seq<char>, text: Seq<char>, padded: bool, piece: Seq<char>)
    requires
        key.len() > 0,
        forall|i: int| 0 <= i < key.len() ==> 'a' <= #[trigger] key[i] <= 'z',
        is_unquoted(text),
        piece == seq![' '] + key + seq![':'] + (if padded {
            seq![' '] + seq!['"'] + text + seq!['"'] + seq![' ']
        } else {
            seq![' '] + seq!['"'] + text + seq!['"']
        }),
    ensures
        is_whole(piece),
        piece_key(piece) == key,
        piece_value(piece) == text,
        piece.contains(':'),
{
    let mark = seq!['"'];
    let a = seq![' '] + key + seq![':'] + seq![' '];
    let b = if padded {
        seq![' ']
    } else {
        Seq::<char>::empty()
    };
    let n = key.len() as int;
    assert forall|i: int| 0 <= i < a.len() implies !is_quote(#[trigger] a[i]) && a[i] != ',' by {
        if 0 < i <= n {
            assert(a[i] == key[i - 1]);
        }
    }
    assert(piece =~= a + mark + text + mark + b);
    lemma_quoted_is_whole(a, text, b);
    let u = mark + text + mark;
    let w = seq![' '] + u;
    let v = if padded {
        seq![' '] + mark + text + mark + seq![' ']
    } else {
        seq![' '] + mark + text + mark
    };
    assert(w.drop_first() =~= u);
    assert(u[0] == '"' && u.last() == '"');
    assert(trimmed_start(w) == trimmed_start(u));
    assert(trimmed(w) == u);
    if padded {
        assert(v =~= w + seq![' ']);
        crate::text::law_white_space_behind_does_not_count(w, ' ');
    } else {
        assert(v =~= w);
    }
    lemma_bared_quoted(text);
    lemma_piece_is_read(key, v, text, piece);
}

proof fn lemma_keyed_values(p: Seq<char>, q: Seq<char>, r: Seq<char>, key: Seq<char>)
    ensures
        piece_key(r) == key ==> keyed_value(seq![p, q, r], key) == Some(piece_value(r)),
        piece_key(r) != key && piece_key(q) == key ==> keyed_value(seq![p, q, r], key) == Some(
            piece_value(q),
        ),
        piece_key(r) != key && piece_key(q) != key && piece_key(p) == key ==> keyed_value(
            seq![p, q, r],
            key,
        ) == Some(piece_value(p)),
{
    let three = seq![p, q, r];
    let two = three.drop_last();
    let one = two.drop_last();
    assert(two =~= seq![p, q]);
    assert(one =~= seq![p]);
    assert(three.last() == r && two.last() == q && one.last() == p);
    assert(piece_key(r) != key ==> keyed_value(three, key) == keyed_value(two, key));
    assert(piece_key(q) != key ==> keyed_value(two, key) == keyed_value(one, key));
}

proof fn lemma_item_of_line(inner: Seq<char>)
    ensures
        ({
            let line = seq!['-', ' ', '{'] + inner + seq!['}'];
            let item = trimmed(bared_start(line, '-', '-'));
            &&& item.len() >= 2
            &&& has_prefix(item, "{"@)
            &&& has_suffix(item, "}"@)
            &&& item.subrange(1, item.len() - 1) == inner
        }),
{
    reveal_strlit("{");
    reveal_strlit("}");
    let line = seq!['-', ' ', '{'] + inner + seq!['}'];
    let item = seq!['{'] + inner + seq!['}'];
    let rest = seq![' '] + item;
    assert(line.drop_first() =~= rest);
    assert(line[0] == '-' && rest[0] == ' ');
    assert(bared_start(line, '-', '-') == bared_start(rest, '-', '-'));
    assert(bared_start(rest, '-', '-') == rest);
    assert(rest.drop_first() =~= item);
    assert(item[0] == '{' && item.last() == '}');
    assert(trimmed_start(rest) == trimmed_start(item));
    assert(trimmed(rest) == item);
    assert(item.subrange(0, 1) =~= "{"@);
    assert(item.subrange(item.len() - 1, item.len() as int) =~= "}"@);
    assert(item.subrange(1, item.len() - 1) =~= inner);
}

proof fn lemma_finding_keys()
    ensures
        "severity"@.len() == 8,
        "area"@.len() == 4,
        "note"@.len() == 4,
        "area"@ != "note"@,
        "severity"@ != "note"@,
        "severity"@ != "area"@,
        forall|i: int| 0 <= i < 8 ==> 'a' <= #[trigger] "severity"@[i] <= 'z',
        forall|i: int| 0 <= i < 4 ==> 'a' <= #[trigger] "area"@[i] <= 'z',
        forall|i: int| 0 <= i < 4 ==> 'a' <= #[trigger] "note"@[i] <= 'z',
{
    reveal_strlit("severity");
    reveal_strlit("area");
    reveal_strlit("note");
    assert("area"@[0] == 'a' && "note"@[0] == 'n');
}

proof fn lemma_read_pieces(line: Seq<char>, p: Seq<char>, q: Seq<char>, r: Seq<char>)
    requires
        ({
            let item = trimmed(bared_start(line, '-', '-'));
            &&& item.len() >= 2
            &&& has_prefix(item, "{"@)
            &&& has_suffix(item, "}"@)
            &&& comma_pieces(item.subrange(1, item.len() - 1), 0, 0) == seq![p, q, r]
        }),
        p.contains(':') && q.contains(':') && r.contains(':'),
        piece_key(p) == "severity"@,
        piece_key(q) == "area"@,
        piece_key(r) == "note"@,
    ensures
        finding_of(line) == Some(
            Remark { severity: piece_value(p), area: piece_value(q), note: piece_value(r) },
        ),
{
    lemma_finding_keys();
    lemma_keyed_values(p, q, r, "severity"@);
    lemma_keyed_values(p, q, r, "area"@);
    lemma_keyed_values(p, q, r, "note"@);
    let pieces = seq![p, q, r];
    assert forall|i: int| 0 <= i < pieces.len() implies (#[trigger] pieces[i]).contains(':') by {
        assert(i == 0 || i == 1 || i == 2);
    }
    assert(all_keyed(pieces));
}

/// How a finding is written.
pub open spec fn written_finding(severity: Seq<char>, area: Seq<char>, note: Seq<char>) -> Seq<char> {
    "- { severity: "@ + severity + ", area: \""@ + area + "\", note: \""@ + note + "\" }"@
}

/// A finding that is written as it should be is read as it was meant, with any commas and colons in its area
/// and its note: its severity is a word, and the other two hold no quotation marks.
pub proof fn law_written_findings_are_read(severity: Seq<char>, area: Seq<char>, note: Seq<char>)
    requires
        severity.len() > 0,
        forall|i: int| 0 <= i < severity.len() ==> 'a' <= #[trigger] severity[i] <= 'z',
        is_unquoted(area),
        is_unquoted(note),
    ensures
        finding_of(written_finding(severity, area, note)) == Some(Remark { severity, area, note }),
{
    lemma_finding_keys();
    let p0 = seq![' '] + "severity"@ + seq![':'] + (seq![' '] + severity);
    let p1 = seq![' '] + "area"@ + seq![':'] + (seq![' '] + seq!['"'] + area + seq!['"']);
    let p2 = seq![' '] + "note"@ + seq![':'] + (seq![' '] + seq!['"'] + note + seq!['"'] + seq![' ']);
    lemma_word_piece("severity"@, severity, p0);
    lemma_quoted_piece("area"@, area, false, p1);
    lemma_quoted_piece("note"@, note, true, p2);
    lemma_three_pieces(p0, p1, p2);
    let inner = p0 + seq![','] + p1 + seq![','] + p2;
    lemma_written_form(severity, area, note, inner);
    lemma_item_of_line(inner);
    lemma_read_pieces(written_finding(severity, area, note), p0, p1, p2);
}

proof fn lemma_written_form(severity: Seq<char>, area: Seq<char>, note: Seq<char>, inner: Seq<char>)
    requires
        inner == (seq![' '] + "severity"@ + seq![':'] + (seq![' '] + severity)) + seq![','] + (seq![' ']
            + "area"@ + seq![':'] + (seq![' '] + seq!['"'] + area + seq!['"'])) + seq![','] + (seq![' ']
            + "note"@ + seq![':'] + (seq![' '] + seq!['"'] + note + seq!['"'] + seq![' '])),
    ensures
        written_finding(severity, area, note) == seq!['-', ' ', '{'] + inner + seq!['}'],
{
    reveal_strlit("- { severity: ");
    reveal_strlit(", area: \"");
    reveal_strlit("\", note: \"");
    reveal_strlit("\" }");
    reveal_strlit("severity");
    reveal_strlit("area");
    reveal_strlit("note");
    let l0 = seq!['-', ' ', '{', ' '] + "severity"@ + seq![':', ' '];
    assert("- { severity: "@ =~= l0);
    let l1 = seq![',', ' '] + "area"@ + seq![':', ' ', '"'];
    assert(", area: \""@ =~= l1);
    let l2 = seq!['"', ',', ' '] + "note"@ + seq![':', ' ', '"'];
    assert("\", note: \""@ =~= l2);
    let l3 = seq!['"', ' ', '}'];
    assert("\" }"@ =~= l3);
    assert(l0 + severity + l1 + area + l2 + note + l3 =~= seq!['-', ' ', '{'] + inner + seq!['}']);
}

proof fn lemma_unclear_line(ls: Seq<Seq<char>>, i: int)
    requires
        0 <= i < ls.len(),
        has_prefix(trimmed(ls[i]), "applied_changes:"@),
        truth(trimmed(trimmed(ls[i]).skip("applied_changes:"@.len() as int))) is None,
    ensures
        !answers_clearly(ls),
    decreases ls.len(),
{
    if i < ls.len() - 1 {
        assert(ls.drop_last()[i] == ls[i]);
        lemma_unclear_line(ls.drop_last(), i);
    } else {
        assert(ls.last() == ls[i]);
    }
}

/// A block is a review only if it says its opinion, the changes, and plainly whether they were made: one line
/// that says that unclearly spoils it, and so does each of the three that is missing.
pub proof fn law_reviews_need_three_clear_lines(ls: Seq<Seq<char>>, i: int)
    ensures
        line_value(ls, "summary:"@) is None ==> !is_review_block(ls),
        line_value(ls, "changes_summary:"@) is None ==> !is_review_block(ls),
        line_value(ls, "applied_changes:"@) is None ==> !is_review_block(ls),
        0 <= i < ls.len() && has_prefix(trimmed(ls[i]), "applied_changes:"@) && truth(
            trimmed(trimmed(ls[i]).skip("applied_changes:"@.len() as int)),
        ) is None ==> !is_review_block(ls),
{
    if 0 <= i < ls.len() && has_prefix(trimmed(ls[i]), "applied_changes:"@) && truth(
        trimmed(trimmed(ls[i]).skip("applied_changes:"@.len() as int)),
    ) is None {
        lemma_unclear_line(ls, i);
    }
}

} // verus!
