//! The label that tells the model which mode a user's message was written in.

use vstd::prelude::*;
use vstd::string::*;

use crate::plan_runtime::mode::PlanMode;
use crate::search::{ends_with, find_char, starts_with};
#[allow(unused_imports)]
use crate::search::{has_prefix, has_suffix, lemma_next_char, next_char};
use crate::text::{cat3, chars_of, slice_text};
#[allow(unused_imports)]
use crate::text::opt_str;

verus! {

/// The label of a mode: none outside planning and executing. `plan_path` is the path of the plan
/// as it is shown.
pub open spec fn prefix(mode: PlanMode, plan_path: Option<Seq<char>>) -> Seq<char> {
    match mode {
        PlanMode::Planning => match plan_path {
            Some(p) => "[mode: PLAN plan_path="@ + p + "]\n"@,
            None => "[mode: PLAN]\n"@,
        },
        PlanMode::Executing { plan_id } => match plan_path {
            Some(p) => "[mode: EXEC plan_id="@ + plan_id@ + " plan_path="@ + p + "]\n"@,
            None => "[mode: EXEC plan_id="@ + plan_id@ + "]\n"@,
        },
        _ => ""@,
    }
}

/// The label of a mode.
pub fn user_prefix_for_mode(mode: &PlanMode, plan_path: Option<&str>) -> (r: String)
    ensures
        r@ == prefix(*mode, opt_str(plan_path)),
{
    match mode {
        PlanMode::Planning => match plan_path {
            Some(p) => cat3("[mode: PLAN plan_path=", p, "]\n"),
            None => "[mode: PLAN]\n".to_owned(),
        },
        PlanMode::Executing { plan_id } => match plan_path {
            Some(p) => {
                let mut s = cat3("[mode: EXEC plan_id=", plan_id.as_str(), " plan_path=");
                s.append(p);
                s.append("]\n");
                s
            },
            None => cat3("[mode: EXEC plan_id=", plan_id.as_str(), "]\n"),
        },
        _ => "".to_owned(),
    }
}

/// `text` without a label in its first line: a line that starts with `[mode:`, ends with `]` and
/// is closed by a line feed.
pub open spec fn stripped(text: Seq<char>) -> Seq<char> {
    let eol = next_char(text, '\n', 0);
    if has_prefix(text, "[mode:"@) && 0 <= eol < text.len() && has_suffix(text.take(eol), "]"@) {
        text.skip(eol + 1)
    } else {
        text
    }
}

/// `text` without a label in its first line.
pub fn strip_user_prefix(text: &str) -> (r: String)
    ensures
        r@ == stripped(text@),
{
    if !starts_with(text, "[mode:") {
        return text.to_owned();
    }
    let v = chars_of(text);
    let eol = find_char(&v, '\n', 0);
    if eol < v.len() {
        let head = slice_text(&v, 0, eol);
        assert(head@ =~= text@.take(eol as int));
        if ends_with(head.as_str(), "]") {
            let r = slice_text(&v, eol + 1, v.len());
            assert(r@ =~= text@.skip(eol + 1));
            return r;
        }
    }
    text.to_owned()
}

/// Stripping takes off what the label put on: the text of a message comes back from under its
/// label, as long as the plan's id and path hold no line feed.
pub proof fn law_strip_undoes_prefix(mode: PlanMode, plan_path: Option<Seq<char>>, text: Seq<char>)
    requires
        mode is Planning || mode is Executing,
        mode matches PlanMode::Executing { plan_id } ==> !plan_id@.contains('\n'),
        plan_path matches Some(p) ==> !p.contains('\n'),
    ensures
        stripped(prefix(mode, plan_path) + text) == text,
{
    reveal_strlit("[mode: PLAN plan_path=");
    reveal_strlit("[mode: PLAN]\n");
    reveal_strlit("[mode: EXEC plan_id=");
    reveal_strlit(" plan_path=");
    reveal_strlit("]\n");
    reveal_strlit("[mode:");
    reveal_strlit("]");
    let label = prefix(mode, plan_path);
    let whole = label + text;
    let n = label.len();
    assert(label[n - 1] == '\n' && label[n - 2] == ']');
    assert forall|i: int| 0 <= i < n - 1 implies label[i] != '\n' by {
        match mode {
            PlanMode::Planning => match plan_path {
                Some(p) => {
                    let a = "[mode: PLAN plan_path="@.len() as int;
                    if a <= i < a + p.len() {
                        assert(label[i] == p[i - a]);
                        assert(p.contains(p[i - a]));
                    }
                },
                None => {},
            },
            PlanMode::Executing { plan_id } => {
                let a = "[mode: EXEC plan_id="@.len() as int;
                let id = plan_id@;
                if a <= i < a + id.len() {
                    assert(label[i] == id[i - a]);
                    assert(id.contains(id[i - a]));
                }
                match plan_path {
                    Some(p) => {
                        let b = a + id.len() + " plan_path="@.len();
                        if b <= i < b + p.len() {
                            assert(label[i] == p[i - b]);
                            assert(p.contains(p[i - b]));
                        }
                    },
                    None => {},
                }
            },
            _ => {},
        }
    }
    lemma_next_char(whole, '\n', 0);
    let eol = next_char(whole, '\n', 0);
    assert(eol == n - 1) by {
        assert(whole[n - 1] == '\n');
        if eol < n - 1 {
            assert(whole[eol] == label[eol]);
        }
    }
    assert(whole.subrange(0, 6) =~= "[mode:"@) by {
        assert forall|i: int| 0 <= i < 6 implies whole[i] == "[mode:"@[i] by {
            assert(whole[i] == label[i]);
        }
    }
    let head = whole.take(eol);
    assert(head.subrange(head.len() - 1, head.len() as int) =~= "]"@) by {
        assert(head[head.len() - 1] == label[n - 2]);
    }
    assert(whole.skip(eol + 1) =~= text);
}

/// A text that does not start like a label is left alone.
pub proof fn law_strip_leaves_other_text(text: Seq<char>)
    requires
        !has_prefix(text, "[mode:"@),
    ensures
        stripped(text) == text,
{
}

/// Only planning and working put a label before a message; the label of a plan that is worked on names the
/// plan, and a label that knows the plan's file names it.
#[verifier::rlimit(40)]
#[verifier::spinoff_prover]
pub proof fn law_labels_name_the_plan(mode: PlanMode, plan_path: Option<Seq<char>>)
    ensures
        !(mode is Planning) && !(mode is Executing) ==> prefix(mode, plan_path).len() == 0,
        mode matches PlanMode::Executing { plan_id } ==> crate::search::has_text(
            prefix(mode, plan_path),
            plan_id@,
        ),
        mode is Planning || mode is Executing ==> (plan_path matches Some(p) ==> crate::search::has_text(
            prefix(mode, plan_path),
            p,
        )),
{
    reveal_strlit("");
    let whole = prefix(mode, plan_path);
    if let Some(p) = plan_path {
        crate::search::lemma_text_in_itself(p);
        if mode is Planning {
            crate::search::lemma_text_within("[mode: PLAN plan_path="@, p, "]\n"@, p);
        }
    }
    if let PlanMode::Executing { plan_id } = mode {
        let id = plan_id@;
        crate::search::lemma_text_in_itself(id);
        match plan_path {
            Some(p) => {
                let front = "[mode: EXEC plan_id="@ + id + " plan_path="@;
                crate::search::lemma_text_within(front, p, "]\n"@, p);
                let back = " plan_path="@ + p + "]\n"@;
                crate::search::lemma_text_within("[mode: EXEC plan_id="@, id, back, id);
                assert(whole =~= "[mode: EXEC plan_id="@ + id + back);
            },
            None => {
                crate::search::lemma_text_within("[mode: EXEC plan_id="@, id, "]\n"@, id);
            },
        }
    }
}

} // verus!
