//! Which plan ids are safe: those whose file stays in the directory of the plans.

use vstd::prelude::*;
use vstd::string::*;

use crate::plan_runtime::mode::PlanRuntimeError;
use crate::search::contains;
#[allow(unused_imports)]
use crate::search::{has_text, stands_at};
use crate::text::{cat, chars_of, is_white};
#[allow(unused_imports)]
use crate::text::white;

verus! {

/// The control characters: the Unicode category `Cc`.
pub open spec fn control(c: char) -> bool {
    let n = c as u32;
    n <= 0x1f || 0x7f <= n <= 0x9f
}

/// Whether `c` is a control character.
pub fn is_control(c: char) -> (r: bool)
    ensures
        r == control(c),
{
    let n: u32 = c as u32;
    n <= 0x1f || (0x7f <= n && n <= 0x9f)
}

/// How a text is written for a programmer, in quotes and with escapes.
pub uninterp spec fn quoted_text(s: Seq<char>) -> Seq<char>;

/// The `Debug` form of a `str`: which text it is depends on the string alone.
#[verifier::external_body]
pub(crate) fn quote_text(s: &str) -> (r: String)
    ensures
        r@ == quoted_text(s@),
{
    format!("{:?}", s)
}

/// Characters that lead out of a directory or hide in a name.
pub open spec fn forbidden(c: char) -> bool {
    c == '/' || c == '\\' || control(c) || white(c)
}

/// The characters that a plan id is made of.
pub open spec fn plain(c: char) -> bool {
    'a' <= c <= 'z' || '0' <= c <= '9' || c == '_' || c == '-'
}

/// Whether a plan id is safe.
pub open spec fn is_safe(id: Seq<char>) -> bool {
    id.len() > 0 && forall|i: int| 0 <= i < id.len() ==> plain(#[trigger] id[i])
}

/// Whether an id holds a forbidden character, or steps up out of a directory.
pub open spec fn leads_out(id: Seq<char>) -> bool {
    has_text(id, ".."@) || exists|i: int| 0 <= i < id.len() && forbidden(#[trigger] id[i])
}

/// Whether an id holds a character that is not ASCII.
pub open spec fn is_foreign(id: Seq<char>) -> bool {
    exists|i: int| 0 <= i < id.len() && (#[trigger] id[i]) as u32 > 0x7f
}

/// What is wrong with a plan id that is not safe.
pub open spec fn complaint(id: Seq<char>) -> Seq<char> {
    if id.len() == 0 {
        "empty"@
    } else if leads_out(id) {
        "forbidden char(s)"@
    } else if is_foreign(id) {
        "non-ascii"@
    } else {
        "non-[a-z0-9_-] chars in "@ + quoted_text(id)
    }
}

/// A safe id holds nothing that leads out of a directory: no separator, no `..`, no character
/// that hides.
pub proof fn law_safe_ids_stay_inside(id: Seq<char>)
    requires
        is_safe(id),
    ensures
        !id.contains('/'),
        !id.contains('\\'),
        !has_text(id, ".."@),
        !leads_out(id),
        !is_foreign(id),
        forall|i: int| 0 <= i < id.len() ==> !control(#[trigger] id[i]) && !white(id[i]),
{
    reveal_strlit("..");
    assert forall|i: int| 0 <= i < id.len() implies !forbidden(#[trigger] id[i]) && id[i] != '.' by {
        assert(plain(id[i]));
    }
    if has_text(id, ".."@) {
        let i = choose|i: int| stands_at(id, ".."@, i);
        assert(id.subrange(i, i + 2)[0] == id[i]);
        assert(".."@[0] == '.');
    }
    if id.contains('/') {
        let i = choose|i: int| 0 <= i < id.len() && id[i] == '/';
        assert(!forbidden(id[i]));
    }
    if id.contains('\\') {
        let i = choose|i: int| 0 <= i < id.len() && id[i] == '\\';
        assert(!forbidden(id[i]));
    }
}

/// Whether a plan id is safe, and if not, what is wrong with it.
pub fn assert_plan_id_safe(plan_id: &str) -> (r: Result<(), PlanRuntimeError>)
    ensures
        match r {
            Ok(_) => is_safe(plan_id@),
            Err(e) => !is_safe(plan_id@) && (e matches PlanRuntimeError::UnsafePlanId(m) && m@
                == complaint(plan_id@)),
        },
{
    let v = chars_of(plan_id);
    if v.len() == 0 {
        return Err(PlanRuntimeError::UnsafePlanId("empty".to_owned()));
    }
    let ghost id = plan_id@;
    let mut ascii = true;
    let mut all_plain = true;
    let mut i: usize = 0;
    while i < v.len()
        invariant
            i <= v@.len(),
            v@.len() > 0,
            v@ == id,
            id == plan_id@,
            forall|j: int| 0 <= j < i ==> !forbidden(#[trigger] id[j]),
            ascii == (forall|j: int| 0 <= j < i ==> (#[trigger] id[j]) as u32 <= 0x7f),
            all_plain == (forall|j: int| 0 <= j < i ==> plain(#[trigger] id[j])),
        decreases v@.len() - i,
    {
        let c = v[i];
        if c == '/' || c == '\\' || is_control(c) || is_white(c) {
            assert(forbidden(id[i as int]) && !plain(id[i as int]));
            return Err(PlanRuntimeError::UnsafePlanId("forbidden char(s)".to_owned()));
        }
        if c as u32 > 0x7f {
            assert(id[i as int] as u32 > 0x7f);
            ascii = false;
        }
        if !(('a' <= c && c <= 'z') || ('0' <= c && c <= '9') || c == '_' || c == '-') {
            assert(!plain(id[i as int]));
            all_plain = false;
        }
        i = i + 1;
    }
    if contains(plan_id, "..") {
        proof {
            if is_safe(id) {
                law_safe_ids_stay_inside(id);
            }
        }
        return Err(PlanRuntimeError::UnsafePlanId("forbidden char(s)".to_owned()));
    }
    if all_plain {
        return Ok(());
    }
    if !ascii {
        return Err(PlanRuntimeError::UnsafePlanId("non-ascii".to_owned()));
    }
    Err(
        PlanRuntimeError::UnsafePlanId(
            cat("non-[a-z0-9_-] chars in ", quote_text(plan_id).as_str()),
        ),
    )
}

/// The last look at a plan id before it becomes the name of a file.
pub fn assert_plan_id_safe_for_disk(plan_id: &str) -> (r: Result<(), PlanRuntimeError>)
    ensures
        match r {
            Ok(_) => is_safe(plan_id@),
            Err(e) => !is_safe(plan_id@) && (e matches PlanRuntimeError::UnsafePlanId(m) && m@
                == complaint(plan_id@)),
        },
{
    assert_plan_id_safe(plan_id)
}

/// An id is safe exactly if it is made of small letters, digits, dashes and underscores, at least one.
pub proof fn law_what_a_safe_id_is_made_of(id: Seq<char>)
    ensures
        is_safe(id) <==> id.len() > 0 && forall|i: int|
            0 <= i < id.len() ==> ('a' <= #[trigger] id[i] <= 'z') || ('0' <= id[i] <= '9') || id[i]
                == '-' || id[i] == '_',
{
    if is_safe(id) {
        assert forall|i: int| 0 <= i < id.len() implies ('a' <= #[trigger] id[i] <= 'z') || ('0' <= id[i]
            <= '9') || id[i] == '-' || id[i] == '_' by {
            assert(plain(id[i]));
        }
    }
}

/// What is said of an unsafe id depends on the worst in it: what leads out of a directory or hides comes
/// first, then what is not ASCII, and then the rest, which is quoted.
pub proof fn law_complaints_name_the_worst(id: Seq<char>, i: int)
    requires
        0 <= i < id.len(),
    ensures
        id[i] == '/' || id[i] == '\\' || white(id[i]) || id[i] as u32 <= 0x1f || 0x7f <= id[i] as u32
            <= 0x9f ==> complaint(id) == "forbidden char(s)"@,
        has_text(id, ".."@) ==> complaint(id) == "forbidden char(s)"@,
        id[i] as u32 > 0x7f && !leads_out(id) ==> complaint(id) == "non-ascii"@,
        !leads_out(id) && !is_foreign(id) ==> complaint(id) == "non-[a-z0-9_-] chars in "@
            + quoted_text(id),
        complaint(Seq::empty()) == "empty"@,
{
    if id[i] == '/' || id[i] == '\\' || white(id[i]) || id[i] as u32 <= 0x1f || 0x7f <= id[i] as u32
        <= 0x9f {
        assert(forbidden(id[i]));
    }
    if id[i] as u32 > 0x7f {
        assert(is_foreign(id));
    }
}

} // verus!
