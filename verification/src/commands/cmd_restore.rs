//! `/restore`: which paths a restore takes back, and whose work that touches.

use vstd::prelude::*;
use vstd::string::*;

use crate::commands::cmd_ckpt::CheckpointMeta;
use crate::order::sorting_order;
#[allow(unused_imports)]
use crate::order::{goes_before, is_arrangement, sorts};
use crate::paths::{components, paths_equal, PathKey};
#[allow(unused_imports)]
use crate::paths::{lemma_parts_le_antisymmetric, parts, parts_le, parts_view, same_path};
use crate::search::join;
#[allow(unused_imports)]
use crate::search::joined;
use crate::text::{cat, cat3, cat4, copy_texts, one_text, push_text, same, trim};
#[allow(unused_imports)]
use crate::text::{opt_text, texts, trimmed};

verus! {

// ---------------------------------------------------------------- which paths

/// The texts that are not blank.
pub open spec fn not_blank(all: Seq<Seq<char>>) -> Seq<Seq<char>>
    decreases all.len(),
{
    if all.len() == 0 {
        Seq::empty()
    } else {
        let rest = not_blank(all.drop_last());
        if trimmed(all.last()).len() == 0 {
            rest
        } else {
            rest.push(all.last())
        }
    }
}

/// The paths that a checkpoint's notes name as changed: the strings that are not blank.
pub fn checkpoint_note_paths(noted: &Vec<String>) -> (r: Vec<String>)
    ensures
        texts(r@) == not_blank(texts(noted@)),
{
    let ghost all = texts(noted@);
    let mut out: Vec<String> = Vec::new();
    let mut i: usize = 0;
    assert(texts(out@) =~= not_blank(all.take(0)));
    while i < noted.len()
        invariant
            i <= noted@.len(),
            all == texts(noted@),
            texts(out@) == not_blank(all.take(i as int)),
        decreases noted@.len() - i,
    {
        assert(all.take(i + 1).drop_last() =~= all.take(i as int));
        let t = trim(noted[i].as_str());
        if !t.as_str().is_empty() {
            push_text(&mut out, noted[i].clone());
        }
        i = i + 1;
    }
    assert(all.take(all.len() as int) =~= all);
    out
}

/// The paths that a restore takes back, and what to warn of; no paths stand for the whole tree.
#[derive(Clone, Debug, PartialEq, Eq)]
pub struct RestorePathPlan {
    pub paths: Vec<String>,
    pub warning: Option<String>,
}

/// The plan that the paths on the command line or else in the notes give, if there are any.
pub open spec fn named_paths(requested: Seq<Seq<char>>, noted: Seq<Seq<char>>) -> Option<
    Seq<Seq<char>>,
> {
    if requested.len() > 0 {
        Some(requested)
    } else if not_blank(noted).len() > 0 {
        Some(not_blank(noted))
    } else {
        None
    }
}

/// The plan that the paths in the difference from the checkpoint give.
pub open spec fn is_diff_plan(diff: Result<Vec<String>, String>, r: RestorePathPlan) -> bool {
    match diff {
        Ok(changed) => if changed@.len() > 0 {
            texts(r.paths@) == texts(changed@) && r.warning is None
        } else {
            r.paths@.len() == 0 && opt_text(r.warning) == Some(
                "无法自动收窄 restore 路径，将继续执行整树 restore。"@,
            )
        },
        Err(e) => r.paths@.len() == 0 && opt_text(r.warning) == Some(
            "无法自动收窄 restore 路径（读取 checkpoint diff 失败："@ + e@
                + "），将继续执行整树 restore。"@,
        ),
    }
}

/// The plan that the paths on the command line or else in the notes give, if there are any.
pub fn plan_without_diff(requested: &Vec<String>, noted: &Vec<String>) -> (r: Option<RestorePathPlan>)
    ensures
        match named_paths(texts(requested@), texts(noted@)) {
            Some(p) => r matches Some(plan) && texts(plan.paths@) == p && plan.warning is None,
            None => r is None,
        },
{
    assert(texts(requested@).len() == requested@.len());
    if requested.len() > 0 {
        return Some(RestorePathPlan { paths: copy_texts(requested), warning: None });
    }
    let paths = checkpoint_note_paths(noted);
    assert(texts(paths@).len() == paths@.len());
    if paths.len() > 0 {
        return Some(RestorePathPlan { paths, warning: None });
    }
    None
}

/// The plan that the paths in the difference from the checkpoint give.
pub fn plan_from_diff(diff: &Result<Vec<String>, String>) -> (r: RestorePathPlan)
    ensures
        is_diff_plan(*diff, r),
{
    match diff {
        Ok(changed) => if changed.len() > 0 {
            RestorePathPlan { paths: copy_texts(changed), warning: None }
        } else {
            RestorePathPlan {
                paths: Vec::new(),
                warning: Some("无法自动收窄 restore 路径，将继续执行整树 restore。".to_owned()),
            }
        },
        Err(e) => RestorePathPlan {
            paths: Vec::new(),
            warning: Some(
                cat3(
                    "无法自动收窄 restore 路径（读取 checkpoint diff 失败：",
                    e.as_str(),
                    "），将继续执行整树 restore。",
                ),
            ),
        },
    }
}

/// The paths that a restore takes back: those asked for, else those in the checkpoint's notes,
/// else those in the difference from the checkpoint, else the whole tree with a warning.
pub fn effective_restore_paths(
    meta: &CheckpointMeta,
    requested: &Vec<String>,
    diff: &Result<Vec<String>, String>,
) -> (r: RestorePathPlan)
    ensures
        match named_paths(texts(requested@), texts(meta.noted_paths@)) {
            Some(p) => texts(r.paths@) == p && r.warning is None,
            None => is_diff_plan(*diff, r),
        },
{
    match plan_without_diff(requested, &meta.noted_paths) {
        Some(plan) => plan,
        None => plan_from_diff(diff),
    }
}

// ---------------------------------------------------------------- other sessions

/// Another session: the strings that the notes of each of its checkpoints list as changed paths,
/// unless its checkpoints could not be listed.
#[derive(Clone, Debug, PartialEq, Eq)]
pub struct SessionCheckpoints {
    pub session_id: String,
    pub noted_paths: Option<Vec<Vec<String>>>,
}

/// The paths that another session changed and a restore would take back.
#[derive(Clone, Debug, PartialEq, Eq)]
pub struct RestoreConflict {
    pub session_id: String,
    pub paths: Vec<String>,
}

/// Whether a restore of `restore` takes back the path `p`.
pub open spec fn is_restored(restore: Seq<Seq<char>>, p: Seq<char>) -> bool {
    exists|i: int| 0 <= i < restore.len() && same_path(#[trigger] restore[i], p)
}

/// Whether `p` is a path that the notes of one of the checkpoints name and the restore takes back.
pub open spec fn overlaps(noted: Seq<Vec<String>>, restore: Seq<Seq<char>>, p: Seq<char>) -> bool {
    &&& is_restored(restore, p)
    &&& trimmed(p).len() > 0
    &&& exists|c: int| 0 <= c < noted.len() && texts(#[trigger] noted[c]@).contains(p)
}

/// Whether `r` lists the overlapping paths: in the order of paths, each path once.
pub open spec fn lists_overlaps(
    noted: Seq<Vec<String>>,
    restore: Seq<Seq<char>>,
    r: Seq<Seq<char>>,
) -> bool {
    &&& forall|i: int| 0 <= i < r.len() ==> overlaps(noted, restore, #[trigger] r[i])
    &&& forall|p: Seq<char>| #[trigger]
        overlaps(noted, restore, p) ==> exists|i: int| 0 <= i < r.len() && same_path(#[trigger] r[i], p)
    &&& forall|i: int, j: int|
        0 <= i < j < r.len() ==> parts_le(parts(#[trigger] r[i]), parts(#[trigger] r[j]))
            && !same_path(r[i], r[j])
}

fn is_in(restore: &Vec<String>, p: &str) -> (r: bool)
    ensures
        r == is_restored(texts(restore@), p@),
{
    let mut i: usize = 0;
    while i < restore.len()
        invariant
            i <= restore@.len(),
            forall|j: int| 0 <= j < i ==> !same_path(#[trigger] texts(restore@)[j], p@),
        decreases restore@.len() - i,
    {
        assert(texts(restore@)[i as int] == restore@[i as int]@);
        if paths_equal(restore[i].as_str(), p) {
            return true;
        }
        i = i + 1;
    }
    false
}

/// The places of one list of noted paths that overlap the restore.
fn add_overlaps(
    out: &mut Vec<String>,
    list: &Vec<String>,
    restore: &Vec<String>,
    noted: Ghost<Seq<Vec<String>>>,
    c: usize,
)
    requires
        c < noted@.len(),
        noted@[c as int] == list,
        forall|p: Seq<char>| #[trigger]
            texts(old(out)@).contains(p) <==> overlaps(noted@.take(c as int), texts(restore@), p),
    ensures
        forall|p: Seq<char>| #[trigger]
            texts(final(out)@).contains(p) <==> overlaps(
                noted@.take(c + 1),
                texts(restore@),
                p,
            ),
{
    let ghost before = texts(out@);
    let ghost all = texts(list@);
    let ghost target = texts(restore@);
    let mut i: usize = 0;
    while i < list.len()
        invariant
            i <= list@.len(),
            all == texts(list@),
            target == texts(restore@),
            forall|p: Seq<char>| #[trigger]
                texts(out@).contains(p) <==> before.contains(p) || (all.take(i as int).contains(p)
                    && trimmed(p).len() > 0 && is_restored(target, p)),
        decreases list@.len() - i,
    {
        let s = list[i].as_str();
        assert(all[i as int] == s@);
        let t = trim(s);
        let ghost kept = texts(out@);
        let ghost seen = all.take(i as int);
        assert(all.take(i + 1) =~= seen.push(s@));
        let wanted = !t.as_str().is_empty() && is_in(restore, s);
        if wanted {
            push_text(out, s.to_owned());
        }
        proof {
            assert forall|p: Seq<char>| #[trigger]
                texts(out@).contains(p) <==> before.contains(p) || (all.take(i + 1).contains(p)
                    && trimmed(p).len() > 0 && is_restored(target, p)) by {
                lemma_push_contains(seen, s@, p);
                lemma_push_contains(kept, s@, p);
                assert(kept.contains(p) <==> before.contains(p) || (seen.contains(p) && trimmed(
                    p,
                ).len() > 0 && is_restored(target, p)));
            }
        }
        i = i + 1;
    }
    proof {
        assert(all.take(all.len() as int) =~= all);
        assert forall|p: Seq<char>| #[trigger]
            texts(out@).contains(p) <==> overlaps(noted@.take(c + 1), target, p) by {
            let fewer = noted@.take(c as int);
            let more = noted@.take(c + 1);
            assert(before.contains(p) <==> overlaps(fewer, target, p));
            if overlaps(fewer, target, p) {
                let k = choose|k: int| 0 <= k < fewer.len() && texts(#[trigger] fewer[k]@).contains(p);
                assert(more[k] == fewer[k]);
                assert(overlaps(more, target, p));
            }
            if all.contains(p) {
                assert(more[c as int]@ == list@);
                assert(texts(more[c as int]@).contains(p));
            }
            if overlaps(more, target, p) {
                let k = choose|k: int| 0 <= k < more.len() && texts(#[trigger] more[k]@).contains(p);
                if k < c {
                    assert(more[k] == fewer[k]);
                    assert(texts(fewer[k]@).contains(p));
                } else {
                    assert(more[k]@ == list@);
                }
            }
        }
    }
}

proof fn lemma_push_contains(s: Seq<Seq<char>>, x: Seq<char>, p: Seq<char>)
    ensures
        s.push(x).contains(p) <==> s.contains(p) || p == x,
{
    if s.contains(p) {
        let i = choose|i: int| 0 <= i < s.len() && s[i] == p;
        assert(s.push(x)[i] == p);
    }
    if p == x {
        assert(s.push(x)[s.len() as int] == p);
    }
    if s.push(x).contains(p) {
        let i = choose|i: int| 0 <= i < s.push(x).len() && s.push(x)[i] == p;
        if i < s.len() {
            assert(s[i] == p);
        }
    }
}

/// All noted paths that overlap the restore, as often as they are noted.
fn collect_overlaps(noted: &Vec<Vec<String>>, restore: &Vec<String>) -> (r: Vec<String>)
    ensures
        forall|p: Seq<char>| #[trigger]
            texts(r@).contains(p) <==> overlaps(noted@, texts(restore@), p),
{
    let mut out: Vec<String> = Vec::new();
    let mut c: usize = 0;
    while c < noted.len()
        invariant
            c <= noted@.len(),
            forall|p: Seq<char>| #[trigger]
                texts(out@).contains(p) <==> overlaps(noted@.take(c as int), texts(restore@), p),
        decreases noted@.len() - c,
    {
        add_overlaps(&mut out, &noted[c], restore, Ghost(noted@), c);
        c = c + 1;
    }
    assert(noted@.take(noted@.len() as int) =~= noted@);
    out
}

/// The overlapping paths, in order, each once.
fn overlapping_paths(noted: &Vec<Vec<String>>, restore: &Vec<String>) -> (r: Vec<String>)
    ensures
        lists_overlaps(noted@, texts(restore@), texts(r@)),
{
    let all = collect_overlaps(noted, restore);
    let ghost found = texts(all@);
    let ghost target = texts(restore@);
    let mut keys: Vec<PathKey> = Vec::new();
    let mut k: usize = 0;
    while k < all.len()
        invariant
            k <= all@.len(),
            found == texts(all@),
            keys@.len() == k,
            forall|i: int| 0 <= i < k ==> parts_view((#[trigger] keys@[i]).components@) == parts(found[i]),
        decreases all@.len() - k,
    {
        assert(found[k as int] == all@[k as int]@);
        keys.push(PathKey { components: components(all[k].as_str()) });
        k = k + 1;
    }
    let p = sorting_order(&keys);
    let mut out: Vec<String> = Vec::new();
    let mut n: usize = 0;
    assert(texts(out@) =~= Seq::empty());
    while n < p.len()
        invariant
            n <= p@.len(),
            p@.len() == all@.len(),
            found == texts(all@),
            keys@.len() == all@.len(),
            sorts(keys@, p@),
            forall|i: int| 0 <= i < keys@.len() ==> parts_view((#[trigger] keys@[i]).components@) == parts(found[i]),
            forall|i: int| 0 <= i < out@.len() ==> found.contains(#[trigger] texts(out@)[i]),
            forall|m: int| 0 <= m < n ==> exists|i: int|
                0 <= i < out@.len() && same_path(#[trigger] texts(out@)[i], found[#[trigger] p@[m] as int]),
            n == 0 ==> out@.len() == 0,
            n > 0 ==> out@.len() > 0 && same_path(texts(out@).last(), found[p@[n - 1] as int]),
            forall|i: int, j: int|
                0 <= i < j < out@.len() ==> parts_le(parts(#[trigger] texts(out@)[i]), parts(#[trigger] texts(out@)[j]))
                    && !same_path(texts(out@)[i], texts(out@)[j]),
        decreases p@.len() - n,
    {
        let s = all[p[n]].as_str();
        assert(found[p@[n as int] as int] == s@);
        let ghost before = texts(out@);
        let repeated = if out.len() > 0 {
            assert(before.last() == out@[out@.len() - 1]@);
            paths_equal(out[out.len() - 1].as_str(), s)
        } else {
            false
        };
        if !repeated {
            push_text(&mut out, s.to_owned());
        }
        proof {
            let now = texts(out@);
            assert(now.len() == out@.len());
            if n > 0 {
                assert(goes_before(keys@, p@[n - 1] as int, p@[n as int] as int));
                assert(parts_le(parts(found[p@[n - 1] as int]), parts(s@)));
                assert(parts(before.last()) == parts(found[p@[n - 1] as int]));
            }
            if !repeated {
                assert(now =~= before.push(s@));
                assert(found.contains(s@)) by {
                    assert(found[p@[n as int] as int] == s@);
                }
                assert forall|m: int| 0 <= m < n + 1 implies exists|i: int|
                    0 <= i < out@.len() && same_path(#[trigger] now[i], found[#[trigger] p@[m] as int]) by {
                    if m == n {
                        assert(same_path(now[before.len() as int], found[p@[m] as int]));
                    } else {
                        let i = choose|i: int| 0 <= i < before.len() && same_path(#[trigger] before[i], found[p@[m] as int]);
                        assert(now[i] == before[i]);
                    }
                }
                assert forall|i: int, j: int| 0 <= i < j < out@.len() implies parts_le(
                    parts(#[trigger] now[i]),
                    parts(#[trigger] now[j]),
                ) && !same_path(now[i], now[j]) by {
                    assert(now[i] == before[i]);
                    if j < before.len() {
                        assert(now[j] == before[j]);
                    } else {
                        let last = before.len() - 1;
                        if i < last {
                            assert(parts_le(parts(before[i]), parts(before[last])));
                            lemma_path_keys_chain(parts(before[i]), parts(before[last]), parts(s@));
                        }
                    }
                }
            } else {
                assert(now =~= before);
                assert forall|m: int| 0 <= m < n + 1 implies exists|i: int|
                    0 <= i < out@.len() && same_path(#[trigger] now[i], found[#[trigger] p@[m] as int]) by {
                    if m == n {
                        assert(same_path(now[before.len() - 1], found[p@[m] as int]));
                    } else {
                        let i = choose|i: int| 0 <= i < before.len() && same_path(#[trigger] before[i], found[p@[m] as int]);
                        assert(now[i] == before[i]);
                    }
                }
            }
        }
        n = n + 1;
    }
    proof {
        let r = texts(out@);
        assert forall|i: int| 0 <= i < r.len() implies overlaps(noted@, target, #[trigger] r[i]) by {
            assert(found.contains(r[i]));
        }
        assert forall|q: Seq<char>| #[trigger] overlaps(noted@, target, q) implies exists|i: int|
            0 <= i < r.len() && same_path(#[trigger] r[i], q) by {
            assert(found.contains(q));
            let f = choose|f: int| 0 <= f < found.len() && found[f] == q;
            crate::order::lemma_arrangement_covers(p@, found.len(), f);
            let m = choose|m: int| 0 <= m < p@.len() && #[trigger] p@[m] == f;
            assert(exists|i: int| 0 <= i < out@.len() && same_path(#[trigger] texts(out@)[i], found[p@[m] as int]));
        }
    }
    out
}

/// Paths in order: what stands before or with the middle one and is not the same stands strictly
/// before the last.
proof fn lemma_path_keys_chain(
    a: Seq<crate::paths::Part>,
    b: Seq<crate::paths::Part>,
    c: Seq<crate::paths::Part>,
)
    requires
        parts_le(a, b),
        a != b,
        parts_le(b, c),
    ensures
        parts_le(a, c),
        a != c,
{
    crate::paths::lemma_parts_le_transitive(a, b, c);
    if a == c {
        lemma_parts_le_antisymmetric(a, b);
    }
}

/// The sessions, in the order `p`, that are not the current one, whose checkpoints are known, and
/// that changed a path which the restore takes back.
pub open spec fn conflicting(
    sessions: Seq<SessionCheckpoints>,
    p: Seq<usize>,
    current: Option<Seq<char>>,
    restore: Seq<Seq<char>>,
) -> Seq<int>
    decreases p.len(),
{
    if p.len() == 0 {
        Seq::empty()
    } else {
        let rest = conflicting(sessions, p.drop_last(), current, restore);
        let s = sessions[p.last() as int];
        if current != Some(s.session_id@) && s.noted_paths is Some && (exists|q: Seq<char>| #[trigger]
            overlaps(s.noted_paths->0@, restore, q)) {
            rest.push(p.last() as int)
        } else {
            rest
        }
    }
}

/// The ids of the sessions.
pub open spec fn session_ids(sessions: Seq<SessionCheckpoints>) -> Seq<String> {
    sessions.map_values(|s: SessionCheckpoints| s.session_id)
}

/// Whether `r` lists the conflicts of the sessions `at`, one for each.
pub open spec fn lists_conflicts(
    sessions: Seq<SessionCheckpoints>,
    at: Seq<int>,
    restore: Seq<Seq<char>>,
    r: Seq<RestoreConflict>,
) -> bool {
    &&& r.len() == at.len()
    &&& forall|k: int|
        0 <= k < at.len() ==> {
            let s = sessions[#[trigger] at[k]];
            &&& s.noted_paths is Some
            &&& r[k].session_id@ == s.session_id@
            &&& lists_overlaps(s.noted_paths->0@, restore, texts(r[k].paths@))
            &&& r[k].paths@.len() > 0
        }
}

/// The conflicts of a restore with what other sessions changed: by session in the order of their
/// ids, each with the paths in order. A restore of the whole tree counts as none.
pub fn other_session_restore_conflicts(
    current_session_id: Option<&str>,
    restore_paths: &Vec<String>,
    sessions: &Vec<SessionCheckpoints>,
) -> (r: Vec<RestoreConflict>)
    ensures
        if restore_paths@.len() == 0 {
            r@.len() == 0
        } else {
            exists|p: Seq<usize>| #[trigger]
                sorts(session_ids(sessions@), p) && lists_conflicts(
                    sessions@,
                    conflicting(
                        sessions@,
                        p,
                        crate::text::opt_str(current_session_id),
                        texts(restore_paths@),
                    ),
                    texts(restore_paths@),
                    r@,
                )
        },
{
    let mut out: Vec<RestoreConflict> = Vec::new();
    if restore_paths.len() == 0 {
        return out;
    }
    let ghost current = crate::text::opt_str(current_session_id);
    let ghost target = texts(restore_paths@);
    let mut ids: Vec<String> = Vec::new();
    let mut k: usize = 0;
    while k < sessions.len()
        invariant
            k <= sessions@.len(),
            ids@ == session_ids(sessions@).take(k as int),
        decreases sessions@.len() - k,
    {
        ids.push(sessions[k].session_id.clone());
        assert(session_ids(sessions@).take(k + 1) =~= session_ids(sessions@).take(k as int).push(
            sessions@[k as int].session_id,
        ));
        k = k + 1;
    }
    assert(session_ids(sessions@).take(sessions@.len() as int) =~= session_ids(sessions@));
    let p = sorting_order(&ids);
    let mut n: usize = 0;
    while n < p.len()
        invariant
            n <= p@.len(),
            is_arrangement(p@, sessions@.len()),
            current == crate::text::opt_str(current_session_id),
            target == texts(restore_paths@),
            lists_conflicts(
                sessions@,
                conflicting(sessions@, p@.take(n as int), current, target),
                target,
                out@,
            ),
        decreases p@.len() - n,
    {
        let s = &sessions[p[n]];
        let ghost at = conflicting(sessions@, p@.take(n as int), current, target);
        let ghost before = out@;
        assert(p@.take(n + 1).drop_last() =~= p@.take(n as int));
        let is_current = match current_session_id {
            Some(c) => same(c, s.session_id.as_str()),
            None => false,
        };
        if !is_current {
            if let Some(noted) = &s.noted_paths {
                let paths = overlapping_paths(noted, restore_paths);
                let ghost listed = texts(paths@);
                assert(listed.len() == paths@.len());
                if paths.len() > 0 {
                    proof {
                        assert(overlaps(noted@, target, listed[0]));
                    }
                    let conflict = RestoreConflict { session_id: s.session_id.clone(), paths };
                    out.push(conflict);
                    proof {
                        let now = at.push(p@[n as int] as int);
                        assert(conflicting(sessions@, p@.take(n + 1), current, target) == now);
                        assert forall|j: int| 0 <= j < now.len() implies {
                            let t = sessions@[#[trigger] now[j]];
                            &&& t.noted_paths is Some
                            &&& out@[j].session_id@ == t.session_id@
                            &&& lists_overlaps(t.noted_paths->0@, target, texts(out@[j].paths@))
                            &&& out@[j].paths@.len() > 0
                        } by {
                            if j < at.len() {
                                assert(now[j] == at[j]);
                                assert(out@[j] == before[j]);
                            }
                        }
                    }
                } else {
                    proof {
                        assert forall|q: Seq<char>| !(#[trigger] overlaps(noted@, target, q)) by {
                            if overlaps(noted@, target, q) {
                                let i = choose|i: int| 0 <= i < listed.len() && same_path(#[trigger] listed[i], q);
                                assert(false);
                            }
                        }
                    }
                }
            }
        }
        n = n + 1;
    }
    proof {
        assert(p@.take(p@.len() as int) =~= p@);
        assert(sorts(session_ids(sessions@), p@));
    }
    out
}

/// How one conflict is told.
pub open spec fn conflict_text(c: RestoreConflict) -> Seq<char> {
    c.session_id@ + "("@ + joined(texts(c.paths@), ", "@) + ")"@
}

/// How conflicts are told.
pub open spec fn conflicts_text(all: Seq<RestoreConflict>) -> Seq<char> {
    joined(all.map_values(|c: RestoreConflict| conflict_text(c)), "; "@)
}

/// How conflicts are told.
pub fn render_restore_conflicts(conflicts: &Vec<RestoreConflict>) -> (r: String)
    ensures
        r@ == conflicts_text(conflicts@),
{
    let ghost rows = conflicts@.map_values(|c: RestoreConflict| conflict_text(c));
    let mut parts: Vec<String> = Vec::new();
    let mut i: usize = 0;
    while i < conflicts.len()
        invariant
            i <= conflicts@.len(),
            rows == conflicts@.map_values(|c: RestoreConflict| conflict_text(c)),
            texts(parts@) == rows.take(i as int),
        decreases conflicts@.len() - i,
    {
        let c = &conflicts[i];
        push_text(
            &mut parts,
            cat4(c.session_id.as_str(), "(", join(&c.paths, ", ").as_str(), ")"),
        );
        assert(rows.take(i + 1) =~= rows.take(i as int).push(rows[i as int]));
        i = i + 1;
    }
    assert(rows.take(rows.len() as int) =~= rows);
    join(&parts, "; ")
}

/// The warning that conflicts call for.
pub open spec fn conflict_warnings(all: Seq<RestoreConflict>) -> Seq<Seq<char>> {
    if all.len() == 0 {
        Seq::empty()
    } else {
        seq!["本次 restore 可能影响其他会话改动："@ + conflicts_text(all)]
    }
}

/// The warning that conflicts call for.
pub fn collect_restore_warnings(conflicts: &Vec<RestoreConflict>) -> (r: Vec<String>)
    ensures
        texts(r@) == conflict_warnings(conflicts@),
{
    if conflicts.len() == 0 {
        let none: Vec<String> = Vec::new();
        assert(texts(none@) =~= Seq::empty());
        return none;
    }
    one_text(
        cat(
            "本次 restore 可能影响其他会话改动：",
            render_restore_conflicts(conflicts).as_str(),
        ),
    )
}

// ---------------------------------------------------------------- laws

/// What is asked for is what is taken back: if paths are requested, these are the paths, each of them in
/// its place and no other, whatever the checkpoint notes.
pub proof fn law_requested_paths_are_restored(requested: Seq<Seq<char>>, noted: Seq<Seq<char>>)
    requires
        requested.len() > 0,
    ensures
        named_paths(requested, noted) is Some,
        named_paths(requested, noted)->0.len() == requested.len(),
        forall|i: int|
            0 <= i < requested.len() ==> #[trigger] named_paths(requested, noted)->0[i]
                == requested[i],
{
}

proof fn lemma_not_blank(all: Seq<Seq<char>>)
    ensures
        not_blank(all) == all.filter(|p: Seq<char>| trimmed(p).len() > 0),
    decreases all.len(),
{
    reveal(Seq::filter);
    if all.len() > 0 {
        lemma_not_blank(all.drop_last());
    } else {
        assert(not_blank(all) =~= all.filter(|p: Seq<char>| trimmed(p).len() > 0));
    }
}

/// Without requested paths, those that the checkpoint notes are taken back: all that are not blank, as
/// often as they are noted and in that order. If all of them are blank, no path is named.
pub proof fn law_noted_paths_are_restored_otherwise(noted: Seq<Seq<char>>)
    ensures
        not_blank(noted) == noted.filter(|p: Seq<char>| trimmed(p).len() > 0),
        named_paths(Seq::empty(), noted) is Some <==> noted.filter(
            |p: Seq<char>| trimmed(p).len() > 0,
        ).len() > 0,
        named_paths(Seq::empty(), noted) matches Some(paths) ==> paths == noted.filter(
            |p: Seq<char>| trimmed(p).len() > 0,
        ),
{
    lemma_not_blank(noted);
}

/// The difference decides last: its paths are taken back, all and in order, without a warning; if it has
/// none, or cannot be had, the whole tree is taken back, and never without a warning.
#[verifier::rlimit(40)]
#[verifier::spinoff_prover]
pub proof fn law_whole_tree_only_with_a_warning(diff: Result<Vec<String>, String>, r: RestorePathPlan)
    requires
        is_diff_plan(diff, r),
    ensures
        diff matches Ok(changed) ==> (changed@.len() > 0 ==> r.warning is None && r.paths@.len()
            == changed@.len() && forall|i: int|
            0 <= i < changed@.len() ==> (#[trigger] r.paths@[i])@ == changed@[i]@),
        r.paths@.len() == 0 <==> r.warning is Some,
        diff matches Err(e) ==> r.warning is Some && crate::search::has_text(r.warning->0@, e@),
{
    match diff {
        Ok(changed) => {
            if changed@.len() > 0 {
                let a = texts(r.paths@);
                let b = texts(changed@);
                assert(a.len() == b.len());
                assert forall|i: int| 0 <= i < changed@.len() implies (#[trigger] r.paths@[i])@
                    == changed@[i]@ by {
                    assert(a[i] == b[i]);
                }
            }
        },
        Err(e) => {
            crate::search::lemma_text_in_itself(e@);
            crate::search::lemma_text_within(
                "无法自动收窄 restore 路径（读取 checkpoint diff 失败："@,
                e@,
                "），将继续执行整树 restore。"@,
                e@,
            );
        },
    }
}

proof fn lemma_conflicting(
    sessions: Seq<SessionCheckpoints>,
    p: Seq<usize>,
    current: Option<Seq<char>>,
    restore: Seq<Seq<char>>,
)
    ensures
        forall|k: int| 0 <= k < conflicting(sessions, p, current, restore).len() ==> {
            let s = sessions[#[trigger] conflicting(sessions, p, current, restore)[k]];
            &&& current != Some(s.session_id@)
            &&& s.noted_paths is Some
            &&& exists|q: Seq<char>| #[trigger] overlaps(s.noted_paths->0@, restore, q)
        },
        forall|m: int|
            0 <= m < p.len() && {
                let s = sessions[#[trigger] p[m] as int];
                &&& current != Some(s.session_id@)
                &&& s.noted_paths is Some
                &&& exists|q: Seq<char>| #[trigger] overlaps(s.noted_paths->0@, restore, q)
            } ==> conflicting(sessions, p, current, restore).contains(p[m] as int),
    decreases p.len(),
{
    if p.len() > 0 {
        let front = p.drop_last();
        lemma_conflicting(sessions, front, current, restore);
        let rest = conflicting(sessions, front, current, restore);
        let all = conflicting(sessions, p, current, restore);
        assert forall|k: int| 0 <= k < all.len() implies {
            let s = sessions[#[trigger] all[k]];
            &&& current != Some(s.session_id@)
            &&& s.noted_paths is Some
            &&& exists|q: Seq<char>| #[trigger] overlaps(s.noted_paths->0@, restore, q)
        } by {
            if k < rest.len() {
                assert(all[k] == rest[k]);
            }
        }
        assert forall|m: int|
            0 <= m < p.len() && {
                let s = sessions[#[trigger] p[m] as int];
                &&& current != Some(s.session_id@)
                &&& s.noted_paths is Some
                &&& exists|q: Seq<char>| #[trigger] overlaps(s.noted_paths->0@, restore, q)
            } implies all.contains(p[m] as int) by {
            if m < front.len() {
                assert(front[m] == p[m]);
                let k = choose|k: int| 0 <= k < rest.len() && rest[k] == p[m] as int;
                assert(all[k] == p[m] as int);
            } else {
                assert(all[rest.len() as int] == p[m] as int);
            }
        }
    }
}

/// Every conflict is told and nothing else is: another session is told of exactly if one of its
/// checkpoints notes a path that the restore takes back, and the current session never is.
#[verifier::rlimit(40)]
#[verifier::spinoff_prover]
pub proof fn law_every_conflict_is_told(
    sessions: Seq<SessionCheckpoints>,
    p: Seq<usize>,
    current: Option<Seq<char>>,
    restore: Seq<Seq<char>>,
    r: Seq<RestoreConflict>,
)
    requires
        sorts(session_ids(sessions), p),
        lists_conflicts(sessions, conflicting(sessions, p, current, restore), restore, r),
    ensures
        forall|m: int, c: int, i: int, k: int|
            0 <= m < sessions.len() && current != Some(sessions[m].session_id@)
                && sessions[m].noted_paths is Some && 0 <= c < sessions[m].noted_paths->0@.len() && 0
                <= i < sessions[m].noted_paths->0@[c]@.len() && 0 <= k < restore.len()
                && #[trigger] same_path(restore[k], sessions[m].noted_paths->0@[c]@[i]@) && trimmed(
                sessions[m].noted_paths->0@[c]@[i]@,
            ).len() > 0 ==> exists|n: int|
                0 <= n < r.len() && (#[trigger] r[n]).session_id@ == sessions[m].session_id@,
        forall|n: int|
            0 <= n < r.len() ==> current != Some((#[trigger] r[n]).session_id@) && r[n].paths@.len()
                > 0,
{
    let at = conflicting(sessions, p, current, restore);
    lemma_conflicting(sessions, p, current, restore);
    assert forall|m: int, c: int, i: int, k: int|
        0 <= m < sessions.len() && current != Some(sessions[m].session_id@)
            && sessions[m].noted_paths is Some && 0 <= c < sessions[m].noted_paths->0@.len() && 0 <= i
            < sessions[m].noted_paths->0@[c]@.len() && 0 <= k < restore.len() && #[trigger] same_path(
            restore[k],
            sessions[m].noted_paths->0@[c]@[i]@,
        ) && trimmed(sessions[m].noted_paths->0@[c]@[i]@).len() > 0 implies exists|n: int|
        0 <= n < r.len() && (#[trigger] r[n]).session_id@ == sessions[m].session_id@ by {
        let noted = sessions[m].noted_paths->0@;
        let q = noted[c]@[i]@;
        assert(texts(noted[c]@)[i] == q);
        assert(texts(noted[c]@).contains(q));
        assert(is_restored(restore, q));
        assert(overlaps(noted, restore, q));
        crate::order::lemma_arrangement_covers(p, sessions.len(), m);
        let j = choose|j: int| 0 <= j < p.len() && #[trigger] p[j] == m;
        assert(sessions[p[j] as int] == sessions[m]);
        assert(at.contains(p[j] as int));
        let n = choose|n: int| 0 <= n < at.len() && at[n] == p[j] as int;
        assert(sessions[at[n]] == sessions[m]);
        assert(r[n].session_id@ == sessions[m].session_id@);
    }
    assert forall|n: int| 0 <= n < r.len() implies current != Some((#[trigger] r[n]).session_id@)
        && r[n].paths@.len() > 0 by {
        assert(sessions[at[n]].noted_paths is Some);
    }
}

/// The paths of a conflict are paths that the other session notes and the restore takes back.
pub proof fn law_conflicts_name_paths_of_both(
    noted: Seq<Vec<String>>,
    restore: Seq<Seq<char>>,
    r: Seq<Seq<char>>,
    i: int,
)
    requires
        lists_overlaps(noted, restore, r),
        0 <= i < r.len(),
    ensures
        exists|k: int| 0 <= k < restore.len() && same_path(#[trigger] restore[k], r[i]),
        exists|c: int| 0 <= c < noted.len() && texts(#[trigger] noted[c]@).contains(r[i]),
{
    assert(overlaps(noted, restore, r[i]));
}

/// A conflict names all paths that the other session notes and the restore takes back, each once.
pub proof fn law_conflicts_name_every_path(
    noted: Seq<Vec<String>>,
    restore: Seq<Seq<char>>,
    r: Seq<Seq<char>>,
    c: int,
    i: int,
    k: int,
)
    requires
        lists_overlaps(noted, restore, r),
        0 <= c < noted.len(),
        0 <= i < noted[c]@.len(),
        0 <= k < restore.len(),
        same_path(restore[k], noted[c]@[i]@),
        trimmed(noted[c]@[i]@).len() > 0,
    ensures
        exists|n: int| 0 <= n < r.len() && same_path(#[trigger] r[n], noted[c]@[i]@),
        forall|m: int, n: int| 0 <= m < n < r.len() ==> !same_path(#[trigger] r[m], #[trigger] r[n]),
{
    let q = noted[c]@[i]@;
    assert(texts(noted[c]@)[i] == q);
    assert(texts(noted[c]@).contains(q));
    assert(is_restored(restore, q));
    assert(overlaps(noted, restore, q));
}

/// How a conflict is told names its session and every one of its paths.
#[verifier::rlimit(40)]
#[verifier::spinoff_prover]
pub proof fn law_conflicts_are_told_in_full(c: RestoreConflict, i: int)
    requires
        0 <= i < c.paths@.len(),
    ensures
        crate::search::has_text(conflict_text(c), c.session_id@),
        crate::search::has_text(conflict_text(c), c.paths@[i]@),
{
    let row = conflict_text(c);
    let id = c.session_id@;
    let ps = texts(c.paths@);
    let list = joined(ps, ", "@);
    assert(ps[i] == c.paths@[i]@);
    crate::search::law_joined_holds_every_part(ps, ", "@, i);
    crate::search::lemma_text_in_itself(id);
    crate::search::lemma_text_within(Seq::empty(), id, "("@ + list + ")"@, id);
    assert(row =~= Seq::<char>::empty() + id + ("("@ + list + ")"@));
    crate::search::lemma_text_within(id + "("@, list, ")"@, ps[i]);
}

/// There is a warning exactly if there is a conflict, and it tells every conflict.
#[verifier::rlimit(40)]
#[verifier::spinoff_prover]
pub proof fn law_warnings_tell_every_conflict(all: Seq<RestoreConflict>, k: int)
    requires
        0 <= k < all.len(),
    ensures
        conflict_warnings(Seq::<RestoreConflict>::empty()).len() == 0,
        conflict_warnings(all).len() == 1,
        crate::search::has_text(conflict_warnings(all)[0], conflict_text(all[k])),
{
    let rows = all.map_values(|c: RestoreConflict| conflict_text(c));
    let head = "本次 restore 可能影响其他会话改动："@;
    let whole = joined(rows, "; "@);
    assert(rows[k] == conflict_text(all[k]));
    crate::search::law_joined_holds_every_part(rows, "; "@, k);
    crate::search::lemma_text_within(head, whole, Seq::empty(), rows[k]);
    assert(head + whole + Seq::<char>::empty() =~= head + whole);
}

} // verus!
