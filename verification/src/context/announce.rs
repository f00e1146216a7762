//! What is announced of an entry of the transcript.
//!
//! An entry is a list of named fields. One whose `event` tells of a plan or of the session is
//! announced: under its own name, for the session, and without the field that gave the name.

use vstd::prelude::*;
use vstd::string::*;

use crate::search::starts_with;
#[allow(unused_imports)]
use crate::search::has_prefix;
use crate::text::same;

verus! {

/// A field of an entry.
#[derive(Clone, Debug, PartialEq, Eq)]
pub struct Field<T> {
    pub name: String,
    pub value: T,
}

/// What the fields hold, by name; of two with one name the last counts.
pub open spec fn by_name<T>(fs: Seq<Field<T>>) -> Map<Seq<char>, T>
    decreases fs.len(),
{
    if fs.len() == 0 {
        Map::empty()
    } else {
        by_name(fs.drop_last()).insert(fs.last().name@, fs.last().value)
    }
}

/// Whether no name stands twice.
pub open spec fn names_differ<T>(fs: Seq<Field<T>>) -> bool {
    forall|i: int, j: int|
        0 <= i < j < fs.len() ==> (#[trigger] fs[i]).name@ != (#[trigger] fs[j]).name@
}

/// Whether an entry is announced: one about a plan or the session.
pub open spec fn is_announced(event_name: Seq<char>) -> bool {
    has_prefix(event_name, "plan."@) || has_prefix(event_name, "session."@)
}

/// What is announced: the fields without the name of the event, the plan under the name that
/// listeners know, what happened and in which session.
pub open spec fn announcement<T>(m: Map<Seq<char>, T>, event: T, session: T) -> Map<Seq<char>, T> {
    let bare = m.remove("event"@);
    let named = if bare.contains_key("plan_id"@) {
        bare.remove("plan_id"@).insert("planId"@, bare["plan_id"@])
    } else {
        bare
    };
    named.insert("type"@, event).insert("sessionId"@, session)
}

/// The fields without those of a name.
spec fn without<T>(fs: Seq<Field<T>>, name: Seq<char>) -> Seq<Field<T>>
    decreases fs.len(),
{
    if fs.len() == 0 {
        fs
    } else if fs.last().name@ == name {
        without(fs.drop_last(), name)
    } else {
        without(fs.drop_last(), name).push(fs.last())
    }
}

/// The value that counts for a name.
spec fn value_of<T>(fs: Seq<Field<T>>, name: Seq<char>) -> Option<T> {
    if by_name(fs).contains_key(name) {
        Some(by_name(fs)[name])
    } else {
        None
    }
}

proof fn lemma_without<T>(fs: Seq<Field<T>>, name: Seq<char>)
    ensures
        by_name(without(fs, name)) == by_name(fs).remove(name),
        forall|i: int|
            0 <= i < without(fs, name).len() ==> (#[trigger] without(fs, name)[i]).name@ != name
                && exists|j: int| 0 <= j < fs.len() && fs[j] == without(fs, name)[i],
        names_differ(fs) ==> names_differ(without(fs, name)),
    decreases fs.len(),
{
    if fs.len() > 0 {
        let front = fs.drop_last();
        lemma_without(front, name);
        let kept = without(front, name);
        let all = without(fs, name);
        if fs.last().name@ != name {
            assert(all.drop_last() =~= kept);
        }
        assert(by_name(all) =~= by_name(fs).remove(name));
        assert forall|i: int| 0 <= i < all.len() implies (#[trigger] all[i]).name@ != name
            && exists|j: int| 0 <= j < fs.len() && fs[j] == all[i] by {
            if i < kept.len() {
                assert(all[i] == kept[i]);
                let j = choose|j: int| 0 <= j < front.len() && front[j] == kept[i];
                assert(fs[j] == all[i]);
            } else {
                assert(fs[fs.len() - 1] == all[i]);
            }
        }
        if names_differ(fs) {
            assert forall|i: int, j: int| 0 <= i < j < front.len() implies (#[trigger] front[i]).name@
                != (#[trigger] front[j]).name@ by {
                assert(fs[i] == front[i] && fs[j] == front[j]);
            }
            assert forall|i: int, j: int| 0 <= i < j < all.len() implies (#[trigger] all[i]).name@
                != (#[trigger] all[j]).name@ by {
                if j < kept.len() {
                    assert(all[i] == kept[i] && all[j] == kept[j]);
                } else {
                    assert(all[i] == kept[i]);
                    let k = choose|k: int| 0 <= k < front.len() && front[k] == kept[i];
                    assert(fs[k] == all[i]);
                    assert(fs[fs.len() - 1] == all[j]);
                }
            }
        }
    } else {
        assert(by_name(without(fs, name)) =~= by_name(fs).remove(name));
    }
}

/// Takes the fields of a name out; what is given back is the value that counted.
fn take_field<T>(fields: &mut Vec<Field<T>>, name: &str) -> (r: Option<T>)
    ensures
        by_name(final(fields)@) == by_name(old(fields)@).remove(name@),
        r == (if by_name(old(fields)@).contains_key(name@) {
            Some(by_name(old(fields)@)[name@])
        } else {
            None
        }),
        forall|i: int| 0 <= i < final(fields)@.len() ==> (#[trigger] final(fields)@[i]).name@ != name@,
        names_differ(old(fields)@) ==> names_differ(final(fields)@),
{
    let ghost all = fields@;
    let ghost mut k: int = 0;
    let mut found: Option<T> = None;
    let mut i: usize = 0;
    assert(without(all.take(0), name@) + all.skip(0) =~= all);
    while i < fields.len()
        invariant
            0 <= k <= all.len(),
            fields@ == without(all.take(k), name@) + all.skip(k),
            i == without(all.take(k), name@).len(),
            found == value_of(all.take(k), name@),
        decreases fields@.len() - i,
    {
        let ghost kept = without(all.take(k), name@);
        assert(all.take(k + 1).drop_last() =~= all.take(k));
        assert(all.take(k + 1).last() == all[k]);
        assert(fields@[i as int] == all[k]);
        if same(fields[i].name.as_str(), name) {
            let f = fields.remove(i);
            found = Some(f.value);
            assert(fields@ =~= kept + all.skip(k + 1));
        } else {
            assert(fields@ =~= kept.push(all[k]) + all.skip(k + 1));
            i = i + 1;
        }
        proof {
            k = k + 1;
        }
    }
    proof {
        assert(k == all.len());
        assert(all.take(k) =~= all);
        assert(fields@ =~= without(all, name@));
        lemma_without(all, name@);
    }
    found
}

/// Puts a field in the place of those of its name.
fn put_field<T>(fields: &mut Vec<Field<T>>, name: &str, value: T)
    ensures
        by_name(final(fields)@) == by_name(old(fields)@).insert(name@, value),
        names_differ(old(fields)@) ==> names_differ(final(fields)@),
{
    let ghost all = fields@;
    let _ = take_field(fields, name);
    let ghost kept = fields@;
    fields.push(Field { name: name.to_owned(), value });
    proof {
        assert(fields@.drop_last() =~= kept);
        assert(by_name(fields@) =~= by_name(all).insert(name@, value));
    }
}

/// What is announced of an entry; nothing if it is about neither a plan nor the session. `event` and
/// `session` are the name of the event and the session, as values of fields.
pub fn announce<T>(fields: Vec<Field<T>>, event_name: Option<&str>, event: T, session: T) -> (r: Option<
    Vec<Field<T>>,
>)
    ensures
        r is Some <==> (event_name is Some && is_announced(event_name->0@)),
        r is Some ==> by_name(r->0@) == announcement(by_name(fields@), event, session),
        r is Some && names_differ(fields@) ==> names_differ(r->0@),
{
    let wanted = match event_name {
        Some(n) => starts_with(n, "plan.") || starts_with(n, "session."),
        None => false,
    };
    if !wanted {
        return None;
    }
    let mut out = fields;
    let _ = take_field(&mut out, "event");
    if let Some(plan) = take_field(&mut out, "plan_id") {
        put_field(&mut out, "planId", plan);
    } else {
        proof {
            let bare = by_name(fields@).remove("event"@);
            assert(bare.remove("plan_id"@) =~= bare);
        }
    }
    put_field(&mut out, "type", event);
    put_field(&mut out, "sessionId", session);
    Some(out)
}

// ---------------------------------------------------------------- laws

/// Whatever the entry holds, listeners learn what happened and in which session, find the plan under
/// their own name for it, and see neither of the names that only the transcript uses.
pub proof fn law_listeners_see_their_own_names<T>(m: Map<Seq<char>, T>, event: T, session: T)
    ensures
        ({
            let a = announcement(m, event, session);
            &&& a.contains_key("type"@) && a["type"@] == event
            &&& a.contains_key("sessionId"@) && a["sessionId"@] == session
            &&& !a.contains_key("event"@)
            &&& !a.contains_key("plan_id"@)
            &&& m.contains_key("plan_id"@) ==> a.contains_key("planId"@) && a["planId"@]
                == m["plan_id"@]
        }),
{
    reveal_strlit("event");
    reveal_strlit("plan_id");
    reveal_strlit("planId");
    reveal_strlit("type");
    reveal_strlit("sessionId");
    assert("event"@.len() == 5 && "plan_id"@.len() == 7 && "planId"@.len() == 6 && "type"@.len() == 4
        && "sessionId"@.len() == 9);
}

/// Everything else of the entry reaches the listeners as it is, and nothing is made up.
pub proof fn law_announcements_keep_the_rest<T>(m: Map<Seq<char>, T>, event: T, session: T, name: Seq<char>)
    requires
        name != "event"@,
        name != "plan_id"@,
        name != "planId"@,
        name != "type"@,
        name != "sessionId"@,
    ensures
        announcement(m, event, session).contains_key(name) <==> m.contains_key(name),
        m.contains_key(name) ==> announcement(m, event, session)[name] == m[name],
{
}

/// What is told of a plan or of the session is announced, and nothing else.
pub proof fn law_what_is_announced(rest: Seq<char>, name: Seq<char>)
    ensures
        is_announced("plan."@ + rest),
        is_announced("session."@ + rest),
        !has_prefix(name, "plan."@) && !has_prefix(name, "session."@) ==> !is_announced(name),
{
    let a = "plan."@ + rest;
    let b = "session."@ + rest;
    assert(a.subrange(0, "plan."@.len() as int) =~= "plan."@);
    assert(b.subrange(0, "session."@.len() as int) =~= "session."@);
}

/// A field that is added is found under its name, and does not touch the others.
pub proof fn law_fields_are_found_by_name<T>(fs: Seq<Field<T>>, f: Field<T>, name: Seq<char>)
    ensures
        by_name(fs.push(f)).contains_key(f.name@),
        by_name(fs.push(f))[f.name@] == f.value,
        name != f.name@ ==> (by_name(fs.push(f)).contains_key(name) <==> by_name(fs).contains_key(name)),
        name != f.name@ && by_name(fs).contains_key(name) ==> by_name(fs.push(f))[name] == by_name(fs)[name],
{
    assert(fs.push(f).drop_last() =~= fs);
}

} // verus!
