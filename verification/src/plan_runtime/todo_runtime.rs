//! The file that holds the todos of a session.

use vstd::prelude::*;
use vstd::string::*;

use crate::order::sorting_order;
#[allow(unused_imports)]
use crate::order::{is_arrangement, sorts};
use crate::paths::join_path;
#[allow(unused_imports)]
use crate::paths::path_joined;
use crate::plan_runtime::file_store::TodoItem;
#[allow(unused_imports)]
use crate::plan_runtime::file_store::status_mark;
use crate::search::{ends_with, strip_suffix};
#[allow(unused_imports)]
use crate::search::has_suffix;
use crate::text::{cat, push_text, same};
#[allow(unused_imports)]
use crate::text::texts;

verus! {

/// A file of todos.
#[derive(Clone, Debug, PartialEq, Eq)]
pub struct TodoFile {
    pub todos_id: String,
    /// The session that it was made in.
    pub session_key: String,
    pub title: Option<String>,
    /// When it was made, as RFC 3339 writes it.
    pub created_at: String,
    pub items: Vec<TodoItem>,
}

/// The line of one todo.
pub open spec fn item_line(t: TodoItem) -> Seq<char> {
    "- ["@ + status_mark(t.status) + "] "@ + t.id@ + ": "@ + t.content@ + "\n"@
}

/// The lines of all todos.
pub open spec fn item_lines(items: Seq<TodoItem>) -> Seq<char>
    decreases items.len(),
{
    if items.len() == 0 {
        Seq::empty()
    } else {
        item_lines(items.drop_last()) + item_line(items.last())
    }
}

/// The text of a file of todos.
pub open spec fn markdown(f: TodoFile) -> Seq<char> {
    "---\ntodos_id: "@ + f.todos_id@ + "\nsession_key: "@ + f.session_key@ + "\n"@ + (
    match f.title {
        Some(t) => "title: "@ + t@ + "\n"@,
        None => Seq::empty(),
    }) + "created_at: "@ + f.created_at@ + "\nschema_version: 1\n---\n\n## Todos\n\n"@ + (
    if f.items@.len() == 0 {
        "_(empty)_\n"@
    } else {
        item_lines(f.items@)
    })
}

impl TodoFile {
    /// A file without todos, made at the time `created_at`.
    pub fn new(todos_id: &str, session_key: &str, title: Option<String>, created_at: &str) -> (r: TodoFile)
        ensures
            r.todos_id@ == todos_id@,
            r.session_key@ == session_key@,
            r.title == title,
            r.created_at@ == created_at@,
            r.items@.len() == 0,
    {
        TodoFile {
            todos_id: todos_id.to_owned(),
            session_key: session_key.to_owned(),
            title,
            created_at: created_at.to_owned(),
            items: Vec::new(),
        }
    }

    /// The text of the file.
    pub fn to_markdown(&self) -> (r: String)
        ensures
            r@ == markdown(*self),
    {
        let mut out = cat("---\ntodos_id: ", self.todos_id.as_str());
        out.append("\nsession_key: ");
        out.append(self.session_key.as_str());
        out.append("\n");
        let ghost head = out@;
        match &self.title {
            Some(t) => {
                let mut line = cat("title: ", t.as_str());
                line.append("\n");
                out.append(line.as_str());
            },
            None => {
                assert(head + Seq::<char>::empty() =~= head);
            },
        }
        out.append("created_at: ");
        out.append(self.created_at.as_str());
        out.append("\nschema_version: 1\n---\n\n## Todos\n\n");
        if self.items.len() == 0 {
            out.append("_(empty)_\n");
            return out;
        }
        let ghost before = out@;
        let mut i: usize = 0;
        assert(before + item_lines(self.items@.take(0)) =~= before);
        while i < self.items.len()
            invariant
                i <= self.items@.len(),
                out@ == before + item_lines(self.items@.take(i as int)),
            decreases self.items@.len() - i,
        {
            let t = &self.items[i];
            let mut line = cat("- [", t.status.mark());
            line.append("] ");
            line.append(t.id.as_str());
            line.append(": ");
            line.append(t.content.as_str());
            line.append("\n");
            assert(self.items@.take(i + 1).drop_last() =~= self.items@.take(i as int));
            assert(before + item_lines(self.items@.take(i as int)) + line@ =~= before + item_lines(
                self.items@.take(i + 1),
            ));
            out.append(line.as_str());
            i = i + 1;
        }
        assert(self.items@.take(self.items@.len() as int) =~= self.items@);
        out
    }
}

/// The directory of a session's files of todos.
pub open spec fn todo_dir(base: Seq<char>, session_key: Seq<char>) -> Seq<char> {
    path_joined(path_joined(path_joined(base, "sessions"@), session_key), "todos"@)
}

/// The directory of a session's files of todos.
pub fn todo_dir_for(base_dir: &str, session_key: &str) -> (r: String)
    ensures
        r@ == todo_dir(base_dir@, session_key@),
{
    let a = join_path(base_dir, "sessions");
    let b = join_path(a.as_str(), session_key);
    join_path(b.as_str(), "todos")
}

/// The path of a file of todos.
pub fn todo_path_for(base_dir: &str, session_key: &str, todos_id: &str) -> (r: String)
    ensures
        r@ == path_joined(todo_dir(base_dir@, session_key@), todos_id@ + ".todo.md"@),
{
    let dir = todo_dir_for(base_dir, session_key);
    join_path(dir.as_str(), cat(todos_id, ".todo.md").as_str())
}

/// The names that are files of todos.
pub open spec fn todo_names(names: Seq<Seq<char>>) -> Seq<Seq<char>>
    decreases names.len(),
{
    if names.len() == 0 {
        Seq::empty()
    } else {
        let rest = todo_names(names.drop_last());
        if has_suffix(names.last(), ".todo.md"@) {
            rest.push(names.last())
        } else {
            rest
        }
    }
}

/// Whether `listed` holds the files of todos among the names, in order.
pub open spec fn is_listing(names: Seq<Seq<char>>, listed: Seq<Seq<char>>) -> bool {
    exists|found: Seq<String>, p: Seq<usize>| #[trigger]
        sorts(found, p) && texts(found) == todo_names(names) && listed == p.map_values(
            |i: usize| found[i as int]@,
        )
}

/// The files of todos among the names in a directory, in order.
pub fn list_session_todos_files(names: &Vec<String>) -> (r: Vec<String>)
    ensures
        is_listing(texts(names@), texts(r@)),
{
    let ghost all = texts(names@);
    let mut found: Vec<String> = Vec::new();
    let mut i: usize = 0;
    assert(texts(found@) =~= todo_names(all.take(0)));
    while i < names.len()
        invariant
            i <= names@.len(),
            all == texts(names@),
            texts(found@) == todo_names(all.take(i as int)),
        decreases names@.len() - i,
    {
        assert(all.take(i + 1).drop_last() =~= all.take(i as int));
        if ends_with(names[i].as_str(), ".todo.md") {
            push_text(&mut found, names[i].clone());
        }
        i = i + 1;
    }
    assert(all.take(all.len() as int) =~= all);
    let p = sorting_order(&found);
    let mut out: Vec<String> = Vec::new();
    let mut k: usize = 0;
    let ghost listed = p@.map_values(|i: usize| found@[i as int]@);
    while k < p.len()
        invariant
            k <= p@.len(),
            is_arrangement(p@, found@.len()),
            listed == p@.map_values(|i: usize| found@[i as int]@),
            texts(out@) == listed.take(k as int),
        decreases p@.len() - k,
    {
        push_text(&mut out, found[p[k]].clone());
        assert(listed.take(k + 1) =~= listed.take(k as int).push(listed[k as int]));
        k = k + 1;
    }
    assert(listed.take(listed.len() as int) =~= listed);
    assert(sorts(found@, p@));
    out
}

/// Whether a file is to go when only the todos `keep` stay.
pub open spec fn is_inactive(name: Seq<char>, keep: Seq<char>) -> bool {
    (if has_suffix(name, ".todo.md"@) {
        name.take(name.len() - ".todo.md"@.len())
    } else {
        Seq::empty()
    }) != keep
}

/// The files that are to go.
pub open spec fn inactive_names(names: Seq<Seq<char>>, keep: Seq<char>) -> Seq<Seq<char>>
    decreases names.len(),
{
    if names.len() == 0 {
        Seq::empty()
    } else {
        let rest = inactive_names(names.drop_last(), keep);
        if is_inactive(names.last(), keep) {
            rest.push(names.last())
        } else {
            rest
        }
    }
}

/// The files of todos that are to go from a directory with these names: all but the one to keep,
/// in order.
pub fn purge_inactive(names: &Vec<String>, keep_id: &str) -> (r: Vec<String>)
    ensures
        exists|listed: Seq<Seq<char>>|
            is_listing(texts(names@), listed) && texts(r@) == #[trigger] inactive_names(
                listed,
                keep_id@,
            ),
{
    let files = list_session_todos_files(names);
    inactive_among(&files, keep_id)
}

fn inactive_among(names: &Vec<String>, keep_id: &str) -> (r: Vec<String>)
    ensures
        texts(r@) == inactive_names(texts(names@), keep_id@),
{
    let ghost all = texts(names@);
    let mut out: Vec<String> = Vec::new();
    let mut i: usize = 0;
    assert(texts(out@) =~= inactive_names(all.take(0), keep_id@));
    while i < names.len()
        invariant
            i <= names@.len(),
            all == texts(names@),
            texts(out@) == inactive_names(all.take(i as int), keep_id@),
        decreases names@.len() - i,
    {
        assert(all.take(i + 1).drop_last() =~= all.take(i as int));
        let id = match strip_suffix(names[i].as_str(), ".todo.md") {
            Some(s) => s,
            None => {
                let none: String = String::new();
                assert(none@ =~= Seq::empty());
                none
            },
        };
        if !same(id.as_str(), keep_id) {
            push_text(&mut out, names[i].clone());
        }
        i = i + 1;
    }
    assert(all.take(all.len() as int) =~= all);
    out
}

/// The file of the todos to keep is never among those that go.
pub proof fn law_purge_spares_the_kept(names: Seq<Seq<char>>, keep: Seq<char>)
    ensures
        !inactive_names(names, keep).contains(keep + ".todo.md"@),
    decreases names.len(),
{
    if names.len() > 0 {
        law_purge_spares_the_kept(names.drop_last(), keep);
        let file = keep + ".todo.md"@;
        let rest = inactive_names(names.drop_last(), keep);
        assert(file.subrange(file.len() - ".todo.md"@.len(), file.len() as int) =~= ".todo.md"@);
        assert(file.take(file.len() - ".todo.md"@.len()) =~= keep);
        assert(!is_inactive(file, keep));
        if inactive_names(names, keep).contains(file) {
            let after = inactive_names(names, keep);
            let i = choose|i: int| 0 <= i < after.len() && after[i] == file;
            if i < rest.len() {
                assert(rest[i] == file);
                assert(rest.contains(file));
            }
        }
    }
}

/// Only files of todos go, and only files that are there.
pub proof fn law_purge_takes_only_todo_files(
    names: Seq<Seq<char>>,
    listed: Seq<Seq<char>>,
    keep: Seq<char>,
    file: Seq<char>,
)
    requires
        is_listing(names, listed),
        inactive_names(listed, keep).contains(file),
    ensures
        has_suffix(file, ".todo.md"@),
        names.contains(file),
{
    lemma_inactive_is_listed(listed, keep, file);
    let (found, p) = choose|found: Seq<String>, p: Seq<usize>| #[trigger]
        sorts(found, p) && texts(found) == todo_names(names) && listed == p.map_values(
            |i: usize| found[i as int]@,
        );
    let k = choose|k: int| 0 <= k < listed.len() && listed[k] == file;
    assert(listed[k] == found[p[k] as int]@);
    assert(texts(found)[p[k] as int] == file);
    lemma_todo_names(names, file);
}

proof fn lemma_inactive_is_listed(listed: Seq<Seq<char>>, keep: Seq<char>, file: Seq<char>)
    requires
        inactive_names(listed, keep).contains(file),
    ensures
        listed.contains(file),
    decreases listed.len(),
{
    let after = inactive_names(listed, keep);
    let rest = inactive_names(listed.drop_last(), keep);
    let i = choose|i: int| 0 <= i < after.len() && after[i] == file;
    if i < rest.len() {
        assert(rest[i] == file);
        lemma_inactive_is_listed(listed.drop_last(), keep, file);
        let j = choose|j: int| 0 <= j < listed.drop_last().len() && listed.drop_last()[j] == file;
        assert(listed[j] == file);
    } else {
        assert(listed[listed.len() - 1] == file);
    }
}

proof fn lemma_todo_names(names: Seq<Seq<char>>, file: Seq<char>)
    requires
        todo_names(names).contains(file),
    ensures
        has_suffix(file, ".todo.md"@),
        names.contains(file),
    decreases names.len(),
{
    let all = todo_names(names);
    let rest = todo_names(names.drop_last());
    let i = choose|i: int| 0 <= i < all.len() && all[i] == file;
    if i < rest.len() {
        assert(rest[i] == file);
        lemma_todo_names(names.drop_last(), file);
        let j = choose|j: int| 0 <= j < names.drop_last().len() && names.drop_last()[j] == file;
        assert(names[j] == file);
    } else {
        assert(names[names.len() - 1] == file);
    }
}

/// Every todo is written, on a line of its own with its mark, its id and its text, in the order of the list.
pub proof fn law_every_todo_is_written(a: Seq<TodoItem>, t: TodoItem, b: Seq<TodoItem>)
    ensures
        item_lines(a + seq![t] + b) == item_lines(a) + ("- ["@ + status_mark(t.status) + "] "@ + t.id@
            + ": "@ + t.content@ + "\n"@) + item_lines(b),
    decreases b.len(),
{
    let all = a + seq![t] + b;
    if b.len() == 0 {
        assert(all.drop_last() =~= a);
        assert(all.last() == t);
        assert(item_lines(all) =~= item_lines(a) + item_line(t) + item_lines(b));
    } else {
        law_every_todo_is_written(a, t, b.drop_last());
        assert(all.drop_last() =~= a + seq![t] + b.drop_last());
        assert(all.last() == b.last());
        assert(item_lines(all) =~= item_lines(a) + item_line(t) + item_lines(b));
    }
}

/// The file of a todo list names the list and its session, and ends with the todos, or says that there are
/// none.
pub proof fn law_todo_files_hold_their_list(f: TodoFile)
    ensures
        f.items@.len() > 0 ==> has_suffix(markdown(f), "\n\n## Todos\n\n"@ + item_lines(f.items@)),
        f.items@.len() == 0 ==> has_suffix(markdown(f), "\n\n## Todos\n\n_(empty)_\n"@),
        crate::search::has_prefix(
            markdown(f),
            "---\ntodos_id: "@ + f.todos_id@ + "\nsession_key: "@ + f.session_key@ + "\n"@,
        ),
{
    let head = "---\ntodos_id: "@ + f.todos_id@ + "\nsession_key: "@ + f.session_key@ + "\n"@;
    let title = match f.title {
        Some(t) => "title: "@ + t@ + "\n"@,
        None => Seq::empty(),
    };
    reveal_strlit("\nschema_version: 1\n---\n\n## Todos\n\n");
    reveal_strlit("\nschema_version: 1\n---");
    reveal_strlit("\n\n## Todos\n\n");
    reveal_strlit("_(empty)_\n");
    reveal_strlit("\n\n## Todos\n\n_(empty)_\n");
    let mark = "\n\n## Todos\n\n"@;
    assert("\nschema_version: 1\n---\n\n## Todos\n\n"@ =~= "\nschema_version: 1\n---"@ + mark);
    assert("\n\n## Todos\n\n_(empty)_\n"@ =~= mark + "_(empty)_\n"@);
    let list = if f.items@.len() == 0 {
        "_(empty)_\n"@
    } else {
        item_lines(f.items@)
    };
    let front = head + title + "created_at: "@ + f.created_at@ + "\nschema_version: 1\n---"@;
    let all = markdown(f);
    assert(all =~= front + (mark + list));
    assert(all.subrange(all.len() - (mark + list).len(), all.len() as int) =~= mark + list);
    assert(all.subrange(0, head.len() as int) =~= head);
}

/// The files of todos are exactly those with the right ending, in the order given; what goes is exactly
/// what does not belong to the list that is kept.
pub proof fn law_todo_files_are_told_by_their_ending(names: Seq<Seq<char>>, keep: Seq<char>)
    ensures
        todo_names(names) == names.filter(|n: Seq<char>| has_suffix(n, ".todo.md"@)),
        inactive_names(names, keep) == names.filter(|n: Seq<char>| is_inactive(n, keep)),
    decreases names.len(),
{
    reveal(Seq::filter);
    if names.len() > 0 {
        law_todo_files_are_told_by_their_ending(names.drop_last(), keep);
    } else {
        assert(todo_names(names) =~= names.filter(|n: Seq<char>| has_suffix(n, ".todo.md"@)));
        assert(inactive_names(names, keep) =~= names.filter(|n: Seq<char>| is_inactive(n, keep)));
    }
}

/// The file of a list is kept under its own name only: with any other list it goes.
pub proof fn law_only_the_kept_list_stays(list: Seq<char>, keep: Seq<char>)
    ensures
        is_inactive(list + ".todo.md"@, keep) <==> list != keep,
{
    let end = ".todo.md"@;
    let name = list + end;
    assert(name.subrange(name.len() - end.len(), name.len() as int) =~= end);
    assert(name.take(name.len() - end.len()) =~= list);
}

/// The todo lists of a session stand in a directory of its own below the sessions.
pub proof fn law_todo_lists_stand_by_session(base: Seq<char>, key: Seq<char>)
    requires
        base.len() > 0,
        base.last() != '/',
        key.len() > 0,
        key[0] != '/',
        key.last() != '/',
    ensures
        todo_dir(base, key) == base + seq!['/'] + "sessions"@ + seq!['/'] + key + seq!['/'] + "todos"@,
{
    reveal_strlit("sessions");
    reveal_strlit("todos");
    crate::paths::law_joined_paths_stand_below(base, "sessions"@);
    let a = base + seq!['/'] + "sessions"@;
    crate::paths::law_joined_paths_stand_below(a, key);
    let b = a + seq!['/'] + key;
    assert(b.last() == key.last());
    crate::paths::law_joined_paths_stand_below(b, "todos"@);
}

} // verus!
