//! What becomes of commands that end in the background.

use vstd::prelude::*;
use vstd::string::*;

use crate::numerals::decimal_i32;
#[allow(unused_imports)]
use crate::numerals::signed_decimal;
use crate::search::replace;
#[allow(unused_imports)]
use crate::search::replaced;
use crate::text::{cat, cat5, push_text, same};
#[allow(unused_imports)]
use crate::text::texts;

verus! {

/// Who tells of the end of a task.
#[derive(Clone, Copy, Debug, PartialEq, Eq, Structural)]
pub enum CompletionRoute {
    /// The next turn.
    Pending,
    /// The tool that waits for it.
    ToolWillDeliver,
    /// It has been told.
    Delivered,
}

/// How far a task is.
#[derive(Clone, Copy, Debug, PartialEq, Eq, Structural)]
pub enum BashTaskStatus {
    Running,
    Finished { exit_code: i32 },
    Stopped,
}

/// Who tells of a task.
#[derive(Clone, Debug, PartialEq, Eq)]
pub struct TaskRoute {
    pub task_id: String,
    pub route: CompletionRoute,
}

/// What is known of who told or tells of which task.
#[derive(Clone, Debug, PartialEq, Eq)]
pub struct CompletionBook {
    /// The tasks whose end was seen.
    pub seen: Vec<String>,
    pub routes: Vec<TaskRoute>,
}

/// Who tells of a task, by the last line about it.
pub open spec fn route_of(routes: Seq<TaskRoute>, id: Seq<char>) -> Option<CompletionRoute>
    decreases routes.len(),
{
    if routes.len() == 0 {
        None
    } else if routes.last().task_id@ == id {
        Some(routes.last().route)
    } else {
        route_of(routes.drop_last(), id)
    }
}

/// The code with which a task counts as ended; a task that runs has none.
pub open spec fn end_code(status: BashTaskStatus) -> Option<i32> {
    match status {
        BashTaskStatus::Finished { exit_code } => Some(exit_code),
        BashTaskStatus::Stopped => Some(-1i32),
        BashTaskStatus::Running => None,
    }
}

/// Whether the next turn is told of the end of a task: it was not seen before, and nobody else tells.
pub open spec fn is_news(book: CompletionBook, id: Seq<char>) -> bool {
    !texts(book.seen@).contains(id) && !(route_of(book.routes@, id) is Some && (route_of(
        book.routes@,
        id,
    )->0 is ToolWillDeliver || route_of(book.routes@, id)->0 is Delivered))
}

impl CompletionBook {
    /// An empty book.
    pub fn new() -> (r: CompletionBook)
        ensures
            r.seen@.len() == 0,
            r.routes@.len() == 0,
    {
        CompletionBook { seen: Vec::new(), routes: Vec::new() }
    }

    fn has_seen(&self, id: &str) -> (r: bool)
        ensures
            r == texts(self.seen@).contains(id@),
    {
        let ghost all = texts(self.seen@);
        let mut i: usize = 0;
        while i < self.seen.len()
            invariant
                i <= self.seen@.len(),
                all == texts(self.seen@),
                forall|j: int| 0 <= j < i ==> (#[trigger] all[j]) != id@,
            decreases self.seen@.len() - i,
        {
            assert(all[i as int] == self.seen@[i as int]@);
            if same(self.seen[i].as_str(), id) {
                return true;
            }
            i = i + 1;
        }
        false
    }

    /// Who tells of a task.
    pub fn route(&self, id: &str) -> (r: Option<CompletionRoute>)
        ensures
            r == route_of(self.routes@, id@),
    {
        let mut n: usize = self.routes.len();
        assert(self.routes@.take(n as int) =~= self.routes@);
        while n > 0
            invariant
                n <= self.routes@.len(),
                route_of(self.routes@.take(n as int), id@) == route_of(self.routes@, id@),
            decreases n,
        {
            assert(self.routes@.take(n as int).drop_last() =~= self.routes@.take(n - 1));
            assert(self.routes@.take(n as int).last() == self.routes@[n - 1]);
            if same(self.routes[n - 1].task_id.as_str(), id) {
                return Some(self.routes[n - 1].route);
            }
            n = n - 1;
        }
        None
    }

    /// Writes down who tells of a task.
    pub fn set_route(&mut self, id: &str, route: CompletionRoute)
        ensures
            final(self).seen == old(self).seen,
            remembers(*final(self), *old(self)),
            route_of(final(self).routes@, id@) == Some(route),
            forall|other: Seq<char>|
                other != id@ ==> #[trigger] route_of(final(self).routes@, other) == route_of(
                    old(self).routes@,
                    other,
                ),
    {
        let ghost before = self.routes@;
        self.routes.push(TaskRoute { task_id: id.to_owned(), route });
        assert(self.routes@.drop_last() =~= before);
    }

    /// Takes the end of a task: the code to tell the next turn, if that is to be told. The end is
    /// seen from now on, and where the next turn is the one to be told, nobody else is. It is never
    /// told again.
    pub fn take_end(&mut self, id: &str, status: BashTaskStatus) -> (r: Option<i32>)
        ensures
            !is_news(*final(self), id@),
            remembers(*final(self), *old(self)),
            texts(final(self).seen@).contains(id@),
            r == (if is_news(*old(self), id@) {
                end_code(status)
            } else {
                None
            }),
            texts(final(self).seen@) == (if texts(old(self).seen@).contains(id@) {
                texts(old(self).seen@)
            } else {
                texts(old(self).seen@).push(id@)
            }),
            route_of(final(self).routes@, id@) == (if is_news(*old(self), id@) {
                Some(CompletionRoute::Delivered)
            } else {
                route_of(old(self).routes@, id@)
            }),
            forall|other: Seq<char>|
                other != id@ ==> #[trigger] route_of(final(self).routes@, other) == route_of(
                    old(self).routes@,
                    other,
                ),
    {
        let ghost before = texts(self.seen@);
        if self.has_seen(id) {
            return None;
        }
        push_text(&mut self.seen, id.to_owned());
        proof {
            let after = texts(self.seen@);
            assert(after[before.len() as int] == id@);
            assert forall|other: Seq<char>| before.contains(other) implies #[trigger] after.contains(
                other,
            ) by {
                let i = choose|i: int| 0 <= i < before.len() && before[i] == other;
                assert(after[i] == other);
            }
        }
        match self.route(id) {
            Some(CompletionRoute::ToolWillDeliver) => {
                return None;
            },
            Some(CompletionRoute::Delivered) => {
                return None;
            },
            _ => {},
        }
        self.set_route(id, CompletionRoute::Delivered);
        match status {
            BashTaskStatus::Finished { exit_code } => Some(exit_code),
            BashTaskStatus::Stopped => Some(-1i32),
            BashTaskStatus::Running => None,
        }
    }
}

/// What the next turn is told.
pub open spec fn completion_message(
    id: Seq<char>,
    code: int,
    log_path: Seq<char>,
    command: Seq<char>,
    tail: Seq<char>,
) -> Seq<char> {
    "<background-task-finished task_id=\""@ + id + "\" exit_code=\""@ + signed_decimal(code)
        + "\" log_path=\""@ + log_path + "\" command=\""@ + replaced(command, "\""@, "\\\""@)
        + "\">\n"@ + tail + "\n</background-task-finished>"@
}

/// What the next turn is told of a task: its end, and the end of its log.
pub fn completion_text(id: &str, exit_code: i32, log_path: &str, command: &str, tail: &str) -> (r:
    String)
    ensures
        r@ == completion_message(id@, exit_code as int, log_path@, command@, tail@),
{
    proof {
        reveal_strlit("\"");
    }
    let mut s = cat("<background-task-finished task_id=\"", id);
    s.append("\" exit_code=\"");
    s.append(decimal_i32(exit_code).as_str());
    s.append("\" log_path=\"");
    s.append(log_path);
    s.append("\" command=\"");
    s.append(replace(command, "\"", "\\\"").as_str());
    s.append("\">\n");
    s.append(tail);
    s.append("\n</background-task-finished>");
    s
}

/// What the user is told of a task.
pub fn completion_notice(id: &str, exit_code: i32) -> (r: String)
    ensures
        r@ == "\n[bg] task "@ + id@ + " finished (exit="@ + signed_decimal(exit_code as int)
            + "); queued for next turn."@,
{
    cat5(
        "\n[bg] task ",
        id,
        " finished (exit=",
        decimal_i32(exit_code).as_str(),
        "); queued for next turn.",
    )
}

// ---------------------------------------------------------------- laws

/// Whether a book is what another became by tasks that ended and by what was written down of who
/// tells: what was seen stays seen.
pub open spec fn remembers(later: CompletionBook, book: CompletionBook) -> bool {
    forall|id: Seq<char>|
        texts(book.seen@).contains(id) ==> #[trigger] texts(later.seen@).contains(id)
}

/// No task is told of twice: once its end was seen, it is no news in any book that remembers it.
pub proof fn law_no_task_is_told_twice(book: CompletionBook, later: CompletionBook, id: Seq<char>)
    requires
        texts(book.seen@).contains(id),
        remembers(later, book),
    ensures
        !is_news(later, id),
{
    assert(texts(later.seen@).contains(id));
}

/// The route that was noted last for a task counts, and one for another task does not.
pub proof fn law_last_route_counts(routes: Seq<TaskRoute>, item: TaskRoute, id: Seq<char>)
    ensures
        route_of(Seq::<TaskRoute>::empty(), id) is None,
        item.task_id@ == id ==> route_of(routes.push(item), id) == Some(item.route),
        item.task_id@ != id ==> route_of(routes.push(item), id) == route_of(routes, id),
{
    assert(routes.push(item).drop_last() =~= routes);
}

/// The end of a task is news exactly if it was not seen and no tool tells of it; a task that runs has no end,
/// one that was stopped counts as failed, and any other ends with its own code.
pub proof fn law_what_is_news(book: CompletionBook, id: Seq<char>, status: BashTaskStatus)
    ensures
        is_news(book, id) <==> !texts(book.seen@).contains(id) && route_of(book.routes@, id) != Some(
            CompletionRoute::ToolWillDeliver,
        ) && route_of(book.routes@, id) != Some(CompletionRoute::Delivered),
        status is Running <==> end_code(status) is None,
        status matches BashTaskStatus::Finished { exit_code } ==> end_code(status) == Some(exit_code),
        status is Stopped ==> end_code(status) == Some(-1i32),
{
}

/// The message of a task that ended names the task, its code and its log, and holds the end of what it wrote,
/// in full.
#[verifier::rlimit(40)]
#[verifier::spinoff_prover]
pub proof fn law_messages_tell_the_task(
    id: Seq<char>,
    code: int,
    log: Seq<char>,
    command: Seq<char>,
    tail: Seq<char>,
)
    ensures
        crate::search::has_prefix(
            completion_message(id, code, log, command, tail),
            "<background-task-finished task_id=\""@ + id + "\" exit_code=\""@ + signed_decimal(code)
                + "\" log_path=\""@ + log + "\" command=\""@,
        ),
        crate::search::has_suffix(
            completion_message(id, code, log, command, tail),
            "\">\n"@ + tail + "\n</background-task-finished>"@,
        ),
        !crate::search::has_text(command, "\""@) ==> crate::search::has_text(
            completion_message(id, code, log, command, tail),
            command,
        ),
{
    let head = "<background-task-finished task_id=\""@ + id + "\" exit_code=\""@ + signed_decimal(code)
        + "\" log_path=\""@ + log + "\" command=\""@;
    let shown = replaced(command, "\""@, "\\\""@);
    let end = "\">\n"@ + tail + "\n</background-task-finished>"@;
    let all = completion_message(id, code, log, command, tail);
    assert(all =~= head + shown + end);
    assert(all.subrange(0, head.len() as int) =~= head);
    assert(all.subrange(all.len() - end.len(), all.len() as int) =~= end);
    if !crate::search::has_text(command, "\""@) {
        crate::search::lemma_next_text(command, "\""@, 0);
        assert(shown == command);
        crate::search::lemma_text_in_itself(command);
        crate::search::lemma_text_within(head, command, end, command);
    }
}

} // verus!
