//! The board that shows todos after each change.

use vstd::prelude::*;
use vstd::string::*;

use crate::numerals::{decimal_u64, decimal_usize};
#[allow(unused_imports)]
use crate::numerals::decimal;
use crate::plan_runtime::file_store::TodoItem;
#[allow(unused_imports)]
use crate::plan_runtime::file_store::status_mark;
use crate::plan_runtime::ops::active_in_progress;
#[allow(unused_imports)]
use crate::plan_runtime::ops::running_id;
use crate::text::{cat, one_text, push_text};
#[allow(unused_imports)]
use crate::text::texts;

verus! {

/// What the board shows after a change.
#[derive(Clone, Debug, PartialEq, Eq)]
pub struct TodosPanelSnapshot {
    /// Grows with every change: a board leaves a smaller one out.
    pub panel_snapshot_id: u64,
    /// `session`, or `plan:` and the plan.
    pub scope: String,
    pub items: Vec<TodoItem>,
    pub warnings: Vec<String>,
}

impl TodosPanelSnapshot {
    /// The todos of a session.
    pub fn new_session(items: Vec<TodoItem>, panel_snapshot_id: u64) -> (r: TodosPanelSnapshot)
        ensures
            r.panel_snapshot_id == panel_snapshot_id,
            r.scope@ == "session"@,
            r.items == items,
            r.warnings@.len() == 0,
    {
        TodosPanelSnapshot {
            panel_snapshot_id,
            scope: "session".to_owned(),
            items,
            warnings: Vec::new(),
        }
    }

    /// The todos of a plan.
    pub fn new_plan(plan_id: &str, items: Vec<TodoItem>, panel_snapshot_id: u64) -> (r: TodosPanelSnapshot)
        ensures
            r.panel_snapshot_id == panel_snapshot_id,
            r.scope@ == "plan:"@ + plan_id@,
            r.items == items,
            r.warnings@.len() == 0,
    {
        TodosPanelSnapshot {
            panel_snapshot_id,
            scope: cat("plan:", plan_id),
            items,
            warnings: Vec::new(),
        }
    }
}

/// How many snapshots a process has numbered, and the last number.
#[derive(Clone, Copy, Debug, PartialEq, Eq, Structural)]
pub struct PanelSequence {
    pub next: u64,
    pub last: Option<u64>,
}

impl PanelSequence {
    /// No snapshot is numbered yet.
    pub fn new() -> (r: PanelSequence)
        ensures
            r.next == 0,
            r.last is None,
    {
        PanelSequence { next: 0, last: None }
    }

    /// The last number.
    pub open spec fn last_number(self) -> Option<nat> {
        match self.last {
            Some(n) => Some(n as nat),
            None => None,
        }
    }
}

/// The time `now_ms` and the count `seq` in the process, as one number, or the largest number that
/// there is.
pub open spec fn stamped(now_ms: nat, seq: nat) -> nat {
    if now_ms * 1_000_000 + seq <= u64::MAX {
        now_ms * 1_000_000 + seq
    } else {
        u64::MAX as nat
    }
}

/// The number of the snapshot that is the `seq`th of the process, at the time `now_ms` and behind
/// the number `last`: the time and the count, or one more than the last if the clock went back.
pub open spec fn snapshot_number(now_ms: nat, seq: nat, last: Option<nat>) -> nat {
    match last {
        Some(l) => if l >= stamped(now_ms, seq) {
            l + 1
        } else {
            stamped(now_ms, seq)
        },
        None => stamped(now_ms, seq),
    }
}

/// The number of the next snapshot, which is larger than those before. The largest number of all has
/// none behind it.
pub fn next_panel_snapshot_id(sequence: &mut PanelSequence, now_ms: u64) -> (r: u64)
    requires
        old(sequence).last != Some(u64::MAX),
    ensures
        r == snapshot_number(
            now_ms as nat,
            old(sequence).next as nat,
            old(sequence).last_number(),
        ),
        old(sequence).last matches Some(l) ==> r > l,
        final(sequence).next == (if old(sequence).next < u64::MAX {
            old(sequence).next + 1
        } else {
            u64::MAX as int
        }),
        final(sequence).last == Some(r),
{
    let seq: u64 = sequence.next;
    sequence.next = seq.saturating_add(1);
    let scaled: u64 = match now_ms.checked_mul(1_000_000) {
        Some(n) => n,
        None => u64::MAX,
    };
    let mut id: u64 = scaled.saturating_add(seq);
    if let Some(l) = sequence.last {
        if l >= id {
            id = l + 1;
        }
    }
    sequence.last = Some(id);
    id
}

/// The numbers of the snapshots that a process takes at these times, one after the other, from the
/// `first`th on.
pub open spec fn snapshot_numbers(times: Seq<nat>, first: nat) -> Seq<nat>
    decreases times.len(),
{
    if times.len() == 0 {
        Seq::empty()
    } else {
        let before = snapshot_numbers(times.drop_last(), first);
        before.push(
            snapshot_number(
                times.last(),
                first + before.len(),
                if before.len() == 0 {
                    None
                } else {
                    Some(before.last())
                },
            ),
        )
    }
}

/// The numbers of snapshots grow from one to the next, whatever the clock says.
pub proof fn law_snapshot_numbers_grow(times: Seq<nat>, first: nat)
    ensures
        snapshot_numbers(times, first).len() == times.len(),
        forall|i: int, j: int|
            0 <= i < j < times.len() ==> #[trigger] snapshot_numbers(times, first)[i]
                < #[trigger] snapshot_numbers(times, first)[j],
    decreases times.len(),
{
    if times.len() > 0 {
        law_snapshot_numbers_grow(times.drop_last(), first);
        let before = snapshot_numbers(times.drop_last(), first);
        let all = snapshot_numbers(times, first);
        assert forall|i: int, j: int| 0 <= i < j < times.len() implies #[trigger] all[i]
            < #[trigger] all[j] by {
            assert(all[i] == before[i]);
            if j < before.len() {
                assert(all[j] == before[j]);
            } else if i < before.len() - 1 {
                assert(before[i] < before[before.len() - 1]);
            }
        }
    }
}

/// The id of the todo in progress, or a dash.
pub open spec fn running_or_dash(items: Seq<TodoItem>) -> Seq<char> {
    match running_id(items) {
        Some(id) => id,
        None => "-"@,
    }
}

/// The first line of the board.
pub open spec fn panel_header(s: TodosPanelSnapshot) -> Seq<char> {
    "[panel#"@ + decimal(s.panel_snapshot_id as nat) + "] "@ + s.scope@ + " items="@ + decimal(
        s.items@.len(),
    ) + " in_progress="@ + running_or_dash(s.items@)
}

/// The first line of the board.
pub fn render_cli_panel_header(snapshot: &TodosPanelSnapshot) -> (r: String)
    ensures
        r@ == panel_header(*snapshot),
{
    let mut out = cat("[panel#", decimal_u64(snapshot.panel_snapshot_id).as_str());
    out.append("] ");
    out.append(snapshot.scope.as_str());
    out.append(" items=");
    out.append(decimal_usize(snapshot.items.len()).as_str());
    out.append(" in_progress=");
    match active_in_progress(&snapshot.items) {
        Some(id) => out.append(id.as_str()),
        None => out.append("-"),
    }
    out
}

/// The line of one todo on the board.
pub open spec fn panel_row(t: TodoItem) -> Seq<char> {
    "  ["@ + status_mark(t.status) + "] "@ + t.id@ + " ▸ "@ + t.content@
}

/// The lines of the board.
pub open spec fn panel_lines(s: TodosPanelSnapshot) -> Seq<Seq<char>> {
    seq![panel_header(s)] + s.items@.map_values(|t: TodoItem| panel_row(t)) + s.warnings@.map_values(
        |w: String| "  ⚠ "@ + w@,
    )
}

/// Something that shows the board: it returns the lines to be written.
pub trait TodosPanel {
    /// Shows a snapshot.
    fn refresh(&self, snapshot: &TodosPanelSnapshot) -> Vec<String>;
}

/// Hands each snapshot to all the boards that asked for it.
pub struct RefreshNotifier<P> {
    pub panels: Vec<P>,
}

impl<P: TodosPanel> RefreshNotifier<P> {
    /// A notifier that no board has asked yet.
    pub fn new() -> (r: RefreshNotifier<P>)
        ensures
            r.panels@.len() == 0,
    {
        RefreshNotifier { panels: Vec::new() }
    }

    /// Adds a board behind those that are there.
    pub fn register(&mut self, panel: P)
        ensures
            final(self).panels@ == old(self).panels@.push(panel),
    {
        self.panels.push(panel);
    }

    /// Has each board show a snapshot once, in the order in which they asked; the result is the
    /// lines of each.
    pub fn notify(&self, snapshot: &TodosPanelSnapshot) -> (r: Vec<Vec<String>>)
        ensures
            r@.len() == self.panels@.len(),
            forall|i: int|
                0 <= i < r@.len() ==> call_ensures(
                    P::refresh,
                    (&self.panels@[i], snapshot),
                    #[trigger] r@[i],
                ),
    {
        let mut out: Vec<Vec<String>> = Vec::new();
        let mut i: usize = 0;
        while i < self.panels.len()
            invariant
                i <= self.panels@.len(),
                out@.len() == i,
                forall|k: int|
                    0 <= k < i ==> call_ensures(
                        P::refresh,
                        (&self.panels@[k], snapshot),
                        #[trigger] out@[k],
                    ),
            decreases self.panels@.len() - i,
        {
            out.push(self.panels[i].refresh(snapshot));
            i = i + 1;
        }
        out
    }
}

impl<P: TodosPanel> Default for RefreshNotifier<P> {
    fn default() -> (r: RefreshNotifier<P>)
        ensures
            r.panels@.len() == 0,
    {
        RefreshNotifier::new()
    }
}

/// A board that shows nothing.
#[derive(Clone, Copy, Debug, PartialEq, Eq)]
pub struct NoopTodosPanel;

impl TodosPanel for NoopTodosPanel {
    fn refresh(&self, snapshot: &TodosPanelSnapshot) -> (r: Vec<String>)
        ensures
            r@.len() == 0,
    {
        Vec::new()
    }
}

/// A board on the terminal.
#[derive(Clone, Copy, Debug, PartialEq, Eq)]
pub struct CliTodosPanel;

impl TodosPanel for CliTodosPanel {
    fn refresh(&self, snapshot: &TodosPanelSnapshot) -> (r: Vec<String>)
        ensures
            texts(r@) == panel_lines(*snapshot),
    {
        let mut out = one_text(render_cli_panel_header(snapshot));
        let ghost head = texts(out@);
        let ghost rows = snapshot.items@.map_values(|t: TodoItem| panel_row(t));
        let mut i: usize = 0;
        assert(head + rows.take(0) =~= head);
        while i < snapshot.items.len()
            invariant
                i <= snapshot.items@.len(),
                rows == snapshot.items@.map_values(|t: TodoItem| panel_row(t)),
                texts(out@) == head + rows.take(i as int),
            decreases snapshot.items@.len() - i,
        {
            let t = &snapshot.items[i];
            let mut line = cat("  [", t.status.mark());
            line.append("] ");
            line.append(t.id.as_str());
            line.append(" ▸ ");
            line.append(t.content.as_str());
            push_text(&mut out, line);
            assert(texts(out@) =~= head + rows.take(i + 1));
            i = i + 1;
        }
        assert(rows.take(rows.len() as int) =~= rows);
        let ghost mid = texts(out@);
        let ghost warned = snapshot.warnings@.map_values(|w: String| "  ⚠ "@ + w@);
        let mut k: usize = 0;
        assert(mid + warned.take(0) =~= mid);
        while k < snapshot.warnings.len()
            invariant
                k <= snapshot.warnings@.len(),
                warned == snapshot.warnings@.map_values(|w: String| "  ⚠ "@ + w@),
                texts(out@) == mid + warned.take(k as int),
            decreases snapshot.warnings@.len() - k,
        {
            push_text(&mut out, cat("  ⚠ ", snapshot.warnings[k].as_str()));
            assert(texts(out@) =~= mid + warned.take(k + 1));
            k = k + 1;
        }
        assert(warned.take(warned.len() as int) =~= warned);
        out
    }
}

/// The board shows every todo in its place, marked with its status, and below them every warning.
pub proof fn law_board_shows_every_todo(s: TodosPanelSnapshot, i: int, k: int)
    ensures
        panel_lines(s).len() == 1 + s.items@.len() + s.warnings@.len(),
        panel_lines(s)[0] == panel_header(s),
        0 <= i < s.items@.len() ==> panel_lines(s)[i + 1] == "  ["@ + status_mark(s.items@[i].status)
            + "] "@ + s.items@[i].id@ + " ▸ "@ + s.items@[i].content@,
        0 <= k < s.warnings@.len() ==> panel_lines(s)[1 + s.items@.len() + k] == "  ⚠ "@
            + s.warnings@[k]@,
{
}

/// The head of the board tells the number of the snapshot, whose todos they are, how many there are and
/// which one is in progress.
pub proof fn law_board_head_tells_the_numbers(s: TodosPanelSnapshot)
    ensures
        crate::search::has_prefix(
            panel_header(s),
            "[panel#"@ + decimal(s.panel_snapshot_id as nat) + "] "@ + s.scope@ + " items="@ + decimal(
                s.items@.len(),
            ),
        ),
        running_id(s.items@) matches Some(id) ==> crate::search::has_suffix(
            panel_header(s),
            " in_progress="@ + id,
        ),
        running_id(s.items@) is None ==> crate::search::has_suffix(panel_header(s), " in_progress="@ + "-"@),
{
    let head = "[panel#"@ + decimal(s.panel_snapshot_id as nat) + "] "@ + s.scope@ + " items="@ + decimal(
        s.items@.len(),
    );
    let tail = " in_progress="@ + running_or_dash(s.items@);
    let all = panel_header(s);
    assert(all =~= head + tail);
    assert(all.subrange(0, head.len() as int) =~= head);
    assert(all.subrange(all.len() - tail.len(), all.len() as int) =~= tail);
}

} // verus!
