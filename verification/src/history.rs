//! The undo timeline.
use vstd::prelude::*;

use crate::stack::{Stack, StackView};
use crate::text::number;

verus! {

/// A snapshot of the stack state at a point in time,
/// along with the git HEAD hash so undo/redo can restore git history.
#[derive(Debug)]
pub struct HistoryEntry {
    pub description: String,
    pub snapshot: Stack,
    /// The git HEAD commit hash at this point in time.
    /// Used by undo/redo to `git reset --hard` back to this state.
    pub head_hash: String,
    /// When the state was recorded, in seconds since the Unix epoch.
    pub timestamp: i64,
}

/// An entry of the timeline as it is seen in contracts.
#[verifier::ext_equal]
pub struct EntryView {
    pub description: Seq<char>,
    pub snapshot: StackView,
    pub head_hash: Seq<char>,
    pub timestamp: i64,
}

impl View for HistoryEntry {
    type V = EntryView;

    open spec fn view(&self) -> EntryView {
        EntryView {
            description: self.description@,
            snapshot: self.snapshot@,
            head_hash: self.head_hash@,
            timestamp: self.timestamp,
        }
    }
}

/// Maintains an undo/redo history as a timeline of stack states.
///
/// entries[0] is the initial state, entries[cursor] is the current state.
/// Undo decrements cursor, redo increments it.
pub struct History {
    entries: Vec<HistoryEntry>,
    /// Index of the current state in entries.
    cursor: usize,
    max_entries: usize,
}

/// The timeline as it is seen in contracts.
#[verifier::ext_equal]
pub struct HistoryView {
    pub entries: Seq<EntryView>,
    pub cursor: nat,
    pub max_entries: nat,
}

/// The entries that a vector holds.
pub open spec fn entry_views(v: Seq<HistoryEntry>) -> Seq<EntryView> {
    v.map_values(|e: HistoryEntry| e@)
}

impl View for History {
    type V = HistoryView;

    closed spec fn view(&self) -> HistoryView {
        HistoryView {
            entries: entry_views(self.entries@),
            cursor: self.cursor as nat,
            max_entries: self.max_entries as nat,
        }
    }
}

impl HistoryView {
    /// The cursor is at an entry, if there is one.
    pub open spec fn wf(self) -> bool {
        if self.entries.len() == 0 {
            self.cursor == 0
        } else {
            self.cursor < self.entries.len()
        }
    }

    /// The timeline without entries.
    pub open spec fn fresh(max_entries: nat) -> HistoryView {
        HistoryView { entries: seq![], cursor: 0, max_entries }
    }

    /// What is done up to the current state.
    pub open spec fn past(self) -> Seq<EntryView> {
        if self.entries.len() == 0 {
            seq![]
        } else {
            self.entries.take(self.cursor as int + 1)
        }
    }

    /// The timeline after one more operation: what could be redone is gone, the new
    /// state is the current one, and the oldest state gives way if there are too many.
    pub open spec fn pushed(self, e: EntryView) -> HistoryView {
        let all = self.past().push(e);
        let kept = if all.len() > self.max_entries {
            all.drop_first()
        } else {
            all
        };
        HistoryView { entries: kept, cursor: (kept.len() - 1) as nat, ..self }
    }

    /// Whether there is a state before the current one.
    pub open spec fn undoable(self) -> bool {
        self.entries.len() > 0 && self.cursor > 0
    }

    /// Whether there is a state after the current one.
    pub open spec fn redoable(self) -> bool {
        self.entries.len() > 0 && self.cursor + 1 < self.entries.len()
    }

    /// The timeline with the previous state as the current one.
    pub open spec fn undone(self) -> HistoryView {
        if self.undoable() {
            HistoryView { cursor: (self.cursor - 1) as nat, ..self }
        } else {
            self
        }
    }

    /// The timeline with the next state as the current one.
    pub open spec fn redone(self) -> HistoryView {
        if self.redoable() {
            HistoryView { cursor: self.cursor + 1, ..self }
        } else {
            self
        }
    }

    /// The current state.
    pub open spec fn current(self) -> EntryView {
        self.entries[self.cursor as int]
    }
}

/// The first second that a date can be made of.
pub const FIRST_SECOND: i64 = -8334601228800;

/// The last second that a date can be made of.
pub const LAST_SECOND: i64 = 8210266876799;

/// The time of day of a second since the Unix epoch, as hours, minutes and seconds.
pub open spec fn clock(secs: int) -> Seq<char> {
    let day = secs % 86400;
    number::dec2((day / 3600) as nat) + ":"@ + number::dec2((day % 3600 / 60) as nat) + ":"@
        + number::dec2((day % 60) as nat)
}

/// The time of day that is shown for an entry.
pub open spec fn shown_clock(secs: int) -> Seq<char> {
    if FIRST_SECOND <= secs <= LAST_SECOND {
        clock(secs)
    } else {
        seq![]
    }
}

/// `chrono::Utc::now`, as seconds since the Unix epoch. Nothing is promised of the
/// time that it tells.
#[verifier::external_body]
fn unix_now() -> i64 {
    chrono::Utc::now().timestamp()
}

/// `chrono::DateTime::from_timestamp` makes a date of every second from
/// `FIRST_SECOND` to `LAST_SECOND` and of no other; `format` with `%H:%M:%S` writes
/// its hour, minute and second in UTC, each with two digits.
#[verifier::external_body]
fn format_clock(secs: i64) -> (r: Option<String>)
    ensures
        r is Some <==> FIRST_SECOND <= secs <= LAST_SECOND,
        r matches Some(t) ==> t@ == clock(secs as int),
{
    chrono::DateTime::from_timestamp(secs, 0).map(|t| t.format("%H:%M:%S").to_string())
}

/// The time of day that is shown for an entry recorded at `secs`.
pub fn clock_text(secs: i64) -> (r: String)
    ensures
        r@ == shown_clock(secs as int),
{
    match format_clock(secs) {
        Some(t) => t,
        None => String::new(),
    }
}

impl History {
    /// An empty timeline that keeps up to `max_entries` states.
    pub fn new(max_entries: usize) -> (r: History)
        ensures
            r@ == HistoryView::fresh(max_entries as nat),
            r@.wf(),
    {
        let r = History { entries: Vec::new(), cursor: 0, max_entries };
        proof {
            assert(r@.entries =~= Seq::<EntryView>::empty());
        }
        r
    }

    /// Record a new state after an operation, as of now.
    /// `head_hash` is the current git HEAD so we can restore it on undo.
    pub fn push(&mut self, description: &str, stack: &Stack, head_hash: &str)
        requires
            old(self)@.wf(),
            old(self)@.max_entries > 0,
        ensures
            final(self)@.wf(),
            final(self)@ == old(self)@.pushed(
                (EntryView {
                    description: description@,
                    snapshot: stack@,
                    head_hash: head_hash@,
                    timestamp: final(self)@.current().timestamp,
                }),
            ),
    {
        let now = unix_now();
        self.push_at(description, stack, head_hash, now);
    }

    /// Record a new state after an operation, with the time at which it was reached.
    pub fn push_at(&mut self, description: &str, stack: &Stack, head_hash: &str, timestamp: i64)
        requires
            old(self)@.wf(),
            old(self)@.max_entries > 0,
        ensures
            final(self)@.wf(),
            final(self)@ == old(self)@.pushed(
                (EntryView {
                    description: description@,
                    snapshot: stack@,
                    head_hash: head_hash@,
                    timestamp,
                }),
            ),
            final(self)@.current().timestamp == timestamp,
    {
        let ghost before = self@;
        // If cursor isn't at the end, discard redo-able future
        if self.entries.len() > 0 {
            self.entries.truncate(self.cursor + 1);
        }
        proof {
            assert(entry_views(self.entries@) =~= before.past());
        }
        let entry = HistoryEntry {
            description: description.to_owned(),
            snapshot: stack.clone(),
            head_hash: head_hash.to_owned(),
            timestamp,
        };
        let ghost e = entry@;
        self.entries.push(entry);
        let ghost all = before.past().push(e);
        proof {
            assert(entry_views(self.entries@) =~= all);
        }
        self.cursor = self.entries.len() - 1;

        // Enforce max entries by evicting from the front
        if self.entries.len() > self.max_entries {
            let _oldest = self.entries.remove(0);
            proof {
                assert(entry_views(self.entries@) =~= all.drop_first());
            }
            self.cursor = self.entries.len() - 1;
        }
    }

    /// Undo: move to the previous state.
    /// Returns (stack, head_hash) or None if at the beginning.
    pub fn undo(&mut self) -> (r: Option<(&Stack, &str)>)
        requires
            old(self)@.wf(),
        ensures
            final(self)@.wf(),
            final(self)@ == old(self)@.undone(),
            r is Some <==> old(self)@.undoable(),
            r matches Some((s, h)) ==> s@ == old(self)@.undone().current().snapshot && h@ == old(
                self,
            )@.undone().current().head_hash,
    {
        if self.cursor == 0 || self.entries.len() == 0 {
            return None;
        }
        self.cursor = self.cursor - 1;
        let entry = &self.entries[self.cursor];
        Some((&entry.snapshot, entry.head_hash.as_str()))
    }

    /// Redo: move to the next state.
    /// Returns (stack, head_hash) or None if at the end.
    pub fn redo(&mut self) -> (r: Option<(&Stack, &str)>)
        requires
            old(self)@.wf(),
        ensures
            final(self)@.wf(),
            final(self)@ == old(self)@.redone(),
            r is Some <==> old(self)@.redoable(),
            r matches Some((s, h)) ==> s@ == old(self)@.redone().current().snapshot && h@ == old(
                self,
            )@.redone().current().head_hash,
    {
        if self.entries.len() == 0 || self.cursor >= self.entries.len() - 1 {
            return None;
        }
        self.cursor = self.cursor + 1;
        let entry = &self.entries[self.cursor];
        Some((&entry.snapshot, entry.head_hash.as_str()))
    }

    /// List all history entries for display.
    pub fn list(&self) -> (r: &[HistoryEntry])
        ensures
            entry_views(r@) == self@.entries,
    {
        self.entries.as_slice()
    }

    /// Which entry is the current state.
    pub fn position(&self) -> (r: usize)
        ensures
            r == self@.cursor,
    {
        self.cursor
    }

    /// How many states are kept.
    pub fn total(&self) -> (r: usize)
        ensures
            r == self@.entries.len(),
    {
        self.entries.len()
    }

    /// Whether there is a state before the current one.
    pub fn can_undo(&self) -> (r: bool)
        ensures
            r == self@.undoable(),
    {
        self.entries.len() > 0 && self.cursor > 0
    }

    /// The current state, if there is one.
    pub fn current(&self) -> (r: Option<&HistoryEntry>)
        requires
            self@.wf(),
        ensures
            r is Some <==> self@.entries.len() > 0,
            r matches Some(e) ==> e@ == self@.current(),
    {
        if self.entries.len() == 0 {
            None
        } else {
            Some(&self.entries[self.cursor])
        }
    }
}

/// Redo takes back an undo.
pub proof fn law_undo_redo(h: HistoryView)
    requires
        h.wf(),
        h.undoable(),
    ensures
        h.undone().redoable(),
        h.undone().redone() == h,
{
}

/// Undo takes back a redo.
pub proof fn law_redo_undo(h: HistoryView)
    requires
        h.wf(),
        h.redoable(),
    ensures
        h.redone().undoable(),
        h.redone().undone() == h,
{
}

/// After an operation the new state is the current one, and nothing can be redone.
pub proof fn law_push_is_current(h: HistoryView, e: EntryView)
    requires
        h.wf(),
        h.max_entries > 0,
    ensures
        h.pushed(e).wf(),
        h.pushed(e).current() == e,
        !h.pushed(e).redoable(),
{
}

/// Undoing right after an operation goes back to the state before it, as long as
/// the timeline keeps more than one state.
pub proof fn law_push_undo(h: HistoryView, e: EntryView)
    requires
        h.wf(),
        h.entries.len() > 0,
        h.max_entries > 1,
    ensures
        h.pushed(e).undoable(),
        h.pushed(e).undone().current() == h.current(),
{
}

/// A timeline that is no longer than its limit stays so, and an operation loses no
/// state up to the current one unless the limit is reached: then only the oldest.
pub proof fn law_push_keeps(h: HistoryView, e: EntryView)
    requires
        h.wf(),
        h.max_entries > 0,
        h.entries.len() <= h.max_entries,
    ensures
        h.pushed(e).entries.len() <= h.max_entries,
        h.past().len() < h.max_entries ==> h.pushed(e).entries == h.past().push(e),
        h.past().len() == h.max_entries ==> h.pushed(e).entries == h.past().drop_first().push(e),
{
    let all = h.past().push(e);
    if h.past().len() == h.max_entries {
        assert(all.drop_first() =~= h.past().drop_first().push(e));
    }
}

} // verus!
