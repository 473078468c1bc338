//! The state of the front end, and what its operations do to it.
use vstd::prelude::*;

use crate::forge::{Forge, ForgeView};
use crate::history::{EntryView, History, HistoryView};
use crate::stack;
use crate::stack::{PatchEntry, PatchStatus, PatchView, Stack, StackView};
use crate::text::bytes;
use crate::text::bytes::{cut_text, longer_than};
use crate::text::chars::{concat2, concat3, concat5, same};
use crate::text::number;
use crate::text::number::decimal;
use crate::text::pieces;
use crate::text::pieces::{joined, lines_of};
use crate::text::views;

verus! {

broadcast use views::group_views;

/// Why the TUI is being suspended.
pub enum SuspendReason {
    InsertAtHead,
    InsertAfterCursor { hash: String },
    EditCommit { hash: String },
    /// Squash commits: edit the message first, then perform git squash.
    SquashCommits {
        /// Short hashes of commits to squash (first = target, rest = folded in)
        hashes: Vec<String>,
        default_body: String,
        /// Forge-specific trailers to preserve from squashed commits
        trailers: Vec<String>,
    },
    /// Submit a commit as a PR — opens editor for PR description first
    SubmitCommit { hash: String, subject: String, cursor_index: usize },
    /// Update an existing PR — force-push and update base
    UpdatePR { hash: String, subject: String, cursor_index: usize },
    RebaseConflict,
    /// Sync all submitted PRs — suspend TUI to show progress
    SyncPRs,
    /// Pull remote changes into local commits — suspend TUI
    PullRemote,
    /// Rebase onto base — suspend TUI to show progress
    Rebase,
}

/// Why the TUI is being suspended, as it is seen in contracts.
#[verifier::ext_equal]
pub enum SuspendView {
    InsertAtHead,
    InsertAfterCursor { hash: Seq<char> },
    EditCommit { hash: Seq<char> },
    SquashCommits {
        hashes: Seq<Seq<char>>,
        default_body: Seq<char>,
        trailers: Seq<Seq<char>>,
    },
    SubmitCommit { hash: Seq<char>, subject: Seq<char>, cursor_index: usize },
    UpdatePR { hash: Seq<char>, subject: Seq<char>, cursor_index: usize },
    RebaseConflict,
    SyncPRs,
    PullRemote,
    Rebase,
}

impl View for SuspendReason {
    type V = SuspendView;

    open spec fn view(&self) -> SuspendView {
        match *self {
            SuspendReason::InsertAtHead => SuspendView::InsertAtHead,
            SuspendReason::InsertAfterCursor { hash } => SuspendView::InsertAfterCursor {
                hash: hash@,
            },
            SuspendReason::EditCommit { hash } => SuspendView::EditCommit { hash: hash@ },
            SuspendReason::SquashCommits { hashes, default_body, trailers } => {
                SuspendView::SquashCommits {
                    hashes: views::strs(hashes@),
                    default_body: default_body@,
                    trailers: views::strs(trailers@),
                }
            },
            SuspendReason::SubmitCommit { hash, subject, cursor_index } => {
                SuspendView::SubmitCommit { hash: hash@, subject: subject@, cursor_index }
            },
            SuspendReason::UpdatePR { hash, subject, cursor_index } => SuspendView::UpdatePR {
                hash: hash@,
                subject: subject@,
                cursor_index,
            },
            SuspendReason::RebaseConflict => SuspendView::RebaseConflict,
            SuspendReason::SyncPRs => SuspendView::SyncPRs,
            SuspendReason::PullRemote => SuspendView::PullRemote,
            SuspendReason::Rebase => SuspendView::Rebase,
        }
    }
}

/// What is done once it is confirmed.
#[derive(Debug, Clone, Copy, PartialEq, Eq, Structural)]
pub enum PendingAction {
    Squash,
    Drop,
    Rebase,
}

/// What the keys act on.
pub enum Mode {
    Normal,
    Select,
    DiffView,
    HistoryView,
    Help,
    /// Prompt: insert (a)fter cursor or at (t)op?
    InsertChoice,
    Confirm { prompt: String, action: PendingAction },
}

/// What the keys act on, as it is seen in contracts.
#[verifier::ext_equal]
pub enum ModeView {
    Normal,
    Select,
    DiffView,
    HistoryView,
    Help,
    InsertChoice,
    Confirm { prompt: Seq<char>, action: PendingAction },
}

impl View for Mode {
    type V = ModeView;

    open spec fn view(&self) -> ModeView {
        match *self {
            Mode::Normal => ModeView::Normal,
            Mode::Select => ModeView::Select,
            Mode::DiffView => ModeView::DiffView,
            Mode::HistoryView => ModeView::HistoryView,
            Mode::Help => ModeView::Help,
            Mode::InsertChoice => ModeView::InsertChoice,
            Mode::Confirm { prompt, action } => ModeView::Confirm { prompt: prompt@, action },
        }
    }
}

/// The state of the front end.
pub struct App {
    pub stack: Stack,
    pub history: History,
    pub mode: Mode,
    pub cursor: usize,
    pub select_anchor: Option<usize>,
    pub expanded: Option<usize>,
    pub diff_content: Vec<String>,
    pub diff_scroll: usize,
    pub notification: Option<String>,
    pub should_quit: bool,
    pub wants_suspend: Option<SuspendReason>,
    /// The code review platform integration.
    pub forge: Forge,
}

/// The state of the front end as it is seen in contracts.
#[verifier::ext_equal]
pub struct AppView {
    pub stack: StackView,
    pub history: HistoryView,
    pub mode: ModeView,
    pub cursor: usize,
    pub select_anchor: Option<usize>,
    pub expanded: Option<usize>,
    pub diff_content: Seq<Seq<char>>,
    pub diff_scroll: usize,
    pub notification: Option<Seq<char>>,
    pub should_quit: bool,
    pub wants_suspend: Option<SuspendView>,
    pub forge: ForgeView,
}

/// The view of an optional reason.
pub open spec fn opt_suspend(r: Option<SuspendReason>) -> Option<SuspendView> {
    match r {
        Some(x) => Some(x@),
        None => None,
    }
}

impl View for App {
    type V = AppView;

    open spec fn view(&self) -> AppView {
        AppView {
            stack: self.stack@,
            history: self.history@,
            mode: self.mode@,
            cursor: self.cursor,
            select_anchor: self.select_anchor,
            expanded: self.expanded,
            diff_content: views::strs(self.diff_content@),
            diff_scroll: self.diff_scroll,
            notification: views::opt(self.notification),
            should_quit: self.should_quit,
            wants_suspend: opt_suspend(self.wants_suspend),
            forge: self.forge@,
        }
    }
}

/// Whether a place is one of a list of `n`, or the first where there is none.
pub open spec fn placed(n: nat, i: usize) -> bool {
    if n == 0 {
        i == 0
    } else {
        i < n
    }
}

/// The short form of a hash.
pub open spec fn short(hash: Seq<char>) -> Seq<char> {
    bytes::cut(hash, 7)
}

/// Whether an entry can be described: hash and subject can be cut where they are.
pub open spec fn describable(e: PatchView) -> bool {
    bytes::cuts(e.hash, 7) && (bytes::byte_len(e.subject) > 30 ==> bytes::cuts(e.subject, 27))
}

/// The short description of an entry (hash + truncated subject).
pub open spec fn description(e: PatchView) -> Seq<char> {
    short(e.hash) + " "@ + (if bytes::byte_len(e.subject) > 30 {
        bytes::cut(e.subject, 27) + "..."@
    } else {
        e.subject
    })
}

/// The hashes of the entries from `lo` to `hi`, in their short form.
pub open spec fn short_hashes(p: Seq<PatchView>, lo: int, hi: int) -> Seq<Seq<char>> {
    Seq::new((hi + 1 - lo) as nat, |k: int| short(p[lo + k].hash))
}

/// The subjects of the entries from `lo` to `hi`.
pub open spec fn subjects(p: Seq<PatchView>, lo: int, hi: int) -> Seq<Seq<char>> {
    Seq::new((hi + 1 - lo) as nat, |k: int| p[lo + k].subject)
}

/// The trailers that outlive a squash, of the entries from `lo` up to but without `hi`.
pub open spec fn all_trailers(forge: ForgeView, p: Seq<PatchView>, lo: int, hi: int) -> Seq<
    Seq<char>,
>
    decreases hi - lo,
{
    if hi <= lo {
        seq![]
    } else {
        all_trailers(forge, p, lo, hi - 1) + forge.trailers(p[hi - 1].body)
    }
}

/// The texts without those that follow the same text at once.
pub open spec fn dedup(s: Seq<Seq<char>>) -> Seq<Seq<char>>
    decreases s.len(),
{
    if s.len() <= 1 {
        s
    } else if s.last() == s[s.len() - 2] {
        dedup(s.drop_last())
    } else {
        dedup(s.drop_last()).push(s.last())
    }
}

/// What was read of the stack after git changed it.
pub struct Reloaded {
    /// The commits, marked as the platform tells, or why there are none.
    pub commits: Result<Vec<PatchEntry>, String>,
    /// The commit at HEAD.
    pub head: String,
    /// The time, in seconds since the Unix epoch.
    pub now: i64,
}

/// What was read of the stack, as it is seen in contracts.
pub struct ReloadedView {
    pub commits: Result<Seq<PatchView>, Seq<char>>,
    pub head: Seq<char>,
    pub now: i64,
}

/// The commits that were read, as they are seen in contracts.
pub open spec fn commits_view(c: Result<Vec<PatchEntry>, String>) -> Result<
    Seq<PatchView>,
    Seq<char>,
> {
    match c {
        Ok(v) => Ok(stack::patches(v@)),
        Err(e) => Err(e@),
    }
}

impl View for Reloaded {
    type V = ReloadedView;

    open spec fn view(&self) -> ReloadedView {
        ReloadedView {
            commits: commits_view(self.commits),
            head: self.head@,
            now: self.now,
        }
    }
}

/// How a change of git's history went.
pub enum Rebased {
    /// It is complete, and this is the stack now.
    Complete(Reloaded),
    /// It stopped at conflicts.
    Conflict,
    /// It failed.
    Failed(String),
}

/// How a change of git's history went, as it is seen in contracts.
pub enum RebasedView {
    Complete(ReloadedView),
    Conflict,
    Failed(Seq<char>),
}

impl View for Rebased {
    type V = RebasedView;

    open spec fn view(&self) -> RebasedView {
        match *self {
            Rebased::Complete(r) => RebasedView::Complete(r@),
            Rebased::Conflict => RebasedView::Conflict,
            Rebased::Failed(e) => RebasedView::Failed(e@),
        }
    }
}

/// What is to be done outside on account of a key.
pub enum Request {
    /// Nothing.
    Nothing,
    /// Exchange two commits, of which `below` is the older one; `name` describes the one
    /// that moves.
    Swap { up: bool, below: String, above: String, name: String },
    /// Remove a commit.
    Remove { hash: String, subject: String },
    /// Read the diff of a commit.
    Diff(String),
    /// Read the stack again.
    Refresh,
    /// Undo, unless there are uncommitted changes.
    Undo,
    /// Redo, unless there are uncommitted changes.
    Redo,
}

/// What is to be done outside, as it is seen in contracts.
#[verifier::ext_equal]
pub enum RequestView {
    Nothing,
    Swap { up: bool, below: Seq<char>, above: Seq<char>, name: Seq<char> },
    Remove { hash: Seq<char>, subject: Seq<char> },
    Diff(Seq<char>),
    Refresh,
    Undo,
    Redo,
}

impl View for Request {
    type V = RequestView;

    open spec fn view(&self) -> RequestView {
        match *self {
            Request::Nothing => RequestView::Nothing,
            Request::Swap { up, below, above, name } => RequestView::Swap {
                up,
                below: below@,
                above: above@,
                name: name@,
            },
            Request::Remove { hash, subject } => RequestView::Remove {
                hash: hash@,
                subject: subject@,
            },
            Request::Diff(h) => RequestView::Diff(h@),
            Request::Refresh => RequestView::Refresh,
            Request::Undo => RequestView::Undo,
            Request::Redo => RequestView::Redo,
        }
    }
}

impl AppView {
    /// How many commits there are.
    pub open spec fn len(self) -> nat {
        self.stack.patches.len()
    }

    /// Whether what is selected matters to the mode.
    pub open spec fn selecting(self) -> bool {
        match self.mode {
            ModeView::Select => true,
            ModeView::Confirm { prompt, action } => action == PendingAction::Squash,
            _ => false,
        }
    }

    /// The cursor is on a commit, so is the anchor of a selection, the timeline is in
    /// order, and a diff is not scrolled beyond its end.
    pub open spec fn wf(self) -> bool {
        &&& placed(self.len(), self.cursor)
        &&& self.history.wf()
        &&& self.history.max_entries > 0
        &&& self.mode is DiffView ==> self.diff_scroll <= self.diff_content.len()
        &&& self.selecting() ==> match self.select_anchor {
            Some(a) => placed(self.len(), a),
            None => false,
        }
    }

    /// The state at the start.
    pub open spec fn initial(
        stack: StackView,
        forge: ForgeView,
        head: Seq<char>,
        now: i64,
    ) -> AppView {
        AppView {
            stack,
            history: HistoryView::fresh(500).pushed(
                EntryView {
                    description: "initial state"@,
                    snapshot: stack,
                    head_hash: head,
                    timestamp: now,
                },
            ),
            mode: ModeView::Normal,
            cursor: if stack.patches.len() == 0 {
                0
            } else {
                (stack.patches.len() - 1) as usize
            },
            select_anchor: None,
            expanded: None,
            diff_content: seq![],
            diff_scroll: 0,
            notification: None,
            should_quit: false,
            wants_suspend: None,
            forge,
        }
    }

    /// With something to tell.
    pub open spec fn notified(self, text: Seq<char>) -> AppView {
        AppView { notification: Some(text), ..self }
    }

    /// With nothing to tell.
    pub open spec fn quiet(self) -> AppView {
        AppView { notification: None, ..self }
    }

    /// With the cursor on a commit.
    pub open spec fn clamped(self) -> AppView {
        AppView {
            cursor: if self.len() == 0 {
                0
            } else if self.cursor >= self.len() {
                (self.len() - 1) as usize
            } else {
                self.cursor
            },
            ..self
        }
    }

    /// With the cursor one commit further up, toward newer ones.
    pub open spec fn up(self) -> AppView {
        AppView {
            cursor: if self.len() > 0 && self.cursor < self.len() - 1 {
                (self.cursor + 1) as usize
            } else {
                self.cursor
            },
            ..self.quiet()
        }
    }

    /// With the cursor one commit further down, toward older ones.
    pub open spec fn down(self) -> AppView {
        AppView {
            cursor: if self.cursor > 0 {
                (self.cursor - 1) as usize
            } else {
                self.cursor
            },
            ..self.quiet()
        }
    }

    /// With the operation on record.
    pub open spec fn recorded(self, what: Seq<char>, head: Seq<char>, now: i64) -> AppView {
        AppView {
            history: self.history.pushed(
                EntryView {
                    description: what,
                    snapshot: self.stack,
                    head_hash: head,
                    timestamp: now,
                },
            ),
            ..self
        }
    }

    /// With these commits.
    pub open spec fn reloaded(self, commits: Seq<PatchView>) -> AppView {
        AppView { stack: StackView { patches: commits, ..self.stack }, ..self }.clamped()
    }

    /// With a wish to be suspended.
    pub open spec fn suspended(self, reason: SuspendView) -> AppView {
        AppView { wants_suspend: Some(reason), ..self }
    }

    /// The lowest and the highest selected place.
    pub open spec fn selection(self) -> Option<(usize, usize)> {
        match self.select_anchor {
            Some(a) => if a <= self.cursor {
                Some((a, self.cursor))
            } else {
                Some((self.cursor, a))
            },
            None => None,
        }
    }

    /// Whether the commit at the cursor has one above it, or below it.
    pub open spec fn has_neighbour(self, up: bool) -> bool {
        if up {
            self.cursor + 1 < self.len()
        } else {
            self.cursor > 0
        }
    }

    /// Whether the commit at the cursor can be described, and both hashes shortened, where
    /// it has a neighbour to change places with.
    pub open spec fn movable(self, up: bool) -> bool {
        self.has_neighbour(up) ==> describable(self.stack.patches[self.cursor as int])
            && bytes::cuts(
            self.stack.patches[if up {
                self.cursor + 1
            } else {
                self.cursor - 1
            }].hash,
            7,
        )
    }

    /// After the commit at the cursor is asked to change places with its neighbour.
    pub open spec fn moving(self, up: bool) -> (AppView, RequestView) {
        if !self.has_neighbour(up) {
            (self, RequestView::Nothing)
        } else {
            let here = short(self.hash_here());
            let name = description(self.stack.patches[self.cursor as int]);
            (
                self.notified("Reordering..."@),
                if up {
                    RequestView::Swap {
                        up,
                        below: here,
                        above: short(self.stack.patches[self.cursor + 1].hash),
                        name,
                    }
                } else {
                    RequestView::Swap {
                        up,
                        below: short(self.stack.patches[self.cursor - 1].hash),
                        above: here,
                        name,
                    }
                },
            )
        }
    }

    /// After the removal of the commit at the cursor is confirmed.
    pub open spec fn dropping(self) -> (AppView, RequestView) {
        if self.len() == 0 {
            (self, RequestView::Nothing)
        } else {
            (
                self.notified("Removing..."@),
                RequestView::Remove {
                    hash: short(self.hash_here()),
                    subject: self.stack.patches[self.cursor as int].subject,
                },
            )
        }
    }

    /// After an exchange of two commits.
    pub open spec fn swapped(self, up: bool, name: Seq<char>, end: RebasedView) -> AppView {
        let busy = self.notified("Reordering..."@);
        match end {
            RebasedView::Complete(r) => match r.commits {
                Ok(p) => {
                    let b = busy.reloaded(p);
                    let c = AppView {
                        cursor: if up {
                            (b.cursor + 1) as usize
                        } else {
                            (b.cursor - 1) as usize
                        },
                        ..b
                    }.clamped();
                    if up {
                        c.recorded("move up: "@ + name, r.head, r.now).notified("Patch moved up."@)
                    } else {
                        c.recorded("move down: "@ + name, r.head, r.now).notified(
                            "Patch moved down."@,
                        )
                    }
                },
                Err(e) => busy.notified("Reload failed: "@ + e),
            },
            RebasedView::Conflict => busy.notified("Conflict while reordering."@).suspended(
                SuspendView::RebaseConflict,
            ),
            RebasedView::Failed(e) => busy.notified("Reorder failed: "@ + e),
        }
    }

    /// After the removal of a commit.
    pub open spec fn removed(self, subject: Seq<char>, end: RebasedView) -> AppView {
        let busy = self.notified("Removing..."@);
        match end {
            RebasedView::Complete(r) => match r.commits {
                Ok(p) => busy.reloaded(p).recorded("remove: "@ + subject, r.head, r.now).notified(
                    "Removed: "@ + subject,
                ),
                Err(e) => busy.notified("Reload failed: "@ + e),
            },
            RebasedView::Conflict => busy.notified("Conflict while removing commit."@).suspended(
                SuspendView::RebaseConflict,
            ),
            RebasedView::Failed(e) => busy.notified("Remove failed: "@ + e),
        }
    }

    /// With another state of the timeline as the current one, before git is reset to it;
    /// and the commit to reset to.
    pub open spec fn stepped(self, back: bool, dirty: bool) -> (AppView, Option<Seq<char>>) {
        if dirty {
            (
                self.notified(
                    if back {
                        "Undo blocked: you have uncommitted changes. Commit or stash first."@
                    } else {
                        "Redo blocked: you have uncommitted changes. Commit or stash first."@
                    },
                ),
                None,
            )
        } else if back && self.history.undoable() {
            (
                AppView { history: self.history.undone(), ..self },
                Some(self.history.undone().current().head_hash),
            )
        } else if !back && self.history.redoable() {
            (
                AppView { history: self.history.redone(), ..self },
                Some(self.history.redone().current().head_hash),
            )
        } else {
            (
                self.notified(
                    if back {
                        "Nothing to undo."@
                    } else {
                        "Nothing to redo."@
                    },
                ),
                None,
            )
        }
    }

    /// With the stack of the current state, once git is reset to it.
    pub open spec fn restored(self, back: bool, reset: Result<(), Seq<char>>) -> AppView {
        match reset {
            Ok(u) => AppView { stack: self.history.current().snapshot, ..self }.clamped().notified(
                (if back {
                    "Undone ("@
                } else {
                    "Redone ("@
                }) + number::dec(self.history.cursor) + "/"@ + number::dec(
                    self.history.entries.len(),
                ) + ")"@,
            ),
            Err(e) => self.notified(
                (if back {
                    "Undo git reset failed: "@
                } else {
                    "Redo git reset failed: "@
                }) + e,
            ),
        }
    }

    /// After the selected commits are asked to be squashed.
    pub open spec fn squashing(self) -> AppView {
        match self.selection() {
            Some((lo, hi)) => {
                let count = hi - lo + 1;
                let done = AppView { select_anchor: None, mode: ModeView::Normal, ..self };
                if count < 2 {
                    done.notified("Need at least 2 commits to squash."@)
                } else {
                    done.suspended(
                        SuspendView::SquashCommits {
                            hashes: short_hashes(self.stack.patches, lo as int, hi as int),
                            default_body: pieces::join(
                                subjects(self.stack.patches, lo as int, hi as int),
                                "\n"@,
                            ),
                            trailers: dedup(
                                all_trailers(
                                    self.forge,
                                    self.stack.patches,
                                    lo as int,
                                    hi + 1,
                                ),
                            ),
                        },
                    ).notified("Squashing "@ + number::dec(count as nat) + " commits..."@)
                }
            },
            None => self.notified("No selection. Use V or Shift+↑↓ to select first."@),
        }
    }

    /// Whether every selected commit has a hash that can be shortened.
    pub open spec fn squashable(self) -> bool {
        match self.selection() {
            Some((lo, hi)) => lo < hi ==> forall|i: int|
                lo <= i <= hi ==> bytes::cuts((#[trigger] self.stack.patches[i]).hash, 7),
            None => true,
        }
    }

    /// The hash of the commit at the cursor.
    pub open spec fn hash_here(self) -> Seq<char> {
        self.stack.patches[self.cursor as int].hash
    }

    /// After an insertion at the top is chosen.
    pub open spec fn inserting_at_head(self) -> AppView {
        AppView { mode: ModeView::Normal, ..self }.suspended(SuspendView::InsertAtHead)
    }

    /// After an insertion behind the cursor is chosen. At the top that is the same as at
    /// HEAD.
    pub open spec fn inserting_after(self) -> AppView {
        if self.len() == 0 || self.cursor == self.len() - 1 {
            self.inserting_at_head()
        } else {
            AppView { mode: ModeView::Normal, ..self }.suspended(
                SuspendView::InsertAfterCursor { hash: short(self.hash_here()) },
            )
        }
    }

    /// After an edit of the commit at the cursor is asked for.
    pub open spec fn editing(self) -> AppView {
        if self.len() == 0 {
            self
        } else {
            self.suspended(SuspendView::EditCommit { hash: short(self.hash_here()) })
        }
    }

    /// After a submission of the commit at the cursor is asked for; one that is under
    /// review already is updated.
    pub open spec fn submitting(self) -> AppView {
        if self.len() == 0 {
            self
        } else {
            let e = self.stack.patches[self.cursor as int];
            if e.status == PatchStatus::Submitted {
                self.suspended(
                    SuspendView::UpdatePR {
                        hash: e.hash,
                        subject: e.subject,
                        cursor_index: self.cursor,
                    },
                )
            } else {
                self.suspended(
                    SuspendView::SubmitCommit {
                        hash: e.hash,
                        subject: e.subject,
                        cursor_index: self.cursor,
                    },
                )
            }
        }
    }

    /// After a rebase is asked for: it is to be confirmed.
    pub open spec fn rebasing(self) -> AppView {
        AppView {
            mode: ModeView::Confirm {
                prompt: "Rebase onto "@ + self.stack.base + "? (y/n)"@,
                action: PendingAction::Rebase,
            },
            ..self
        }
    }

    /// After the diff of a commit is read.
    pub open spec fn diff_shown(self, diff: Result<Seq<char>, Seq<char>>) -> AppView {
        match diff {
            Ok(d) => AppView {
                diff_content: pieces::lines(d),
                diff_scroll: 0,
                mode: ModeView::DiffView,
                ..self
            },
            Err(e) => self.notified("diff error: "@ + e),
        }
    }

    /// After the stack is read again.
    pub open spec fn refreshed(self, commits: Result<Seq<PatchView>, Seq<char>>) -> AppView {
        match commits {
            Ok(p) => self.reloaded(p).notified("Stack refreshed."@),
            Err(e) => self.notified("Refresh failed: "@ + e),
        }
    }
}

impl App {
    /// The state at the start: the newest commit is at the cursor, and the initial state
    /// is on record with the current HEAD.
    pub fn new(stack: Stack, forge: Forge, head: &str, now: i64) -> (r: App)
        ensures
            r@ == AppView::initial(stack@, forge@, head@, now),
            r@.wf(),
    {
        let cursor: usize = if stack.is_empty() {
            0
        } else {
            stack.len() - 1
        };
        let mut history = History::new(500);
        history.push_at("initial state", &stack, head, now);
        App {
            stack,
            history,
            mode: Mode::Normal,
            cursor,
            select_anchor: None,
            expanded: None,
            diff_content: Vec::new(),
            diff_scroll: 0,
            notification: None,
            should_quit: false,
            wants_suspend: None,
            forge,
        }
    }

    /// Tells something.
    pub fn notify(&mut self, msg: String)
        ensures
            final(self)@ == old(self)@.notified(msg@),
    {
        self.notification = Some(msg);
    }

    /// Tells something that is known beforehand.
    pub fn tell(&mut self, msg: &str)
        ensures
            final(self)@ == old(self)@.notified(msg@),
    {
        self.notification = Some(msg.to_owned());
    }

    /// Tells nothing more.
    pub fn clear_notification(&mut self)
        ensures
            final(self)@ == old(self)@.quiet(),
    {
        self.notification = None;
    }

    /// The lowest and the highest selected place.
    pub fn selection_range(&self) -> (r: Option<(usize, usize)>)
        ensures
            r == self@.selection(),
    {
        match self.select_anchor {
            Some(a) => {
                if a <= self.cursor {
                    Some((a, self.cursor))
                } else {
                    Some((self.cursor, a))
                }
            },
            None => None,
        }
    }

    /// Record the current state + HEAD hash in the undo timeline.
    pub fn record(&mut self, description: &str, head: &str, now: i64)
        requires
            old(self)@.history.wf(),
            old(self)@.history.max_entries > 0,
        ensures
            final(self)@ == old(self)@.recorded(description@, head@, now),
            final(self)@.history.wf(),
    {
        self.history.push_at(description, &self.stack, head, now);
    }

    /// Puts the cursor on a commit.
    pub fn clamp_cursor(&mut self)
        ensures
            final(self)@ == old(self)@.clamped(),
            placed(final(self)@.len(), final(self)@.cursor),
    {
        if self.stack.is_empty() {
            self.cursor = 0;
        } else if self.cursor >= self.stack.len() {
            self.cursor = self.stack.len() - 1;
        }
    }

    /// Moves the cursor up, toward newer commits.
    pub fn move_cursor_up(&mut self)
        ensures
            final(self)@ == old(self)@.up(),
    {
        self.clear_notification();
        if !self.stack.is_empty() && self.cursor < self.stack.len() - 1 {
            self.cursor = self.cursor + 1;
        }
    }

    /// Moves the cursor down, toward older commits.
    pub fn move_cursor_down(&mut self)
        ensures
            final(self)@ == old(self)@.down(),
    {
        self.clear_notification();
        if self.cursor > 0 {
            self.cursor = self.cursor - 1;
        }
    }

    /// Reload the stack from git (submitted status marked by forge).
    pub fn reload_stack(&mut self, commits: Vec<PatchEntry>)
        ensures
            final(self)@ == old(self)@.reloaded(stack::patches(commits@)),
            placed(final(self)@.len(), final(self)@.cursor),
    {
        let base = self.stack.base.clone();
        self.stack = Stack::new(base, commits);
        self.clamp_cursor();
    }

    /// Get the short hash (7 chars) for the commit at a given index.
    fn short_hash(&self, index: usize) -> (r: String)
        requires
            index < self@.len(),
            bytes::cuts(self@.stack.patches[index as int].hash, 7),
        ensures
            r@ == short(self@.stack.patches[index as int].hash),
    {
        proof {
            assert(self@.stack.patches[index as int] == self.stack.patches@[index as int]@);
        }
        cut_text(self.stack.patches[index].hash.as_str(), 7)
    }

    /// Get a short description (hash + truncated subject) for history messages.
    fn short_desc(&self, index: usize) -> (r: String)
        requires
            index < self@.len(),
            describable(self@.stack.patches[index as int]),
        ensures
            r@ == description(self@.stack.patches[index as int]),
    {
        proof {
            assert(self@.stack.patches[index as int] == self.stack.patches@[index as int]@);
        }
        let h = self.short_hash(index);
        let p = &self.stack.patches[index];
        let s = if longer_than(p.subject.as_str(), 30) {
            let head = cut_text(p.subject.as_str(), 27);
            concat2(head.as_str(), "...")
        } else {
            p.subject.clone()
        };
        concat3(h.as_str(), " ", s.as_str())
    }

    /// Move patch at cursor visually upward: the commits to swap in git history.
    pub fn move_patch_up(&mut self) -> (r: Request)
        requires
            old(self)@.wf(),
            old(self)@.movable(true),
        ensures
            final(self)@ == old(self)@.moving(true).0,
            r@ == old(self)@.moving(true).1,
    {
        if self.stack.is_empty() || self.cursor >= self.stack.len() - 1 {
            return Request::Nothing;
        }
        let name = self.short_desc(self.cursor);
        let below = self.short_hash(self.cursor);
        let above = self.short_hash(self.cursor + 1);
        self.tell("Reordering...");
        Request::Swap { up: true, below, above, name }
    }

    /// Move patch at cursor visually downward: the commits to swap in git history.
    pub fn move_patch_down(&mut self) -> (r: Request)
        requires
            old(self)@.wf(),
            old(self)@.movable(false),
        ensures
            final(self)@ == old(self)@.moving(false).0,
            r@ == old(self)@.moving(false).1,
    {
        if self.cursor == 0 || self.stack.is_empty() {
            return Request::Nothing;
        }
        let name = self.short_desc(self.cursor);
        let below = self.short_hash(self.cursor - 1);
        let above = self.short_hash(self.cursor);
        self.tell("Reordering...");
        Request::Swap { up: false, below, above, name }
    }

    /// What follows the exchange of two commits in git history. The dependencies that the
    /// commits tell of are fixed before the stack is read.
    pub fn finish_swap(&mut self, up: bool, name: &str, end: Rebased)
        requires
            old(self)@.wf(),
            !old(self)@.selecting(),
            !up ==> (end@ matches RebasedView::Complete(r) ==> (r.commits matches Ok(p) ==> old(
                self,
            )@.reloaded(p).cursor > 0)),
        ensures
            final(self)@ == old(self)@.swapped(up, name@, end@),
            final(self)@.wf(),
    {
        self.tell("Reordering...");
        match end {
            Rebased::Complete(r) => match r.commits {
                Ok(commits) => {
                    self.reload_stack(commits);
                    proof {
                        assert(self@.len() == self.stack.patches.len());
                    }
                    if up {
                        self.cursor = self.cursor + 1;
                    } else {
                        self.cursor = self.cursor - 1;
                    }
                    self.clamp_cursor();
                    if up {
                        let text = concat2("move up: ", name);
                        self.record(text.as_str(), r.head.as_str(), r.now);
                        self.tell("Patch moved up.");
                    } else {
                        let text = concat2("move down: ", name);
                        self.record(text.as_str(), r.head.as_str(), r.now);
                        self.tell("Patch moved down.");
                    }
                },
                Err(e) => self.notify(concat2("Reload failed: ", e.as_str())),
            },
            Rebased::Conflict => {
                self.tell("Conflict while reordering.");
                self.wants_suspend = Some(SuspendReason::RebaseConflict);
            },
            Rebased::Failed(e) => self.notify(concat2("Reorder failed: ", e.as_str())),
        }
    }

    /// Remove a commit from git history: the commit at the cursor.
    pub fn drop_at_cursor(&mut self) -> (r: Request)
        requires
            old(self)@.wf(),
            old(self)@.len() > 0 ==> bytes::cuts(old(self)@.hash_here(), 7),
        ensures
            final(self)@ == old(self)@.dropping().0,
            r@ == old(self)@.dropping().1,
    {
        if self.stack.is_empty() {
            return Request::Nothing;
        }
        let hash = self.short_hash(self.cursor);
        proof {
            assert(self@.stack.patches[self.cursor as int] == self.stack.patches@[self.cursor as int]@);
        }
        let subject = self.stack.patches[self.cursor].subject.clone();
        self.tell("Removing...");
        Request::Remove { hash, subject }
    }

    /// What follows the removal of a commit from git history.
    pub fn finish_drop(&mut self, subject: &str, end: Rebased)
        requires
            old(self)@.wf(),
            !old(self)@.selecting(),
        ensures
            final(self)@ == old(self)@.removed(subject@, end@),
            final(self)@.wf(),
    {
        self.tell("Removing...");
        match end {
            Rebased::Complete(r) => match r.commits {
                Ok(commits) => {
                    self.reload_stack(commits);
                    let text = concat2("remove: ", subject);
                    self.record(text.as_str(), r.head.as_str(), r.now);
                    self.notify(concat2("Removed: ", subject));
                },
                Err(e) => self.notify(concat2("Reload failed: ", e.as_str())),
            },
            Rebased::Conflict => {
                self.tell("Conflict while removing commit.");
                self.wants_suspend = Some(SuspendReason::RebaseConflict);
            },
            Rebased::Failed(e) => self.notify(concat2("Remove failed: ", e.as_str())),
        }
    }

    /// Undo: steps back in the timeline, unless there are uncommitted changes; the answer
    /// is the commit to which git is to be reset.
    pub fn undo(&mut self, dirty: bool) -> (r: Option<String>)
        requires
            old(self)@.wf(),
        ensures
            final(self)@ == old(self)@.stepped(true, dirty).0,
            views::opt(r) == old(self)@.stepped(true, dirty).1,
            final(self)@.wf(),
    {
        if dirty {
            self.tell("Undo blocked: you have uncommitted changes. Commit or stash first.");
            return None;
        }
        let target = match self.history.undo() {
            Some((stack, head)) => Some(head.to_owned()),
            None => None,
        };
        if target.is_none() {
            self.tell("Nothing to undo.");
        }
        target
    }

    /// Redo: steps forth in the timeline, unless there are uncommitted changes; the answer
    /// is the commit to which git is to be reset.
    pub fn redo(&mut self, dirty: bool) -> (r: Option<String>)
        requires
            old(self)@.wf(),
        ensures
            final(self)@ == old(self)@.stepped(false, dirty).0,
            views::opt(r) == old(self)@.stepped(false, dirty).1,
            final(self)@.wf(),
    {
        if dirty {
            self.tell("Redo blocked: you have uncommitted changes. Commit or stash first.");
            return None;
        }
        let target = match self.history.redo() {
            Some((stack, head)) => Some(head.to_owned()),
            None => None,
        };
        if target.is_none() {
            self.tell("Nothing to redo.");
        }
        target
    }

    /// What follows the reset of git to the current state of the timeline.
    pub fn finish_step(&mut self, back: bool, reset: Result<(), String>)
        requires
            old(self)@.wf(),
            !old(self)@.selecting(),
            old(self)@.history.entries.len() > 0,
        ensures
            final(self)@ == old(self)@.restored(back, views::err(reset)),
            final(self)@.wf(),
    {
        match reset {
            Ok(u) => {
                let snapshot = match self.history.current() {
                    Some(e) => e.snapshot.clone(),
                    None => self.stack.clone(),
                };
                self.stack = snapshot;
                self.clamp_cursor();
                let at = decimal(self.history.position() as u64);
                let of = decimal(self.history.total() as u64);
                let start = if back {
                    "Undone ("
                } else {
                    "Redone ("
                };
                self.notify(concat5(start, at.as_str(), "/", of.as_str(), ")"));
            },
            Err(e) => {
                let start = if back {
                    "Undo git reset failed: "
                } else {
                    "Redo git reset failed: "
                };
                self.notify(concat2(start, e.as_str()));
            },
        }
    }

    /// Squash the selected commits: the message is edited first.
    pub fn squash_selected(&mut self)
        requires
            placed(old(self)@.len(), old(self)@.cursor),
            old(self)@.select_anchor matches Some(a) ==> placed(old(self)@.len(), a),
            old(self)@.squashable(),
        ensures
            final(self)@ == old(self)@.squashing(),
    {
        match self.selection_range() {
            None => {
                self.tell("No selection. Use V or Shift+↑↓ to select first.");
            },
            Some((lo, hi)) => {
                if hi - lo < 1 {
                    self.tell("Need at least 2 commits to squash.");
                    self.select_anchor = None;
                    self.mode = Mode::Normal;
                    return;
                }
                let hashes = self.hashes_between(lo, hi);
                let body = joined(&self.subjects_between(lo, hi), "\n");
                let trailers = deduped(&self.trailers_between(lo, hi));
                proof {
                    assert(views::strs(hashes@).len() == hi - lo + 1);
                }
                let count = decimal(hashes.len() as u64);
                self.select_anchor = None;
                self.mode = Mode::Normal;
                self.wants_suspend = Some(
                    SuspendReason::SquashCommits { hashes, default_body: body, trailers },
                );
                self.notify(concat3("Squashing ", count.as_str(), " commits..."));
            },
        }
    }

    /// The hashes of the entries from `lo` to `hi`, in their short form.
    fn hashes_between(&self, lo: usize, hi: usize) -> (r: Vec<String>)
        requires
            lo <= hi < self@.len(),
            forall|i: int|
                lo <= i <= hi ==> bytes::cuts((#[trigger] self@.stack.patches[i]).hash, 7),
        ensures
            views::strs(r@) == short_hashes(self@.stack.patches, lo as int, hi as int),
    {
        let ghost all = short_hashes(self@.stack.patches, lo as int, hi as int);
        let mut r: Vec<String> = Vec::new();
        let mut i: usize = lo;
        while i <= hi
            invariant
                lo <= i <= hi + 1,
                hi < self@.len() == self.stack.patches.len(),
                all == short_hashes(self@.stack.patches, lo as int, hi as int),
                forall|i: int|
                    lo <= i <= hi ==> bytes::cuts((#[trigger] self@.stack.patches[i]).hash, 7),
                views::strs(r@) == all.take(i - lo),
            decreases hi + 1 - i,
        {
            assert(bytes::cuts(self@.stack.patches[i as int].hash, 7));
            r.push(self.short_hash(i));
            proof {
                assert(all.take(i + 1 - lo) =~= all.take(i - lo).push(all[i - lo]));
            }
            i += 1;
        }
        proof {
            assert(all.take(i - lo) =~= all);
        }
        r
    }

    /// The subjects of the entries from `lo` to `hi`.
    fn subjects_between(&self, lo: usize, hi: usize) -> (r: Vec<String>)
        requires
            lo <= hi < self@.len(),
        ensures
            views::strs(r@) == subjects(self@.stack.patches, lo as int, hi as int),
    {
        let ghost all = subjects(self@.stack.patches, lo as int, hi as int);
        let mut r: Vec<String> = Vec::new();
        let mut i: usize = lo;
        while i <= hi
            invariant
                lo <= i <= hi + 1,
                hi < self@.len() == self.stack.patches.len(),
                all == subjects(self@.stack.patches, lo as int, hi as int),
                views::strs(r@) == all.take(i - lo),
            decreases hi + 1 - i,
        {
            proof {
                assert(self@.stack.patches[i as int] == self.stack.patches@[i as int]@);
                assert(all.take(i + 1 - lo) =~= all.take(i - lo).push(all[i - lo]));
            }
            r.push(self.stack.patches[i].subject.clone());
            i += 1;
        }
        proof {
            assert(all.take(i - lo) =~= all);
        }
        r
    }

    /// The trailers that outlive a squash, of the entries from `lo` to `hi`.
    fn trailers_between(&self, lo: usize, hi: usize) -> (r: Vec<String>)
        requires
            lo <= hi < self@.len(),
        ensures
            views::strs(r@) == all_trailers(
                self@.forge,
                self@.stack.patches,
                lo as int,
                hi + 1,
            ),
    {
        let mut r: Vec<String> = Vec::new();
        let mut i: usize = lo;
        while i <= hi
            invariant
                lo <= i <= hi + 1,
                hi < self@.len() == self.stack.patches.len(),
                views::strs(r@) == all_trailers(
                    self@.forge,
                    self@.stack.patches,
                    lo as int,
                    i as int,
                ),
            decreases hi + 1 - i,
        {
            proof {
                assert(self@.stack.patches[i as int] == self.stack.patches@[i as int]@);
            }
            let mut more = self.forge.get_trailers(self.stack.patches[i].body.as_str());
            let ghost before = views::strs(r@);
            let ghost added = views::strs(more@);
            r.append(&mut more);
            proof {
                assert(views::strs(r@) =~= before + added);
            }
            i += 1;
        }
        r
    }

    /// Show the insert location prompt.
    pub fn show_insert_choice(&mut self)
        ensures
            final(self)@ == (AppView { mode: ModeView::InsertChoice, ..old(self)@.quiet() }),
    {
        self.clear_notification();
        self.mode = Mode::InsertChoice;
    }

    /// Insert a commit at the top.
    pub fn insert_at_head(&mut self)
        ensures
            final(self)@ == old(self)@.inserting_at_head(),
    {
        self.mode = Mode::Normal;
        self.wants_suspend = Some(SuspendReason::InsertAtHead);
    }

    /// Insert a commit behind the cursor.
    pub fn insert_after_cursor(&mut self)
        requires
            old(self)@.wf(),
            old(self)@.cursor + 1 < old(self)@.len() ==> bytes::cuts(old(self)@.hash_here(), 7),
        ensures
            final(self)@ == old(self)@.inserting_after(),
    {
        if self.stack.is_empty() || self.cursor == self.stack.len() - 1 {
            self.insert_at_head();
            return;
        }
        let hash = self.short_hash(self.cursor);
        self.mode = Mode::Normal;
        self.wants_suspend = Some(SuspendReason::InsertAfterCursor { hash });
    }

    /// Edit the commit at the cursor.
    pub fn edit_commit_at_cursor(&mut self)
        requires
            old(self)@.wf(),
            old(self)@.len() > 0 ==> bytes::cuts(old(self)@.hash_here(), 7),
        ensures
            final(self)@ == old(self)@.editing(),
    {
        if self.stack.is_empty() {
            return;
        }
        let hash = self.short_hash(self.cursor);
        self.wants_suspend = Some(SuspendReason::EditCommit { hash });
    }

    /// Record a reload in history with a description.
    pub fn record_reload(&mut self, description: &str, head: &str, now: i64)
        requires
            old(self)@.history.wf(),
            old(self)@.history.max_entries > 0,
        ensures
            final(self)@ == old(self)@.recorded(description@, head@, now),
            final(self)@.history.wf(),
    {
        self.record(description, head, now);
    }

    /// Ask whether to rebase.
    pub fn start_rebase(&mut self)
        ensures
            final(self)@ == old(self)@.rebasing(),
    {
        let prompt = concat3("Rebase onto ", self.stack.base.as_str(), "? (y/n)");
        self.mode = Mode::Confirm { prompt, action: PendingAction::Rebase };
    }

    /// Rebase.
    pub fn execute_rebase(&mut self)
        ensures
            final(self)@ == old(self)@.suspended(SuspendView::Rebase),
    {
        self.wants_suspend = Some(SuspendReason::Rebase);
    }

    /// Submit the commit at the cursor, or update its review.
    pub fn submit_at_cursor(&mut self)
        requires
            old(self)@.wf(),
        ensures
            final(self)@ == old(self)@.submitting(),
    {
        if self.stack.is_empty() {
            return;
        }
        proof {
            assert(self@.stack.patches[self.cursor as int] == self.stack.patches@[self.cursor as int]@);
        }
        let hash = self.stack.patches[self.cursor].hash.clone();
        let subject = self.stack.patches[self.cursor].subject.clone();
        let cursor_index: usize = self.cursor;
        if self.stack.patches[self.cursor].status == PatchStatus::Submitted {
            self.wants_suspend = Some(SuspendReason::UpdatePR { hash, subject, cursor_index });
        } else {
            self.wants_suspend = Some(SuspendReason::SubmitCommit { hash, subject, cursor_index });
        }
    }

    /// Sync all submitted PRs — suspends TUI to show progress.
    pub fn sync_all_prs(&mut self)
        ensures
            final(self)@ == old(self)@.suspended(SuspendView::SyncPRs),
    {
        self.wants_suspend = Some(SuspendReason::SyncPRs);
    }

    /// Pull remote changes into local commits — suspends TUI.
    pub fn pull_remote(&mut self)
        ensures
            final(self)@ == old(self)@.suspended(SuspendView::PullRemote),
    {
        self.wants_suspend = Some(SuspendReason::PullRemote);
    }

    /// Show the help screen.
    pub fn show_help(&mut self)
        ensures
            final(self)@ == (AppView { mode: ModeView::Help, ..old(self)@ }),
    {
        self.mode = Mode::Help;
    }

    /// Show the diff that was read.
    pub fn show_diff(&mut self, diff: Result<String, String>)
        requires
            old(self)@.wf(),
        ensures
            final(self)@ == old(self)@.diff_shown(views::res(diff)),
            final(self)@.wf(),
    {
        match diff {
            Ok(d) => {
                self.diff_content = lines_of(d.as_str());
                self.diff_scroll = 0;
                self.mode = Mode::DiffView;
            },
            Err(e) => self.notify(concat2("diff error: ", e.as_str())),
        }
    }

    /// Show the stack that was read again.
    pub fn refresh(&mut self, commits: Result<Vec<PatchEntry>, String>)
        requires
            old(self)@.wf(),
            !old(self)@.selecting(),
        ensures
            final(self)@ == old(self)@.refreshed(commits_view(commits)),
            final(self)@.wf(),
    {
        match commits {
            Ok(c) => {
                self.reload_stack(c);
                self.tell("Stack refreshed.");
            },
            Err(e) => self.notify(concat2("Refresh failed: ", e.as_str())),
        }
    }

    /// Takes the wish to be suspended away, and tells it.
    pub fn take_suspend(&mut self) -> (r: Option<SuspendReason>)
        ensures
            final(self)@ == (AppView { wants_suspend: None, ..old(self)@ }),
            opt_suspend(r) == old(self)@.wants_suspend,
    {
        self.wants_suspend.take()
    }
}

/// An undo that succeeds restores the stack of the previous state, and a redo after it
/// brings the present one back, stack and timeline.
pub proof fn law_undo_redo_restores(a: AppView)
    requires
        a.wf(),
        a.history.undoable(),
        a.stack == a.history.current().snapshot,
    ensures
        ({
            let back = a.stepped(true, false).0.restored(true, Ok(()));
            let forth = back.stepped(false, false).0.restored(false, Ok(()));
            &&& back.stack == a.history.entries[a.history.cursor - 1].snapshot
            &&& back.history.redoable()
            &&& forth.stack == a.stack
            &&& forth.history == a.history
        }),
{
}

/// An operation that is on record can be undone, which restores the stack of the state
/// before it, and resets git to the commit that was at HEAD then.
pub proof fn law_record_undo(
    a: AppView,
    p: Seq<PatchView>,
    what: Seq<char>,
    head: Seq<char>,
    now: i64,
)
    requires
        a.wf(),
        a.history.entries.len() > 0,
        a.history.max_entries >= 2,
        a.stack == a.history.current().snapshot,
    ensures
        ({
            let done = a.reloaded(p).recorded(what, head, now);
            let back = done.stepped(true, false);
            &&& back.1 == Some(a.history.current().head_hash)
            &&& back.0.restored(true, Ok(())).stack == a.stack
        }),
{
    let h = a.history;
    let e = EntryView {
        description: what,
        snapshot: a.reloaded(p).stack,
        head_hash: head,
        timestamp: now,
    };
    let all = h.past().push(e);
    assert(all[all.len() - 2] == h.current());
    let k = h.pushed(e);
    assert(k.entries[k.cursor - 1] == h.current());
}

/// Uncommitted changes block undo and redo: nothing but the notification changes, and git
/// is not reset.
pub proof fn law_dirty_blocks(a: AppView, back: bool)
    ensures
        a.stepped(back, true).1 is None,
        (AppView { notification: a.notification, ..a.stepped(back, true).0 }) == a,
{
}

/// The texts without those that follow the same text at once.
fn deduped(v: &Vec<String>) -> (r: Vec<String>)
    ensures
        views::strs(r@) == dedup(views::strs(v@)),
{
    let ghost all = views::strs(v@);
    let mut r: Vec<String> = Vec::new();
    let mut i: usize = 0;
    proof {
        assert(all.take(0) =~= Seq::<Seq<char>>::empty());
    }
    while i < v.len()
        invariant
            i <= v@.len(),
            all == views::strs(v@),
            views::strs(r@) == dedup(all.take(i as int)),
        decreases v.len() - i,
    {
        let ghost t = all.take(i + 1);
        proof {
            assert(t.drop_last() =~= all.take(i as int));
            assert(t.last() == v@[i as int]@);
            if i > 0 {
                assert(t[t.len() - 2] == v@[i - 1]@);
            } else {
                assert(t =~= Seq::<Seq<char>>::empty().push(v@[0]@));
            }
        }
        if i == 0 || !same(v[i].as_str(), v[i - 1].as_str()) {
            r.push(v[i].clone());
        }
        i += 1;
    }
    proof {
        assert(all.take(i as int) =~= all);
    }
    r
}

} // verus!
