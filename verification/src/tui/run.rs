//! The round of the front end: it starts, it is suspended for an operation, it goes on.
use vstd::prelude::*;

use super::app::{App, AppView, RebasedView, ReloadedView, SuspendReason, SuspendView};
use super::app;
use super::task;
use super::task::conflict;
use super::task::conflict::handle_rebase_conflict;
use super::task::edit;
use super::task::edit::{handle_edit_commit, Edit, EditView};
use super::task::insert;
use super::task::insert::{
    handle_insert_after, handle_insert_at_head, InsertAfter, InsertAfterView, TopStage,
};
use super::task::pull;
use super::task::pull::{handle_pull_remote, Pull, PullView};
use super::task::rebase;
use super::task::rebase::handle_rebase;
use super::task::squash;
use super::task::squash::{handle_squash_commits, Squash, SquashView};
use super::task::submit;
use super::task::submit::{handle_submit_commit, handle_update_pr, Submit, SubmitView};
use super::task::sync;
use super::task::sync::{handle_sync_prs, SyncAll, SyncAllView};
use super::task::{Ask, AskView, Reply, ReplyView};
use super::term;
use crate::history::EntryView;
use crate::stack;
use crate::stack::{PatchEntry, PatchView};
use crate::text::bytes;
use crate::text::bytes::{can_cut, cut_text};
use crate::text::chars::{concat3, concat7};
use crate::text::number;
use crate::text::number::decimal;

verus! {

/// What is said where a rebase is in progress at the start.
pub const REBASE_IN_PROGRESS: &'static str =
    "  \x1b[31m⚠ A rebase is already in progress.\x1b[0m\n  Run \x1b[1mgit rebase --continue\x1b[0m or \x1b[1mgit rebase --abort\x1b[0m first.\n";

/// What is said where there are uncommitted changes at the start.
pub const UNCOMMITTED: &'static str =
    "  \x1b[31m⚠ You have uncommitted changes.\x1b[0m\n  Commit or stash them before running pgit.\n";

/// What keeps the front end from starting, if anything does: a rebase from a previous
/// session, or else uncommitted changes (staged or unstaged).
pub fn blocked(rebase_in_progress: bool, dirty: bool) -> (r: Option<&'static str>)
    ensures
        match r {
            Some(t) => if rebase_in_progress {
                t@ == REBASE_IN_PROGRESS@
            } else {
                dirty && t@ == UNCOMMITTED@
            },
            None => !rebase_in_progress && !dirty,
        },
{
    if rebase_in_progress {
        Some(REBASE_IN_PROGRESS)
    } else if dirty {
        Some(UNCOMMITTED)
    } else {
        None
    }
}

/// An operation for which the front end is suspended.
pub enum Task {
    InsertAtHead(TopStage),
    InsertAfter(InsertAfter),
    Edit(Edit),
    Squash(Squash),
    Submit(Submit),
    Sync(SyncAll),
    Pull(Pull),
    Rebase(rebase::Stage),
    Conflict(conflict::Stage),
}

/// An operation as it is seen in contracts.
#[verifier::ext_equal]
pub enum TaskView {
    InsertAtHead(TopStage),
    InsertAfter(InsertAfterView),
    Edit(EditView),
    Squash(SquashView),
    Submit(SubmitView),
    Sync(SyncAllView),
    Pull(PullView),
    Rebase(rebase::Stage),
    Conflict(conflict::Stage),
}

impl View for Task {
    type V = TaskView;

    open spec fn view(&self) -> TaskView {
        match *self {
            Task::InsertAtHead(s) => TaskView::InsertAtHead(s),
            Task::InsertAfter(s) => TaskView::InsertAfter(s@),
            Task::Edit(s) => TaskView::Edit(s@),
            Task::Squash(s) => TaskView::Squash(s@),
            Task::Submit(s) => TaskView::Submit(s@),
            Task::Sync(s) => TaskView::Sync(s@),
            Task::Pull(s) => TaskView::Pull(s@),
            Task::Rebase(s) => TaskView::Rebase(s),
            Task::Conflict(s) => TaskView::Conflict(s),
        }
    }
}

/// The operation that a wish to be suspended is for.
pub open spec fn task_for(reason: SuspendView) -> TaskView {
    match reason {
        SuspendView::InsertAtHead => TaskView::InsertAtHead(TopStage::Enter),
        SuspendView::InsertAfterCursor { hash } => TaskView::InsertAfter(
            InsertAfterView { hash, stage: insert::Stage::Open },
        ),
        SuspendView::EditCommit { hash } => TaskView::Edit(
            EditView { hash, stage: edit::Stage::Open },
        ),
        SuspendView::SquashCommits { hashes, default_body, trailers } => TaskView::Squash(
            SquashView {
                hashes,
                default_body,
                trailers,
                editor: seq![],
                message: seq![],
                stage: squash::Stage::Editor,
            },
        ),
        SuspendView::SubmitCommit { hash, subject, cursor_index } => TaskView::Submit(
            submit::begun(false, hash, subject, cursor_index),
        ),
        SuspendView::UpdatePR { hash, subject, cursor_index } => TaskView::Submit(
            submit::begun(true, hash, subject, cursor_index),
        ),
        SuspendView::RebaseConflict => TaskView::Conflict(conflict::Stage::Open),
        SuspendView::SyncPRs => TaskView::Sync(
            SyncAllView { base: seq![], count: 0, stage: sync::Stage::Open },
        ),
        SuspendView::PullRemote => TaskView::Pull(
            PullView {
                home: seq![],
                diverged: seq![],
                at: 0,
                branch: seq![],
                refs: seq![],
                subject: seq![],
                reason: seq![],
                merged: 0,
                stage: pull::Stage::Open,
            },
        ),
        SuspendView::Rebase => TaskView::Rebase(rebase::Stage::Open),
    }
}

/// What an operation says at first.
pub open spec fn first_words(reason: SuspendView) -> Seq<char> {
    match reason {
        SuspendView::InsertAtHead => insert::top_box(),
        SuspendView::SubmitCommit { hash, subject, cursor_index } => term::CLEAR@,
        SuspendView::UpdatePR { hash, subject, cursor_index } => term::CLEAR@,
        SuspendView::SyncPRs => term::CLEAR@ + term::heading("Syncing PRs..."@),
        SuspendView::PullRemote => term::CLEAR@ + term::heading("Pulling remote changes..."@),
        SuspendView::Rebase => term::CLEAR@ + term::heading("Rebasing stack..."@),
        _ => task::silence(),
    }
}

/// What an operation asks at first.
pub open spec fn first_ask(reason: SuspendView) -> AskView {
    match reason {
        SuspendView::InsertAtHead => AskView::Enter,
        SuspendView::SquashCommits { hashes, default_body, trailers } => AskView::Editor,
        _ => AskView::Open,
    }
}

/// Whether an operation finds the hash that it shortens so that it can be.
pub open spec fn reason_fits(reason: SuspendView) -> bool {
    match reason {
        SuspendView::SubmitCommit { hash, subject, cursor_index } => bytes::cuts(hash, 7),
        SuspendView::UpdatePR { hash, subject, cursor_index } => bytes::cuts(hash, 7),
        _ => true,
    }
}

/// What follows an answer.
pub open spec fn task_step(a: AppView, t: TaskView, reply: ReplyView) -> (
    AppView,
    TaskView,
    Seq<char>,
    AskView,
) {
    match t {
        TaskView::InsertAtHead(s) => {
            let r = insert::top_step(a, s, reply);
            (r.0, TaskView::InsertAtHead(r.1), task::silence(), r.2)
        },
        TaskView::InsertAfter(s) => {
            let r = insert::after_step(a, s, reply);
            (r.0, TaskView::InsertAfter(r.1), r.2, r.3)
        },
        TaskView::Edit(s) => {
            let r = edit::edit_step(a, s, reply);
            (r.0, TaskView::Edit(r.1), r.2, r.3)
        },
        TaskView::Squash(s) => {
            let r = squash::squash_step(a, s, reply);
            (r.0, TaskView::Squash(r.1), r.2, r.3)
        },
        TaskView::Submit(s) => {
            let r = submit::submit_step(a, s, reply);
            (r.0, TaskView::Submit(r.1), r.2, r.3)
        },
        TaskView::Sync(s) => {
            let r = sync::sync_step(a, s, reply);
            (r.0, TaskView::Sync(r.1), r.2, r.3)
        },
        TaskView::Pull(s) => {
            let r = pull::pull_step(a, s, reply);
            (r.0, TaskView::Pull(r.1), r.2, r.3)
        },
        TaskView::Rebase(s) => {
            let r = rebase::rebase_step(a, s, reply);
            (r.0, TaskView::Rebase(r.1), r.2, r.3)
        },
        TaskView::Conflict(s) => {
            let r = conflict::conflict_step(a, s, reply);
            (r.0, TaskView::Conflict(r.1), r.2, r.3)
        },
    }
}

impl Task {
    /// Begins the operation that a wish to be suspended is for: the operation, what it
    /// says and what it asks. There is none where a hash cannot be shortened.
    pub fn begin(reason: SuspendReason) -> (r: Option<(Task, String, Ask)>)
        ensures
            match r {
                Some((t, say, ask)) => reason_fits(reason@) && t@ == task_for(reason@) && say@
                    == first_words(reason@) && ask@ == first_ask(reason@),
                None => !reason_fits(reason@),
            },
    {
        match reason {
            SuspendReason::InsertAtHead => {
                let (s, say, ask) = handle_insert_at_head();
                Some((Task::InsertAtHead(s), say, ask))
            },
            SuspendReason::InsertAfterCursor { hash } => {
                let (s, ask) = handle_insert_after(hash);
                Some((Task::InsertAfter(s), String::new(), ask))
            },
            SuspendReason::EditCommit { hash } => {
                let (s, ask) = handle_edit_commit(hash);
                Some((Task::Edit(s), String::new(), ask))
            },
            SuspendReason::SquashCommits { hashes, default_body, trailers } => {
                let (s, ask) = handle_squash_commits(hashes, default_body, trailers);
                Some((Task::Squash(s), String::new(), ask))
            },
            SuspendReason::SubmitCommit { hash, subject, cursor_index } => {
                if !can_cut(hash.as_str(), 7) {
                    return None;
                }
                let (s, say, ask) = handle_submit_commit(hash, subject, cursor_index);
                Some((Task::Submit(s), say, ask))
            },
            SuspendReason::UpdatePR { hash, subject, cursor_index } => {
                if !can_cut(hash.as_str(), 7) {
                    return None;
                }
                let (s, say, ask) = handle_update_pr(hash, subject, cursor_index);
                Some((Task::Submit(s), say, ask))
            },
            SuspendReason::RebaseConflict => {
                let (s, ask) = handle_rebase_conflict();
                Some((Task::Conflict(s), String::new(), ask))
            },
            SuspendReason::SyncPRs => {
                let (s, say, ask) = handle_sync_prs();
                Some((Task::Sync(s), say, ask))
            },
            SuspendReason::PullRemote => {
                let (s, say, ask) = handle_pull_remote();
                Some((Task::Pull(s), say, ask))
            },
            SuspendReason::Rebase => {
                let (s, say, ask) = handle_rebase();
                Some((Task::Rebase(s), say, ask))
            },
        }
    }

    /// What follows an answer.
    pub fn step(self, app: &mut App, reply: Reply) -> (r: (Task, String, Ask))
        requires
            old(app)@.wf(),
            !old(app)@.selecting(),
        ensures
            final(app)@ == task_step(old(app)@, self@, reply@).0,
            r.0@ == task_step(old(app)@, self@, reply@).1,
            r.1@ == task_step(old(app)@, self@, reply@).2,
            r.2@ == task_step(old(app)@, self@, reply@).3,
            final(app)@.wf(),
            !final(app)@.selecting(),
    {
        match self {
            Task::InsertAtHead(s) => {
                let (s, ask) = s.step(app, reply);
                (Task::InsertAtHead(s), String::new(), ask)
            },
            Task::InsertAfter(s) => {
                let (s, say, ask) = s.step(app, reply);
                (Task::InsertAfter(s), say, ask)
            },
            Task::Edit(s) => {
                let (s, say, ask) = s.step(app, reply);
                (Task::Edit(s), say, ask)
            },
            Task::Squash(s) => {
                let (s, say, ask) = s.step(app, reply);
                (Task::Squash(s), say, ask)
            },
            Task::Submit(s) => {
                let (s, say, ask) = s.step(app, reply);
                (Task::Submit(s), say, ask)
            },
            Task::Sync(s) => {
                let (s, say, ask) = s.step(app, reply);
                (Task::Sync(s), say, ask)
            },
            Task::Pull(s) => {
                let (s, say, ask) = s.step(app, reply);
                (Task::Pull(s), say, ask)
            },
            Task::Rebase(s) => {
                let (s, say, ask) = s.step(app, reply);
                (Task::Rebase(s), say, ask)
            },
            Task::Conflict(s) => {
                let (s, say, ask) = s.step(app, reply);
                (Task::Conflict(s), say, ask)
            },
        }
    }
}

impl App {
    /// What is to be done once the screen is left: nothing more where the user quits or
    /// no operation is wished for, and else the operation.
    pub fn next(&mut self) -> (r: Option<SuspendReason>)
        ensures
            final(self)@ == if old(self)@.should_quit {
                old(self)@
            } else {
                AppView { wants_suspend: None, ..old(self)@ }
            },
            app::opt_suspend(r) == if old(self)@.should_quit {
                None
            } else {
                old(self)@.wants_suspend
            },
    {
        if self.should_quit {
            None
        } else {
            self.take_suspend()
        }
    }
}

/// What is said where there is no commit in the stack.
pub const NO_COMMITS: &'static str = "No commits ahead of base branch.\n";

/// A line about the commit at a place.
pub open spec fn status_line(p: PatchView, i: int) -> Seq<char> {
    "  "@ + (if i == 0 {
        "→"@
    } else {
        " "@
    }) + " "@ + bytes::cut(p.hash, 8) + " "@ + p.subject + "\n"@
}

/// The lines about the commits of a stack.
pub open spec fn status_lines(p: Seq<PatchView>) -> Seq<char>
    decreases p.len(),
{
    if p.len() == 0 {
        seq![]
    } else {
        status_lines(p.drop_last()) + status_line(p.last(), p.len() - 1)
    }
}

/// The listing of a stack.
pub open spec fn status(p: Seq<PatchView>) -> Seq<char> {
    if p.len() == 0 {
        NO_COMMITS@
    } else {
        "pilegit stack ("@ + number::dec(p.len()) + " commits):\n\n"@ + status_lines(p)
    }
}

/// The listing of a stack; none where a hash cannot be cut after eight bytes.
pub fn status_text(patches: &Vec<PatchEntry>) -> (r: Option<String>)
    ensures
        match r {
            Some(t) => (forall|i: int|
                0 <= i < patches@.len() ==> bytes::cuts((#[trigger] patches@[i])@.hash, 8)) && t@
                == status(stack::patches(patches@)),
            None => exists|i: int|
                0 <= i < patches@.len() && !bytes::cuts((#[trigger] patches@[i])@.hash, 8),
        },
{
    let ghost p = stack::patches(patches@);
    if patches.len() == 0 {
        return Some(NO_COMMITS.to_owned());
    }
    let n = decimal(patches.len() as u64);
    let mut r = concat3("pilegit stack (", n.as_str(), " commits):\n\n");
    let ghost head = r@;
    let mut i: usize = 0;
    proof {
        assert(p.take(0) =~= Seq::<PatchView>::empty());
        assert(r@ =~= head + status_lines(p.take(0)));
    }
    while i < patches.len()
        invariant
            i <= patches@.len(),
            p == stack::patches(patches@),
            r@ == head + status_lines(p.take(i as int)),
            forall|j: int| 0 <= j < i ==> bytes::cuts((#[trigger] patches@[j])@.hash, 8),
        decreases patches.len() - i,
    {
        proof {
            assert(p.take(i + 1).drop_last() =~= p.take(i as int));
            assert(p.take(i + 1).last() == patches@[i as int]@);
        }
        if !can_cut(patches[i].hash.as_str(), 8) {
            proof {
                assert(!bytes::cuts(patches@[i as int]@.hash, 8));
            }
            return None;
        }
        let hash = cut_text(patches[i].hash.as_str(), 8);
        let marker = if i == 0 {
            "→"
        } else {
            " "
        };
        let line = concat7(
            "  ",
            marker,
            " ",
            hash.as_str(),
            " ",
            patches[i].subject.as_str(),
            "\n",
        );
        r.append(line.as_str());
        i += 1;
        proof {
            assert(r@ =~= head + status_lines(p.take(i as int)));
        }
    }
    proof {
        assert(p.take(i as int) =~= p);
    }
    Some(r)
}

/// Whether an operation is finished.
pub open spec fn over(t: TaskView) -> bool {
    match t {
        TaskView::InsertAtHead(s) => s == TopStage::Over,
        TaskView::InsertAfter(s) => s.stage == insert::Stage::Over,
        TaskView::Edit(s) => s.stage == edit::Stage::Over,
        TaskView::Squash(s) => s.stage == squash::Stage::Over,
        TaskView::Submit(s) => s.stage == submit::Stage::Over,
        TaskView::Sync(s) => s.stage == sync::Stage::Over,
        TaskView::Pull(s) => s.stage == pull::Stage::Over,
        TaskView::Rebase(s) => s == rebase::Stage::Over,
        TaskView::Conflict(s) => s == conflict::Stage::Over,
    }
}

proof fn lemma_after_end(a: AppView, s: InsertAfterView, reply: ReplyView)
    ensures
        insert::after_step(a, s, reply).3 is End <==> insert::after_step(a, s, reply).1.stage == insert::Stage::Over,
{
}

proof fn lemma_edit_end(a: AppView, s: EditView, reply: ReplyView)
    ensures
        edit::edit_step(a, s, reply).3 is End <==> edit::edit_step(a, s, reply).1.stage == edit::Stage::Over,
{
}

proof fn lemma_squash_end(a: AppView, s: SquashView, reply: ReplyView)
    ensures
        squash::squash_step(a, s, reply).3 is End <==> squash::squash_step(a, s, reply).1.stage == squash::Stage::Over,
{
}

proof fn lemma_submit_end(a: AppView, s: SubmitView, reply: ReplyView)
    ensures
        submit::submit_step(a, s, reply).3 is End <==> submit::submit_step(a, s, reply).1.stage == submit::Stage::Over,
{
}

proof fn lemma_sync_end(a: AppView, s: SyncAllView, reply: ReplyView)
    ensures
        sync::sync_step(a, s, reply).3 is End <==> sync::sync_step(a, s, reply).1.stage == sync::Stage::Over,
{
}

proof fn lemma_pull_end(a: AppView, s: PullView, reply: ReplyView)
    ensures
        pull::pull_step(a, s, reply).3 is End <==> pull::pull_step(a, s, reply).1.stage == pull::Stage::Over,
{
}

proof fn lemma_rebase_end(a: AppView, s: rebase::Stage, reply: ReplyView)
    ensures
        rebase::rebase_step(a, s, reply).3 is End <==> rebase::rebase_step(a, s, reply).1 == rebase::Stage::Over,
{
}

proof fn lemma_conflict_end(a: AppView, s: conflict::Stage, reply: ReplyView)
    ensures
        conflict::conflict_step(a, s, reply).3 is End <==> conflict::conflict_step(a, s, reply).1 == conflict::Stage::Over,
{
}

/// An operation tells of its end exactly when it is finished.
pub proof fn law_end_is_told(a: AppView, t: TaskView, reply: ReplyView)
    ensures
        task_step(a, t, reply).3 is End <==> over(task_step(a, t, reply).1),
{
    match t {
        TaskView::InsertAtHead(s) => {},
        TaskView::InsertAfter(s) => lemma_after_end(a, s, reply),
        TaskView::Edit(s) => lemma_edit_end(a, s, reply),
        TaskView::Squash(s) => lemma_squash_end(a, s, reply),
        TaskView::Submit(s) => lemma_submit_end(a, s, reply),
        TaskView::Sync(s) => lemma_sync_end(a, s, reply),
        TaskView::Pull(s) => lemma_pull_end(a, s, reply),
        TaskView::Rebase(s) => lemma_rebase_end(a, s, reply),
        TaskView::Conflict(s) => lemma_conflict_end(a, s, reply),
    }
}

/// A finished operation stays finished: whatever is answered after its end, it asks for
/// nothing, says nothing and changes nothing.
pub proof fn law_over_is_over(a: AppView, t: TaskView, reply: ReplyView)
    requires
        over(t),
    ensures
        task_step(a, t, reply) == (a, t, task::silence(), task::end()),
{
}

/// Whether an operation is on record: the timeline has one more state, which tells what
/// was done and when, and holds the stack as it is now and the commit at HEAD.
pub open spec fn on_record(
    before: AppView,
    after: AppView,
    what: Seq<char>,
    r: ReloadedView,
) -> bool {
    after.history == before.history.pushed(
        EntryView {
            description: what,
            snapshot: after.stack,
            head_hash: r.head,
            timestamp: r.now,
        },
    )
}

/// Every operation that succeeds is on record: reorder, remove, insert, edit, squash,
/// rebase, and what becomes of a rebase with conflicts.
pub proof fn law_operations_recorded(
    a: AppView,
    r: ReloadedView,
    name: Seq<char>,
    after: InsertAfterView,
    edit: EditView,
    squash: SquashView,
)
    requires
        r.commits is Ok,
        after.stage == insert::Stage::Reload,
        edit.stage == edit::Stage::Reload,
        squash.stage == squash::Stage::Reload,
    ensures
        on_record(
            a,
            a.swapped(true, name, RebasedView::Complete(r)),
            "move up: "@ + name,
            r,
        ),
        on_record(
            a,
            a.swapped(false, name, RebasedView::Complete(r)),
            "move down: "@ + name,
            r,
        ),
        on_record(a, a.removed(name, RebasedView::Complete(r)), "remove: "@ + name, r),
        on_record(
            a,
            insert::top_step(a, TopStage::Reload, ReplyView::Stack(r)).0,
            "insert commit at top"@,
            r,
        ),
        on_record(
            a,
            insert::after_step(a, after, ReplyView::Stack(r)).0,
            "insert commit after cursor"@,
            r,
        ),
        on_record(
            a,
            edit::edit_step(a, edit, ReplyView::Stack(r)).0,
            "edit commit "@ + edit.hash,
            r,
        ),
        on_record(
            a,
            squash::squash_step(a, squash, ReplyView::Stack(r)).0,
            "squash "@ + number::dec(squash.hashes.len()) + " commits"@,
            r,
        ),
        on_record(
            a,
            rebase::rebase_step(a, rebase::Stage::Reload, ReplyView::Stack(r)).0,
            "rebase onto base"@,
            r,
        ),
        on_record(
            a,
            conflict::conflict_step(a, conflict::Stage::Completed, ReplyView::Stack(r)).0,
            "rebase completed"@,
            r,
        ),
        on_record(
            a,
            conflict::conflict_step(a, conflict::Stage::Aborted, ReplyView::Stack(r)).0,
            "rebase aborted"@,
            r,
        ),
{
}

} // verus!
