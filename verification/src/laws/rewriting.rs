//! What the operations that rewrite the stack ask of git, and what they leave behind.
use vstd::prelude::*;

use super::pulling;
use crate::git::call::RanView;
use crate::history::EntryView;
use crate::stack::{PatchStatus, PatchView};
use crate::text::chars;
use crate::text::number;
use crate::text::pieces;
use crate::text::search;
use crate::tui::app::{AppView, ModeView, RebasedView, ReloadedView, SuspendView};
use crate::tui::run;
use crate::tui::run::TaskView;
use crate::tui::task::conflict;
use crate::tui::task::edit;
use crate::tui::task::insert;
use crate::tui::task::rebase;
use crate::tui::task::squash;
use crate::tui::task::{AskView, EditedView, ReplyView};

verus! {

/// Whether the application shows commits that were read again: they are its stack, the base is
/// as it was, and the cursor is where it was, or on the last commit if there are too few.
pub open spec fn shows(before: AppView, after: AppView, p: Seq<PatchView>) -> bool {
    &&& after.stack.patches == p
    &&& after.stack.base == before.stack.base
    &&& before.cursor < p.len() ==> after.cursor == before.cursor
    &&& before.cursor >= p.len() && p.len() > 0 ==> after.cursor == p.len() - 1
    &&& p.len() == 0 ==> after.cursor == 0
    &&& after.forge == before.forge
}

/// Whether a new state is the current one of the history: it holds the stack as it is now and
/// the commit that git is at; what could be redone is gone; and the state before is the one
/// that was current, if two states fit.
pub open spec fn on_record(
    before: AppView,
    after: AppView,
    what: Seq<char>,
    head: Seq<char>,
    now: i64,
) -> bool {
    let h = after.history;
    let b = before.history;
    &&& h.entries.len() > 0
    &&& h.cursor == h.entries.len() - 1
    &&& h.entries[h.cursor as int] == EntryView {
        description: what,
        snapshot: after.stack,
        head_hash: head,
        timestamp: now,
    }
    &&& b.entries.len() > 0 && b.max_entries >= 2 && b.entries.len() <= b.max_entries ==> h.cursor
        >= 1 && h.entries[h.cursor - 1] == b.entries[b.cursor as int]
}

/// Whether the application waits for the user to resolve a conflict.
pub open spec fn in_conflict(before: AppView, after: AppView) -> bool {
    &&& after.wants_suspend == Some(SuspendView::RebaseConflict)
    &&& after.stack == before.stack
    &&& after.history == before.history
}

/// Whether nothing but a message came of an operation.
pub open spec fn only_told(before: AppView, after: AppView, text: Seq<char>) -> bool {
    after == AppView { notification: Some(text), ..before }
}

/// A move that git has carried out: the stack is what was read, the cursor follows the commit
/// that moved, and the new state is on record under the direction and the name.
pub proof fn law_moved(
    a: AppView,
    up: bool,
    name: Seq<char>,
    p: Seq<PatchView>,
    head: Seq<char>,
    now: i64,
)
    requires
        a.wf(),
        p.len() == a.stack.patches.len() <= usize::MAX,
        up ==> a.cursor + 1 < p.len(),
        !up ==> a.cursor > 0,
    ensures
        ({
            let b = a.swapped(
                up,
                name,
                RebasedView::Complete(ReloadedView { commits: Ok(p), head, now }),
            );
            &&& b.stack.patches == p
            &&& b.stack.base == a.stack.base
            &&& up ==> b.cursor == a.cursor + 1
            &&& !up ==> b.cursor == a.cursor - 1
            &&& on_record(
                a,
                b,
                (if up {
                    "move up: "@
                } else {
                    "move down: "@
                }) + name,
                head,
                now,
            )
            &&& b.notification == Some(
                if up {
                    "Patch moved up."@
                } else {
                    "Patch moved down."@
                },
            )
        }),
{
}

/// A removal that git has carried out.
pub proof fn law_removed(
    a: AppView,
    subject: Seq<char>,
    p: Seq<PatchView>,
    head: Seq<char>,
    now: i64,
)
    requires
        a.wf(),
        p.len() <= usize::MAX,
    ensures
        ({
            let b = a.removed(
                subject,
                RebasedView::Complete(ReloadedView { commits: Ok(p), head, now }),
            );
            &&& shows(a, b, p)
            &&& on_record(a, b, "remove: "@ + subject, head, now)
            &&& b.notification == Some("Removed: "@ + subject)
        }),
{
}

/// A move or a removal that stops at a conflict leaves the stack and the history as they were,
/// and the user is asked to resolve it; one that fails only says so.
pub proof fn law_not_carried_out(a: AppView, up: bool, name: Seq<char>, e: Seq<char>)
    ensures
        in_conflict(a, a.swapped(up, name, RebasedView::Conflict)),
        in_conflict(a, a.removed(name, RebasedView::Conflict)),
        only_told(a, a.swapped(up, name, RebasedView::Failed(e)), "Reorder failed: "@ + e),
        only_told(a, a.removed(name, RebasedView::Failed(e)), "Remove failed: "@ + e),
{
}

/// Undoing goes back one state and asks git for the commit of that state; redoing goes forward
/// one. With uncommitted changes, or at the end of the timeline, neither does anything.
pub proof fn law_steps(a: AppView, back: bool, dirty: bool)
    requires
        a.wf(),
    ensures
        ({
            let (b, head) = a.stepped(back, dirty);
            let h = a.history;
            let goes = !dirty && (if back {
                h.cursor > 0
            } else {
                h.cursor + 1 < h.entries.len()
            });
            let to = if back {
                h.cursor - 1
            } else {
                h.cursor as int + 1
            };
            &&& goes ==> {
                &&& head == Some(h.entries[to].head_hash)
                &&& b.history.cursor == to
                &&& b.history.entries == h.entries
                &&& b.stack == a.stack
            }
            &&& !goes ==> {
                &&& head is None
                &&& b.history == h
                &&& b.stack == a.stack
                &&& b.notification is Some
            }
        }),
{
}

/// Once git is at the commit of the state that was gone to, the stack is the one of that state,
/// and the cursor stays on it; if git fails, the stack stays.
pub proof fn law_restored(a: AppView, back: bool, e: Seq<char>)
    requires
        a.wf(),
        a.history.entries.len() > 0,
        a.history.entries[a.history.cursor as int].snapshot.patches.len() <= usize::MAX,
    ensures
        ({
            let b = a.restored(back, Ok(()));
            let c = a.restored(back, Err(e));
            let state = a.history.entries[a.history.cursor as int].snapshot;
            &&& b.stack == state
            &&& b.history == a.history
            &&& a.cursor < state.patches.len() ==> b.cursor == a.cursor
            &&& a.cursor >= state.patches.len() && state.patches.len() > 0 ==> b.cursor
                == state.patches.len() - 1
            &&& c.stack == a.stack
            &&& c.history == a.history
        }),
{
}

/// A diff is shown from its first line.
pub proof fn law_diff_shown(a: AppView, diff: Seq<char>, e: Seq<char>)
    ensures
        ({
            let b = a.diff_shown(Ok(diff));
            &&& b.mode == ModeView::DiffView
            &&& b.diff_scroll == 0
            &&& b.diff_content == pieces::lines(diff)
            &&& b.stack == a.stack
            &&& b.cursor == a.cursor
        }),
        only_told(a, a.diff_shown(Err(e)), "diff error: "@ + e),
{
}

/// Refreshing reads the stack again, and puts nothing on record.
pub proof fn law_refreshed(a: AppView, p: Seq<PatchView>, e: Seq<char>)
    requires
        p.len() <= usize::MAX,
    ensures
        shows(a, a.refreshed(Ok(p)), p),
        a.refreshed(Ok(p)).history == a.history,
        only_told(a, a.refreshed(Err(e)), "Refresh failed: "@ + e),
{
}

/// Editing a commit: the rebase pauses at it, and when the user is ready everything in the
/// working tree is staged, the commit is amended and keeps its message, the rest is rebased,
/// and the stack is read again.
#[verifier::rlimit(40)]
pub proof fn law_edit(a: AppView, hash: Seq<char>, added: RanView, out: Seq<char>, err: Seq<char>)
    ensures
        ({
            let t0 = run::task_for(SuspendView::EditCommit { hash });
            let (a1, t1, w1, k1) = run::task_step(a, t0, ReplyView::Done(Ok(())));
            let (a2, t2, w2, k2) = run::task_step(a1, t1, ReplyView::Rebase(Ok(false)));
            let (a3, t3, w3, k3) = run::task_step(a2, t2, ReplyView::Nothing);
            let (a4, t4, w4, k4) = run::task_step(a3, t3, ReplyView::Ran(added));
            let amended = RanView::Ended { success: true, stdout: out, stderr: err };
            let (a5, t5, w5, k5) = run::task_step(a4, t4, ReplyView::Ran(amended));
            let (a6, t6, w6, k6) = run::task_step(a5, t5, ReplyView::Rebase(Ok(true)));
            &&& run::first_ask(SuspendView::EditCommit { hash }) == AskView::Open
            &&& k1 == AskView::EditCommit(hash)
            &&& k2 == AskView::Enter
            &&& pulling::runs_git(k3, seq!["add"@, "-A"@])
            &&& pulling::runs_git(k4, seq!["commit"@, "--amend"@, "--no-edit"@])
            &&& k5 == AskView::Continue
            &&& k6 == AskView::Reload
            &&& a6 == a
            &&& t6 == TaskView::Edit(edit::EditView { hash, stage: edit::Stage::Reload })
        }),
{
}

/// The edited commit is on record.
pub proof fn law_edit_recorded(
    a: AppView,
    hash: Seq<char>,
    p: Seq<PatchView>,
    head: Seq<char>,
    now: i64,
)
    requires
        a.wf(),
        p.len() <= usize::MAX,
    ensures
        ({
            let r = ReloadedView { commits: Ok(p), head, now };
            let t = TaskView::Edit(edit::EditView { hash, stage: edit::Stage::Reload });
            let (b, u, w, k) = run::task_step(a, t, ReplyView::Stack(r));
            &&& k == AskView::End(Ok(()))
            &&& shows(a, b, p)
            &&& on_record(a, b, "edit commit "@ + hash, head, now)
        }),
{
}

/// An edit that is not carried out: the commit is not found, git fails, or the rest does not
/// apply, which is left to the user to resolve.
#[verifier::rlimit(40)]
pub proof fn law_edit_stops(a: AppView, hash: Seq<char>, e: Seq<char>, ran: (RanView, RanView))
    requires
        ran.1 is Ended,
    ensures
        ({
            let t0 = run::task_for(SuspendView::EditCommit { hash });
            let (a1, t1, w1, k1) = run::task_step(a, t0, ReplyView::Done(Ok(())));
            let found = run::task_step(a1, t1, ReplyView::Rebase(Ok(true)));
            let failed = run::task_step(a1, t1, ReplyView::Rebase(Err(e)));
            let (a2, t2, w2, k2) = run::task_step(a1, t1, ReplyView::Rebase(Ok(false)));
            let (a3, t3, w3, k3) = run::task_step(a2, t2, ReplyView::Nothing);
            let (a4, t4, w4, k4) = run::task_step(a3, t3, ReplyView::Ran(ran.0));
            let (a5, t5, w5, k5) = run::task_step(a4, t4, ReplyView::Ran(ran.1));
            let clash = run::task_step(a5, t5, ReplyView::Rebase(Ok(false)));
            let stuck = run::task_step(a5, t5, ReplyView::Rebase(Err(e)));
            &&& only_told(a, found.0, "Commit not found in stack range."@)
            &&& found.3 == AskView::End(Ok(()))
            &&& only_told(a, failed.0, "Edit failed: "@ + e)
            &&& failed.3 == AskView::End(Ok(()))
            &&& in_conflict(a, clash.0)
            &&& clash.3 == AskView::End(Ok(()))
            &&& stuck.0.stack == a.stack
            &&& stuck.0.history == a.history
            &&& stuck.0.notification == Some("Rebase continue failed: "@ + e)
        }),
{
}

/// Inserting at the top: the user commits, and the stack is read again.
#[verifier::rlimit(40)]
pub proof fn law_insert_top(a: AppView, p: Seq<PatchView>, head: Seq<char>, now: i64)
    requires
        a.wf(),
        p.len() <= usize::MAX,
    ensures
        ({
            let t0 = run::task_for(SuspendView::InsertAtHead);
            let (a1, t1, w1, k1) = run::task_step(a, t0, ReplyView::Nothing);
            let r = ReloadedView { commits: Ok(p), head, now };
            let (a2, t2, w2, k2) = run::task_step(a1, t1, ReplyView::Stack(r));
            &&& run::first_ask(SuspendView::InsertAtHead) == AskView::Enter
            &&& k1 == AskView::Reload
            &&& k2 == AskView::End(Ok(()))
            &&& shows(a, a2, p)
            &&& on_record(a, a2, "insert commit at top"@, head, now)
        }),
{
}

/// Inserting after a commit: the rebase breaks after it, the user commits, the rest is rebased
/// onto what was committed, and the stack is read again.
#[verifier::rlimit(40)]
pub proof fn law_insert_after(a: AppView, hash: Seq<char>, e: Seq<char>)
    ensures
        ({
            let t0 = run::task_for(SuspendView::InsertAfterCursor { hash });
            let (a1, t1, w1, k1) = run::task_step(a, t0, ReplyView::Done(Ok(())));
            let (a2, t2, w2, k2) = run::task_step(a1, t1, ReplyView::Rebase(Ok(false)));
            let missed = run::task_step(a1, t1, ReplyView::Rebase(Ok(true)));
            let failed = run::task_step(a1, t1, ReplyView::Rebase(Err(e)));
            let (a3, t3, w3, k3) = run::task_step(a2, t2, ReplyView::Nothing);
            let (a4, t4, w4, k4) = run::task_step(a3, t3, ReplyView::Rebase(Ok(true)));
            let clash = run::task_step(a3, t3, ReplyView::Rebase(Ok(false)));
            &&& run::first_ask(SuspendView::InsertAfterCursor { hash }) == AskView::Open
            &&& k1 == AskView::BreakAfter(hash)
            &&& k2 == AskView::Enter
            &&& k3 == AskView::Continue
            &&& k4 == AskView::Reload
            &&& a4 == a
            &&& t4 == TaskView::InsertAfter(
                insert::InsertAfterView { hash, stage: insert::Stage::Reload },
            )
            &&& in_conflict(a, clash.0)
            &&& only_told(
                a,
                missed.0,
                "Break point not reached. Try inserting at top instead (t)."@,
            )
            &&& only_told(a, failed.0, "Insert failed: "@ + e)
        }),
{
}

/// The inserted commit is on record.
pub proof fn law_insert_recorded(
    a: AppView,
    hash: Seq<char>,
    p: Seq<PatchView>,
    head: Seq<char>,
    now: i64,
)
    requires
        a.wf(),
        p.len() <= usize::MAX,
    ensures
        ({
            let r = ReloadedView { commits: Ok(p), head, now };
            let t = TaskView::InsertAfter(
                insert::InsertAfterView { hash, stage: insert::Stage::Reload },
            );
            let (b, u, w, k) = run::task_step(a, t, ReplyView::Stack(r));
            &&& k == AskView::End(Ok(()))
            &&& shows(a, b, p)
            &&& on_record(a, b, "insert commit after cursor"@, head, now)
        }),
{
}

/// Squashing: the user edits the messages, and the commits are folded, with the message that
/// the edited text gives, into one. A squash that stops at a conflict is left to the user.
#[verifier::rlimit(40)]
pub proof fn law_squash(
    a: AppView,
    hashes: Seq<Seq<char>>,
    body: Seq<char>,
    trailers: Seq<Seq<char>>,
    editor: Seq<char>,
    text: Seq<char>,
)
    requires
        squash::final_message(text, trailers) is Some,
    ensures
        ({
            let why = SuspendView::SquashCommits { hashes, default_body: body, trailers };
            let t0 = run::task_for(why);
            let (a1, t1, w1, k1) = run::task_step(a, t0, ReplyView::Text(editor));
            let (a2, t2, w2, k2) = run::task_step(
                a1,
                t1,
                ReplyView::Edited(EditedView::Saved(text)),
            );
            let (a3, t3, w3, k3) = run::task_step(a2, t2, ReplyView::Done(Ok(())));
            let (a4, t4, w4, k4) = run::task_step(a3, t3, ReplyView::Rebase(Ok(true)));
            let clash = run::task_step(a3, t3, ReplyView::Rebase(Ok(false)));
            &&& run::first_ask(why) == AskView::Editor
            &&& match k1 {
                AskView::Edit { name, content, editor: e } => {
                    &&& e == editor
                    &&& search::contains(content, body)
                    &&& forall|i: int|
                        0 <= i < trailers.len() ==> search::contains(content, #[trigger] trailers[i])
                },
                _ => false,
            }
            &&& k2 == AskView::Open
            &&& k3 == AskView::Squash {
                hashes,
                message: squash::final_message(text, trailers)->0,
            }
            &&& k4 == AskView::Reload
            &&& a4 == a
            &&& match t4 {
                TaskView::Squash(s) => s.stage == squash::Stage::Reload && s.hashes == hashes,
                _ => false,
            }
            &&& in_conflict(a, clash.0)
        }),
{
    lemma_draft(body, trailers);
}

/// A squash that is carried out is on record with the number of its commits.
pub proof fn law_squash_recorded(
    a: AppView,
    s: squash::SquashView,
    p: Seq<PatchView>,
    head: Seq<char>,
    now: i64,
)
    requires
        a.wf(),
        p.len() <= usize::MAX,
        s.stage == squash::Stage::Reload,
    ensures
        ({
            let r = ReloadedView { commits: Ok(p), head, now };
            let (b, t, w, k) = run::task_step(a, TaskView::Squash(s), ReplyView::Stack(r));
            &&& k == AskView::End(Ok(()))
            &&& shows(a, b, p)
            &&& on_record(a, b, "squash "@ + number::dec(s.hashes.len()) + " commits"@, head, now)
        }),
{
}

/// What the editor starts from holds the body and the trailers.
proof fn lemma_draft(body: Seq<char>, trailers: Seq<Seq<char>>)
    ensures
        search::contains(squash::initial_message(body, trailers), body),
        forall|i: int|
            0 <= i < trailers.len() ==> search::contains(
                squash::initial_message(body, trailers),
                #[trigger] trailers[i],
            ),
{
    reveal_strlit("\n");
    assert("\n"@ =~= seq!['\n']);
    let content = squash::initial_message(body, trailers);
    let before = squash::INSTRUCTIONS@;
    if trailers.len() == 0 {
        lemma_within(before, body, "\n"@, content);
    } else {
        let tail = "\n"@ + "\n"@ + pieces::ended(trailers, "\n"@);
        assert(content =~= before + body + tail);
        lemma_within(before, body, tail, content);
    }
    assert forall|i: int| 0 <= i < trailers.len() implies search::contains(
        content,
        #[trigger] trailers[i],
    ) by {
        let (x, y) = lemma_ended(trailers, "\n"@, i);
        let start = before + body + "\n"@ + "\n"@ + x;
        assert(content =~= start + trailers[i] + y);
        lemma_within(start, trailers[i], y, content);
    }
}

/// What stands inside a text occurs in it.
proof fn lemma_within(a: Seq<char>, b: Seq<char>, c: Seq<char>, all: Seq<char>)
    requires
        all == a + b + c,
    ensures
        search::contains(all, b),
{
    let i = a.len() as int;
    assert(all.subrange(i, i + b.len()) =~= b);
    search::lemma_contains(all, b);
}

/// Where one of the pieces stands among them.
proof fn lemma_ended(v: Seq<Seq<char>>, end: Seq<char>, i: int) -> (r: (Seq<char>, Seq<char>))
    requires
        0 <= i < v.len(),
    ensures
        pieces::ended(v, end) == r.0 + v[i] + r.1,
    decreases v.len(),
{
    if i == v.len() - 1 {
        (pieces::ended(v.drop_last(), end), end)
    } else {
        let (x, y) = lemma_ended(v.drop_last(), end, i);
        let z = y + v.last() + end;
        assert(x + v[i] + y + v.last() + end =~= x + v[i] + z);
        (x, z)
    }
}

/// A squash that the user gives up, by leaving no message or by leaving the editor with an
/// error, does nothing.
#[verifier::rlimit(40)]
pub proof fn law_squash_cancelled(
    a: AppView,
    hashes: Seq<Seq<char>>,
    body: Seq<char>,
    trailers: Seq<Seq<char>>,
    editor: Seq<char>,
    edited: EditedView,
    why: Seq<char>,
)
    requires
        edited matches EditedView::Saved(text) ==> squash::final_message(text, trailers) is None,
    ensures
        ({
            let t0 = run::task_for(
                SuspendView::SquashCommits { hashes, default_body: body, trailers },
            );
            let (a1, t1, w1, k1) = run::task_step(a, t0, ReplyView::Text(editor));
            let (a2, t2, w2, k2) = run::task_step(a1, t1, ReplyView::Edited(edited));
            &&& k2 == AskView::End(Ok(()))
            &&& a2.stack == a.stack
            &&& a2.history == a.history
            &&& a2.wants_suspend == a.wants_suspend
            &&& a2.notification is Some
        }),
{
}

/// In a conflict the files are listed and the user is asked for a key.
#[verifier::rlimit(40)]
pub proof fn law_conflict_asks(a: AppView, files: Seq<Seq<char>>, key: char)
    requires
        files.len() > 0,
    ensures
        ({
            let t0 = run::task_for(SuspendView::RebaseConflict);
            let (a1, t1, w1, k1) = run::task_step(a, t0, ReplyView::Done(Ok(())));
            let (a2, t2, w2, k2) = run::task_step(a1, t1, ReplyView::Texts(files));
            let (a3, t3, w3, k3) = run::task_step(a2, t2, ReplyView::Key(key));
            &&& k1 == AskView::Conflicts
            &&& k2 == AskView::Key
            &&& k3 == AskView::Open
            &&& a3 == a
            &&& key == 'c' ==> t3 == TaskView::Conflict(conflict::Stage::ContinueOpen)
            &&& key == 'a' ==> t3 == TaskView::Conflict(conflict::Stage::AbortOpen)
            &&& key != 'c' && key != 'a' ==> t3 == t0
        }),
{
}

/// The user who goes on has the rebase continued until it is complete, and the stack is then
/// read again; the user who aborts has it aborted.
#[verifier::rlimit(40)]
pub proof fn law_conflict_resolved(a: AppView)
    ensures
        ({
            let on = TaskView::Conflict(conflict::Stage::ContinueOpen);
            let (a1, t1, w1, k1) = run::task_step(a, on, ReplyView::Done(Ok(())));
            let (a2, t2, w2, k2) = run::task_step(a1, t1, ReplyView::Rebase(Ok(true)));
            let again = run::task_step(a1, t1, ReplyView::Rebase(Ok(false)));
            let off = TaskView::Conflict(conflict::Stage::AbortOpen);
            let (b1, u1, v1, l1) = run::task_step(a, off, ReplyView::Done(Ok(())));
            let (b2, u2, v2, l2) = run::task_step(b1, u1, ReplyView::Done(Ok(())));
            &&& k1 == AskView::Continue
            &&& k2 == AskView::Reload
            &&& a2 == a
            &&& t2 == TaskView::Conflict(conflict::Stage::Completed)
            &&& again.0 == a
            &&& again.3 == AskView::Conflicts
            &&& l1 == AskView::Abort
            &&& l2 == AskView::Reload
            &&& b2 == a
            &&& u2 == TaskView::Conflict(conflict::Stage::Aborted)
        }),
{
}

/// Either way the new state is on record.
pub proof fn law_conflict_recorded(
    a: AppView,
    done: bool,
    p: Seq<PatchView>,
    head: Seq<char>,
    now: i64,
)
    requires
        a.wf(),
        p.len() <= usize::MAX,
    ensures
        ({
            let r = ReloadedView { commits: Ok(p), head, now };
            let t = TaskView::Conflict(
                if done {
                    conflict::Stage::Completed
                } else {
                    conflict::Stage::Aborted
                },
            );
            let (b, u, w, k) = run::task_step(a, t, ReplyView::Stack(r));
            &&& k == AskView::End(Ok(()))
            &&& shows(a, b, p)
            &&& on_record(
                a,
                b,
                if done {
                    "rebase completed"@
                } else {
                    "rebase aborted"@
                },
                head,
                now,
            )
        }),
{
}

/// A rebase onto the base: the stack is rebased and read again. One that stops at a conflict
/// is left to the user, and one that fails only says so.
#[verifier::rlimit(40)]
pub proof fn law_rebase(a: AppView, e: Seq<char>)
    ensures
        ({
            let t0 = run::task_for(SuspendView::Rebase);
            let (a1, t1, w1, k1) = run::task_step(a, t0, ReplyView::Done(Ok(())));
            let (a2, t2, w2, k2) = run::task_step(a1, t1, ReplyView::Rebase(Ok(true)));
            let clash = run::task_step(a1, t1, ReplyView::Rebase(Ok(false)));
            let failed = run::task_step(a1, t1, ReplyView::Rebase(Err(e)));
            &&& k1 == AskView::RebaseOntoBase
            &&& k2 == AskView::Reload
            &&& a2 == a
            &&& t2 == TaskView::Rebase(rebase::Stage::Reload)
            &&& in_conflict(a, clash.0)
            &&& clash.3 == AskView::End(Ok(()))
            &&& only_told(a, failed.0, "Rebase failed: "@ + e)
        }),
{
}

/// The rebased stack is on record before anything is synced.
pub proof fn law_rebase_recorded(a: AppView, p: Seq<PatchView>, head: Seq<char>, now: i64)
    requires
        a.wf(),
        p.len() <= usize::MAX,
    ensures
        ({
            let r = ReloadedView { commits: Ok(p), head, now };
            let t = TaskView::Rebase(rebase::Stage::Reload);
            let (b, u, w, k) = run::task_step(a, t, ReplyView::Stack(r));
            &&& k == AskView::FixDependencies
            &&& u == TaskView::Rebase(rebase::Stage::Fix)
            &&& shows(a, b, p)
            &&& on_record(a, b, "rebase onto base"@, head, now)
        }),
{
}

/// After a rebase, the reviews are synced if there are any and the remote has nothing newer:
/// where it has, they are left alone. Where there are none, nothing is synced.
#[verifier::rlimit(40)]
pub proof fn law_rebase_syncs(
    a: AppView,
    i: int,
    diverged: Seq<(Seq<char>, Seq<char>)>,
    updates: Seq<Seq<char>>,
)
    ensures
        ({
            let t = TaskView::Rebase(rebase::Stage::Fix);
            let p = a.stack.patches;
            let (a1, t1, w1, k1) = run::task_step(a, t, ReplyView::Flag(false));
            let (a2, t2, w2, k2) = run::task_step(a1, t1, ReplyView::Diverged(Some(diverged)));
            let (a3, t3, w3, k3) = run::task_step(a2, t2, ReplyView::Synced(Some(Ok(updates))));
            let (a4, t4, w4, k4) = run::task_step(a3, t3, ReplyView::Nothing);
            &&& 0 <= i < p.len() && p[i].status == PatchStatus::Submitted ==> {
                &&& k1 == AskView::Diverged
                &&& diverged.len() == 0 ==> k2 == AskView::Sync && k3 == AskView::SaveState && k4
                    == AskView::Reload
                &&& diverged.len() > 0 ==> k2 == AskView::Reload
            }
            &&& (forall|m: int|
                0 <= m < p.len() ==> (#[trigger] p[m]).status
                    != PatchStatus::Submitted) ==> k1 == AskView::Cleanup
            &&& a3 == a
        }),
{
    lemma_some_submitted(a.stack.patches, i);
}

proof fn lemma_some_submitted(p: Seq<PatchView>, i: int)
    ensures
        0 <= i < p.len() && p[i].status == PatchStatus::Submitted
            ==> rebase::submitted(p) > 0,
        (forall|m: int|
            0 <= m < p.len() ==> (#[trigger] p[m]).status != PatchStatus::Submitted)
            ==> rebase::submitted(p) == 0,
    decreases p.len(),
{
    if p.len() > 0 {
        lemma_some_submitted(p.drop_last(), i);
        assert(forall|m: int|
            0 <= m < p.len() - 1 ==> p.drop_last()[m] == #[trigger] p[m]);
    }
}

/// After the sync, or without one, stale branches are dealt with, and the end is told.
pub proof fn law_rebase_ends(a: AppView, p: Seq<PatchView>, head: Seq<char>, now: i64, e: Seq<char>)
    requires
        p.len() <= usize::MAX,
    ensures
        ({
            let r = ReloadedView { commits: Ok(p), head, now };
            let failed = run::task_step(
                a,
                TaskView::Rebase(rebase::Stage::Sync),
                ReplyView::Synced(Some(Err(e))),
            );
            let (a1, t1, w1, k1) = run::task_step(
                a,
                TaskView::Rebase(rebase::Stage::Synced),
                ReplyView::Stack(r),
            );
            let (a2, t2, w2, k2) = run::task_step(a1, t1, ReplyView::Nothing);
            let (a3, t3, w3, k3) = run::task_step(
                a,
                TaskView::Rebase(rebase::Stage::Skip),
                ReplyView::Stack(r),
            );
            let (a4, t4, w4, k4) = run::task_step(a3, t3, ReplyView::Nothing);
            &&& failed.0 == a
            &&& failed.3 == AskView::Reload
            &&& k1 == AskView::Cleanup
            &&& shows(a, a1, p)
            &&& k2 == AskView::Enter
            &&& a2.notification == Some("Rebase completed."@)
            &&& k3 == AskView::Cleanup
            &&& k4 == AskView::Enter
            &&& a4.notification == Some(
                "Rebase done, sync skipped — remote has newer changes. Press P to pull."@,
            )
            &&& a2.history == a.history
            &&& a4.history == a.history
        }),
{
}

/// A conflict without files that are left is continued at once; one that comes up again is told
/// with its files, and the user is asked again.
pub proof fn law_conflict_again(a: AppView, files: Seq<Seq<char>>)
    ensures
        ({
            let none = run::task_step(
                a,
                TaskView::Conflict(conflict::Stage::Files),
                ReplyView::Texts(seq![]),
            );
            let (b, t, w, k) = run::task_step(
                a,
                TaskView::Conflict(conflict::Stage::Again),
                ReplyView::Texts(files),
            );
            &&& none.0 == a
            &&& none.1 == TaskView::Conflict(conflict::Stage::ContinueOpen)
            &&& none.3 == AskView::Open
            &&& in_conflict(a, b)
            &&& t == TaskView::Conflict(conflict::Stage::Open)
            &&& k == AskView::Open
            &&& b.notification == Some("CONFLICT: "@ + pieces::join(files, ", "@))
        }),
{
}

/// An amend that git refuses is told, with what git said, unless there was nothing to commit;
/// the rest is rebased either way.
pub proof fn law_amend_warned(a: AppView, hash: Seq<char>, out: Seq<char>, err: Seq<char>)
    ensures
        ({
            let t = TaskView::Edit(edit::EditView { hash, stage: edit::Stage::Amend });
            let ran = RanView::Ended { success: false, stdout: out, stderr: err };
            let (b, u, w, k) = run::task_step(a, t, ReplyView::Ran(ran));
            &&& k == AskView::Continue
            &&& search::contains(err, "nothing to commit"@) ==> b == a
            &&& !search::contains(err, "nothing to commit"@) ==> only_told(
                a,
                b,
                "Amend warning: "@ + chars::trim(err),
            )
        }),
{
}

} // verus!
