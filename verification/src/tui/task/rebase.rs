//! Rebasing the stack onto its base.
use vstd::prelude::*;

use super::super::app;
use super::super::app::{App, AppView, SuspendReason, SuspendView};
use super::super::term;
use super::super::term::{bad_text, each_text, good_text, heading_text, seconds};
use super::{ended, Ask, AskView, Reply, ReplyView};
use crate::stack::{PatchEntry, PatchStatus, PatchView};
use crate::stack;
use crate::text::chars::{concat2, concat3, concat4};
use crate::text::number;
use crate::text::number::decimal;
use crate::text::views;

verus! {

broadcast use views::group_views;

/// Which answer a rebase waits for.
#[derive(Debug, Clone, Copy, PartialEq, Eq, Structural)]
pub enum Stage {
    /// The repository.
    Open,
    /// The rebase.
    Rebase,
    /// The stack.
    Reload,
    /// The dependencies.
    Fix,
    /// The stack, with its dependencies fixed.
    Fixed,
    /// The reviews that were changed by someone else.
    Diverged,
    /// The stack, where reviews were changed.
    Skip,
    /// The stale branches, where reviews were changed.
    SkipCleanup,
    /// The reviews.
    Sync,
    /// The record of what was pushed.
    Save,
    /// The stack, with its reviews up to date.
    Synced,
    /// The stale branches.
    Cleanup,
    /// Enter.
    Enter,
    /// Nothing more.
    Over,
}

/// Which answer a rebase waits for, and what is said while it does.
pub type Out = (AppView, Stage, Seq<char>, AskView);

/// How many commits are submitted.
pub open spec fn submitted(p: Seq<PatchView>) -> nat
    decreases p.len(),
{
    if p.len() == 0 {
        0
    } else {
        submitted(p.drop_last()) + (if p.last().status == PatchStatus::Submitted {
            1nat
        } else {
            0
        })
    }
}

/// How many commits are submitted.
pub fn count_submitted(patches: &Vec<PatchEntry>) -> (r: usize)
    ensures
        r == submitted(stack::patches(patches@)),
{
    let ghost p = stack::patches(patches@);
    let mut n: usize = 0;
    let mut i: usize = 0;
    proof {
        assert(p.take(0) =~= Seq::<PatchView>::empty());
    }
    while i < patches.len()
        invariant
            i <= patches@.len(),
            n <= i,
            p == stack::patches(patches@),
            n == submitted(p.take(i as int)),
        decreases patches.len() - i,
    {
        proof {
            assert(p.take(i + 1).drop_last() =~= p.take(i as int));
            assert(p.take(i + 1).last() == patches@[i as int]@);
        }
        if patches[i].status == PatchStatus::Submitted {
            n += 1;
        }
        i += 1;
    }
    proof {
        assert(p.take(i as int) =~= p);
    }
    n
}

/// What is said of a complete rebase.
pub open spec fn completed(n: nat) -> Seq<char> {
    term::CLEAR@ + "\n"@ + term::good_line(
        "Rebase completed. Stack: "@ + number::dec(n) + " commits."@,
    )
}

/// What is said of a complete rebase.
fn completed_text(n: usize) -> (r: String)
    ensures
        r@ == completed(n as nat),
{
    let d = decimal(n as u64);
    let text = concat3("Rebase completed. Stack: ", d.as_str(), " commits.");
    let line = good_text(text.as_str());
    concat3(term::CLEAR, "\n", line.as_str())
}

/// What is said where the reviews are brought up to date.
pub open spec fn syncing(n: nat) -> Seq<char> {
    term::heading("Syncing "@ + number::dec(n) + " submitted PRs..."@)
}

/// What is said where the reviews are brought up to date.
fn syncing_text(n: usize) -> (r: String)
    ensures
        r@ == syncing(n as nat),
{
    let d = decimal(n as u64);
    let text = concat3("Syncing ", d.as_str(), " submitted PRs...");
    heading_text(text.as_str())
}

/// What is said where reviews were changed by someone else.
pub open spec fn skipped(diverged: Seq<(Seq<char>, Seq<char>)>) -> Seq<char> {
    "\n  \x1b[1;31m⚠ Remote has newer changes — skipping sync.\x1b[0m\n"@ + term::each(
        "    \x1b[33m"@,
        term::second_of(diverged),
        "\x1b[0m\n"@,
    ) + "\n  Press \x1b[1;32mP\x1b[0m to pull remote changes, then sync.\n"@
}

/// What is said of the reviews that are up to date.
pub open spec fn synced(n: nat, updates: Seq<Seq<char>>) -> Seq<char> {
    completed(n) + "\n"@ + term::good_line(
        "Synced "@ + number::dec(updates.len()) + " PRs:"@,
    ) + term::each("    "@, updates, "\n"@)
}

/// What is said of the reviews that are up to date.
fn synced_text(n: usize, updates: &Vec<String>) -> (r: String)
    ensures
        r@ == synced(n as nat, views::strs(updates@)),
{
    proof {
        assert(views::strs(updates@).len() == updates@.len());
    }
    let start = completed_text(n);
    let d = decimal(updates.len() as u64);
    let text = concat3("Synced ", d.as_str(), " PRs:");
    let line = good_text(text.as_str());
    let list = each_text("    ", updates, "\n");
    concat4(start.as_str(), "\n", line.as_str(), list.as_str())
}

/// Rebase onto base: the first step. After rebasing, any submitted PRs are synced to
/// update their branches with the new commit hashes.
pub fn handle_rebase() -> (r: (Stage, String, Ask))
    ensures
        r.0 == Stage::Open,
        r.1@ == term::CLEAR@ + term::heading("Rebasing stack..."@),
        r.2@ == AskView::Open,
{
    let head = heading_text("Rebasing stack...");
    (Stage::Open, concat2(term::CLEAR, head.as_str()), Ask::Open)
}

/// What follows once the stack is read after the rebase: where commits are submitted,
/// their reviews are looked at.
pub open spec fn after_rebase(a: AppView) -> Out {
    if submitted(a.stack.patches) > 0 {
        (a, Stage::Diverged, completed(a.len()), AskView::Diverged)
    } else {
        (a, Stage::Cleanup, completed(a.len()), AskView::Cleanup)
    }
}

/// With what was read of the stack, if anything was.
pub open spec fn maybe_reloaded(a: AppView, commits: Result<Seq<PatchView>, Seq<char>>) -> AppView {
    match commits {
        Ok(p) => a.reloaded(p),
        Err(e) => a,
    }
}

/// What follows an answer.
pub open spec fn rebase_step(a: AppView, stage: Stage, reply: ReplyView) -> Out {
    let quiet = super::silence();
    match (stage, reply) {
        (Stage::Open, ReplyView::Done(r)) => match r {
            Ok(u) => (a, Stage::Rebase, quiet, AskView::RebaseOntoBase),
            Err(e) => (a, Stage::Over, quiet, super::fail(e)),
        },
        (Stage::Rebase, ReplyView::Rebase(r)) => match r {
            Ok(complete) => if complete {
                (a, Stage::Reload, quiet, AskView::Reload)
            } else {
                (
                    a.notified("Conflict during rebase."@).suspended(SuspendView::RebaseConflict),
                    Stage::Over,
                    term::CLEAR@ + "\n  \x1b[31m⚠ Conflicts detected.\x1b[0m\n"@,
                    super::end(),
                )
            },
            Err(e) => (
                a.notified("Rebase failed: "@ + e),
                Stage::Enter,
                term::CLEAR@ + "\n"@ + term::bad_line("Rebase failed: "@, e) + term::PRESS_ENTER@,
                AskView::Enter,
            ),
        },
        (Stage::Reload, ReplyView::Stack(r)) => match r.commits {
            Ok(p) => (
                a.reloaded(p).recorded("rebase onto base"@, r.head, r.now),
                Stage::Fix,
                quiet,
                AskView::FixDependencies,
            ),
            Err(e) => (a, Stage::Over, quiet, super::fail(e)),
        },
        (Stage::Fix, ReplyView::Flag(opened)) => if opened {
            (a, Stage::Fixed, quiet, AskView::Reload)
        } else {
            after_rebase(a)
        },
        (Stage::Fixed, ReplyView::Stack(r)) => after_rebase(maybe_reloaded(a, r.commits)),
        (Stage::Diverged, ReplyView::Diverged(d)) => match d {
            Some(v) => if v.len() > 0 {
                (a, Stage::Skip, skipped(v), AskView::Reload)
            } else {
                (a, Stage::Sync, syncing(submitted(a.stack.patches)), AskView::Sync)
            },
            None => (a, Stage::Sync, syncing(submitted(a.stack.patches)), AskView::Sync),
        },
        (Stage::Skip, ReplyView::Stack(r)) => (
            maybe_reloaded(a, r.commits),
            Stage::SkipCleanup,
            quiet,
            AskView::Cleanup,
        ),
        (Stage::SkipCleanup, ReplyView::Nothing) => (
            a.notified("Rebase done, sync skipped — remote has newer changes. Press P to pull."@),
            Stage::Enter,
            term::PRESS_ENTER@,
            AskView::Enter,
        ),
        (Stage::Sync, ReplyView::Synced(s)) => match s {
            Some(Ok(updates)) => (a, Stage::Save, synced(a.len(), updates), AskView::SaveState),
            Some(Err(e)) => (
                a,
                Stage::Synced,
                "    \x1b[31mSync warning: "@ + e + "\x1b[0m\n"@,
                AskView::Reload,
            ),
            None => (a, Stage::Synced, quiet, AskView::Reload),
        },
        (Stage::Save, ReplyView::Nothing) => (a, Stage::Synced, quiet, AskView::Reload),
        (Stage::Synced, ReplyView::Stack(r)) => (
            maybe_reloaded(a, r.commits),
            Stage::Cleanup,
            quiet,
            AskView::Cleanup,
        ),
        (Stage::Cleanup, ReplyView::Nothing) => (
            a.notified("Rebase completed."@),
            Stage::Enter,
            term::PRESS_ENTER@,
            AskView::Enter,
        ),
        _ => (a, Stage::Over, quiet, super::end()),
    }
}

/// What follows once the stack is read after the rebase.
fn go_on(app: &App) -> (r: (Stage, String, Ask))
    ensures
        after_rebase(app@).0 == app@,
        r.0 == after_rebase(app@).1,
        r.1@ == after_rebase(app@).2,
        r.2@ == after_rebase(app@).3,
{
    let say = completed_text(app.stack.len());
    if count_submitted(&app.stack.patches) > 0 {
        (Stage::Diverged, say, Ask::Diverged)
    } else {
        (Stage::Cleanup, say, Ask::Cleanup)
    }
}

/// Takes what was read of the stack, if anything was.
pub fn reload_if_read(app: &mut App, commits: Result<Vec<PatchEntry>, String>)
    requires
        old(app)@.wf(),
        !old(app)@.selecting(),
    ensures
        final(app)@ == maybe_reloaded(old(app)@, app::commits_view(commits)),
        final(app)@.wf(),
        !final(app)@.selecting(),
{
    if let Ok(c) = commits {
        app.reload_stack(c);
    }
}

/// What is said where reviews were changed by someone else.
fn skipped_text(v: &Vec<(String, String)>) -> (r: String)
    ensures
        r@ == skipped(views::pairs(v@)),
{
    let list = seconds(v);
    let list = each_text("    \x1b[33m", &list, "\x1b[0m\n");
    concat3(
        "\n  \x1b[1;31m⚠ Remote has newer changes — skipping sync.\x1b[0m\n",
        list.as_str(),
        "\n  Press \x1b[1;32mP\x1b[0m to pull remote changes, then sync.\n",
    )
}

impl Stage {
    /// What follows an answer.
    pub fn step(self, app: &mut App, reply: Reply) -> (r: (Stage, String, Ask))
        requires
            old(app)@.wf(),
            !old(app)@.selecting(),
        ensures
            final(app)@ == rebase_step(old(app)@, self, reply@).0,
            r.0 == rebase_step(old(app)@, self, reply@).1,
            r.1@ == rebase_step(old(app)@, self, reply@).2,
            r.2@ == rebase_step(old(app)@, self, reply@).3,
            final(app)@.wf(),
            !final(app)@.selecting(),
    {
        let quiet = String::new();
        match (self, reply) {
            (Stage::Open, Reply::Done(r)) => match r {
                Ok(u) => (Stage::Rebase, quiet, Ask::RebaseOntoBase),
                Err(e) => (Stage::Over, quiet, Ask::End(Err(e))),
            },
            (Stage::Rebase, Reply::Rebase(r)) => match r {
                Ok(complete) => {
                    if complete {
                        (Stage::Reload, quiet, Ask::Reload)
                    } else {
                        app.tell("Conflict during rebase.");
                        app.wants_suspend = Some(SuspendReason::RebaseConflict);
                        let say = concat2(
                            term::CLEAR,
                            "\n  \x1b[31m⚠ Conflicts detected.\x1b[0m\n",
                        );
                        (Stage::Over, say, ended())
                    }
                },
                Err(e) => {
                    app.notify(concat2("Rebase failed: ", e.as_str()));
                    let line = bad_text("Rebase failed: ", e.as_str());
                    let say = concat4(term::CLEAR, "\n", line.as_str(), term::PRESS_ENTER);
                    (Stage::Enter, say, Ask::Enter)
                },
            },
            (Stage::Reload, Reply::Stack(r)) => match r.commits {
                Ok(commits) => {
                    app.reload_stack(commits);
                    app.record_reload("rebase onto base", r.head.as_str(), r.now);
                    (Stage::Fix, quiet, Ask::FixDependencies)
                },
                Err(e) => (Stage::Over, quiet, Ask::End(Err(e))),
            },
            (Stage::Fix, Reply::Flag(opened)) => {
                if opened {
                    (Stage::Fixed, quiet, Ask::Reload)
                } else {
                    go_on(&*app)
                }
            },
            (Stage::Fixed, Reply::Stack(r)) => {
                reload_if_read(app, r.commits);
                go_on(&*app)
            },
            (Stage::Diverged, Reply::Diverged(d)) => {
                let n = count_submitted(&app.stack.patches);
                match d {
                    Some(v) => {
                        proof {
                            assert(views::pairs(v@).len() == v@.len());
                        }
                        if v.len() > 0 {
                            (Stage::Skip, skipped_text(&v), Ask::Reload)
                        } else {
                            (Stage::Sync, syncing_text(n), Ask::Sync)
                        }
                    },
                    None => (Stage::Sync, syncing_text(n), Ask::Sync),
                }
            },
            (Stage::Skip, Reply::Stack(r)) => {
                reload_if_read(app, r.commits);
                (Stage::SkipCleanup, quiet, Ask::Cleanup)
            },
            (Stage::SkipCleanup, Reply::Nothing) => {
                app.tell(
                    "Rebase done, sync skipped — remote has newer changes. Press P to pull.",
                );
                (Stage::Enter, term::PRESS_ENTER.to_owned(), Ask::Enter)
            },
            (Stage::Sync, Reply::Synced(s)) => match s {
                Some(Ok(updates)) => (
                    Stage::Save,
                    synced_text(app.stack.len(), &updates),
                    Ask::SaveState,
                ),
                Some(Err(e)) => (
                    Stage::Synced,
                    concat3("    \x1b[31mSync warning: ", e.as_str(), "\x1b[0m\n"),
                    Ask::Reload,
                ),
                None => (Stage::Synced, quiet, Ask::Reload),
            },
            (Stage::Save, Reply::Nothing) => (Stage::Synced, quiet, Ask::Reload),
            (Stage::Synced, Reply::Stack(r)) => {
                reload_if_read(app, r.commits);
                (Stage::Cleanup, quiet, Ask::Cleanup)
            },
            (Stage::Cleanup, Reply::Nothing) => {
                app.tell("Rebase completed.");
                (Stage::Enter, term::PRESS_ENTER.to_owned(), Ask::Enter)
            },
            _ => (Stage::Over, quiet, ended()),
        }
    }
}

/// Reviews that someone else changed are not overwritten: where there are any, nothing is
/// brought up to date.
pub proof fn law_rebase_never_overwrites(a: AppView, d: Seq<(Seq<char>, Seq<char>)>)
    requires
        d.len() > 0,
    ensures
        ({
            let one = rebase_step(a, Stage::Diverged, ReplyView::Diverged(Some(d)));
            one.0 == a && one.1 == Stage::Skip && one.3 == AskView::Reload
        }),
        forall|reply: ReplyView|
            #![trigger rebase_step(a, Stage::Skip, reply)]
            !(rebase_step(a, Stage::Skip, reply).3 is Sync),
        forall|reply: ReplyView|
            #![trigger rebase_step(a, Stage::SkipCleanup, reply)]
            !(rebase_step(a, Stage::SkipCleanup, reply).3 is Sync),
{
}

} // verus!
