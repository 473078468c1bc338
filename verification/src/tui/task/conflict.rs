//! Resolving the conflicts of a rebase.
use vstd::prelude::*;

use super::super::app;
use super::super::app::{App, AppView, Reloaded, ReloadedView, SuspendReason, SuspendView};
use super::super::term;
use super::super::term::print_box;
use super::{ended, Ask, AskView, Reply, ReplyView};
use crate::text::chars::{concat2, concat3};
use crate::text::pieces;
use crate::text::pieces::joined;
use crate::text::views;

verus! {

broadcast use views::group_views;

/// Which answer the operation waits for.
#[derive(Debug, Clone, Copy, PartialEq, Eq, Structural)]
pub enum Stage {
    /// The repository.
    Open,
    /// The files with conflicts.
    Files,
    /// The user's choice.
    Key,
    /// The repository, to go on.
    ContinueOpen,
    /// The rest of the rebase.
    Continue,
    /// The stack, once the rebase is complete.
    Completed,
    /// The files with conflicts of the next commit.
    Again,
    /// The repository, to abort.
    AbortOpen,
    /// The abort of the rebase.
    Abort,
    /// The stack, once the rebase is aborted.
    Aborted,
    /// Nothing more.
    Over,
}

/// The lines that are said of conflicts.
pub open spec fn conflict_lines(files: Seq<Seq<char>>) -> Seq<Seq<char>> {
    seq!["Conflicting files:"@] + files.map_values(
        |f: Seq<char>| "  \x1b[1;33m"@ + f + "\x1b[0m"@,
    ) + seq![
        ""@,
        "Resolve conflicts, then stage: \x1b[1;33mgit add <files>\x1b[0m"@,
        ""@,
        "Press \x1b[1;32mc\x1b[0m to continue  or  \x1b[1;31ma\x1b[0m to abort"@,
    ]
}

/// What is said of conflicts.
pub open spec fn conflict_box(files: Seq<Seq<char>>) -> Seq<char> {
    term::box_text("31"@, "pilegit: rebase conflict"@, conflict_lines(files))
}

/// What is said of conflicts.
fn conflict_text(files: &Vec<String>) -> (r: String)
    ensures
        r@ == conflict_box(views::strs(files@)),
{
    let ghost all = views::strs(files@);
    let ghost f = |f: Seq<char>| "  \x1b[1;33m"@ + f + "\x1b[0m"@;
    let mut lines: Vec<String> = Vec::new();
    lines.push("Conflicting files:".to_owned());
    let mut i: usize = 0;
    proof {
        assert(views::strs(lines@) =~= seq!["Conflicting files:"@] + all.take(0).map_values(f));
    }
    while i < files.len()
        invariant
            i <= files@.len(),
            all == views::strs(files@),
            f == (|f: Seq<char>| "  \x1b[1;33m"@ + f + "\x1b[0m"@),
            views::strs(lines@) == seq!["Conflicting files:"@] + all.take(i as int).map_values(f),
        decreases files.len() - i,
    {
        let ghost before = views::strs(lines@);
        lines.push(concat3("  \x1b[1;33m", files[i].as_str(), "\x1b[0m"));
        proof {
            assert(all[i as int] == files@[i as int]@);
            assert(before.push(f(all[i as int])) =~= seq!["Conflicting files:"@] + all.take(
                i + 1,
            ).map_values(f));
        }
        i += 1;
    }
    let ghost before = views::strs(lines@);
    lines.push(String::new());
    lines.push("Resolve conflicts, then stage: \x1b[1;33mgit add <files>\x1b[0m".to_owned());
    lines.push(String::new());
    lines.push("Press \x1b[1;32mc\x1b[0m to continue  or  \x1b[1;31ma\x1b[0m to abort".to_owned());
    proof {
        reveal_strlit("");
        assert(""@ =~= Seq::<char>::empty());
        assert(all.take(i as int) =~= all);
        assert(views::strs(lines@) =~= conflict_lines(all));
    }
    print_box("31", "pilegit: rebase conflict", &lines)
}

/// After a rebase is complete.
pub open spec fn completed(a: AppView, r: ReloadedView) -> AppView {
    match r.commits {
        Ok(p) => a.reloaded(p).recorded("rebase completed"@, r.head, r.now).notified(
            "Rebase completed successfully."@,
        ),
        Err(e) => a.notified("Continue failed: "@ + e),
    }
}

/// After a rebase is aborted.
pub open spec fn aborted(a: AppView, r: ReloadedView) -> AppView {
    match r.commits {
        Ok(p) => a.reloaded(p).recorded("rebase aborted"@, r.head, r.now).notified(
            "Rebase aborted."@,
        ),
        Err(e) => a,
    }
}

impl App {
    /// Takes the stack in, once a rebase that was continued is complete.
    pub fn continue_rebase(&mut self, r: Reloaded)
        requires
            old(self)@.wf(),
            !old(self)@.selecting(),
        ensures
            final(self)@ == completed(old(self)@, r@),
            final(self)@.wf(),
            !final(self)@.selecting(),
    {
        match r.commits {
            Ok(commits) => {
                self.reload_stack(commits);
                self.record("rebase completed", r.head.as_str(), r.now);
                self.tell("Rebase completed successfully.");
            },
            Err(e) => self.notify(concat2("Continue failed: ", e.as_str())),
        }
    }

    /// Takes the stack in, once a rebase is aborted.
    pub fn abort_rebase(&mut self, r: Reloaded)
        requires
            old(self)@.wf(),
            !old(self)@.selecting(),
        ensures
            final(self)@ == aborted(old(self)@, r@),
            final(self)@.wf(),
            !final(self)@.selecting(),
    {
        if let Ok(commits) = r.commits {
            self.reload_stack(commits);
            self.record("rebase aborted", r.head.as_str(), r.now);
            self.tell("Rebase aborted.");
        }
    }
}

/// Handle rebase conflicts: the first step.
pub fn handle_rebase_conflict() -> (r: (Stage, Ask))
    ensures
        r.0 == Stage::Open,
        r.1@ == AskView::Open,
{
    (Stage::Open, Ask::Open)
}

/// What follows an answer. Without conflicts the rebase goes on by itself; with them, the
/// user chooses to go on or to abort.
pub open spec fn conflict_step(a: AppView, stage: Stage, reply: ReplyView) -> (
    AppView,
    Stage,
    Seq<char>,
    AskView,
) {
    let quiet = super::silence();
    match (stage, reply) {
        (Stage::Open, ReplyView::Done(r)) => match r {
            Ok(u) => (a, Stage::Files, quiet, AskView::Conflicts),
            Err(e) => (a, Stage::Over, quiet, super::fail(e)),
        },
        (Stage::Files, ReplyView::Texts(files)) => if files.len() == 0 {
            (
                a,
                Stage::ContinueOpen,
                "  No remaining conflicts. Continuing rebase...\n"@,
                AskView::Open,
            )
        } else {
            (a, Stage::Key, conflict_box(files), AskView::Key)
        },
        (Stage::Key, ReplyView::Key(c)) => if c == 'c' {
            (a, Stage::ContinueOpen, "  Continuing rebase...\n"@, AskView::Open)
        } else if c == 'a' {
            (a, Stage::AbortOpen, "  Aborting rebase...\n"@, AskView::Open)
        } else {
            (a, Stage::Open, "  Press 'c' to continue or 'a' to abort.\n"@, AskView::Open)
        },
        (Stage::ContinueOpen, ReplyView::Done(r)) => match r {
            Ok(u) => (a, Stage::Continue, quiet, AskView::Continue),
            Err(e) => (a.notified("Continue failed: "@ + e), Stage::Over, quiet, super::end()),
        },
        (Stage::Continue, ReplyView::Rebase(r)) => match r {
            Ok(complete) => if complete {
                (a, Stage::Completed, quiet, AskView::Reload)
            } else {
                (a, Stage::Again, quiet, AskView::Conflicts)
            },
            Err(e) => (a.notified("Continue failed: "@ + e), Stage::Over, quiet, super::end()),
        },
        (Stage::Completed, ReplyView::Stack(r)) => (
            completed(a, r),
            Stage::Over,
            quiet,
            super::end(),
        ),
        (Stage::Again, ReplyView::Texts(files)) => (
            a.notified("CONFLICT: "@ + pieces::join(files, ", "@)).suspended(
                SuspendView::RebaseConflict,
            ),
            Stage::Open,
            quiet,
            AskView::Open,
        ),
        (Stage::AbortOpen, ReplyView::Done(r)) => match r {
            Ok(u) => (a, Stage::Abort, quiet, AskView::Abort),
            Err(e) => (a, Stage::Over, quiet, super::end()),
        },
        (Stage::Abort, ReplyView::Done(r)) => match r {
            Ok(u) => (a, Stage::Aborted, quiet, AskView::Reload),
            Err(e) => (a, Stage::Over, quiet, super::end()),
        },
        (Stage::Aborted, ReplyView::Stack(r)) => (
            aborted(a, r),
            Stage::Over,
            quiet,
            super::end(),
        ),
        _ => (a, Stage::Over, quiet, super::end()),
    }
}

impl Stage {
    /// What follows an answer.
    pub fn step(self, app: &mut App, reply: Reply) -> (r: (Stage, String, Ask))
        requires
            old(app)@.wf(),
            !old(app)@.selecting(),
        ensures
            final(app)@ == conflict_step(old(app)@, self, reply@).0,
            r.0 == conflict_step(old(app)@, self, reply@).1,
            r.1@ == conflict_step(old(app)@, self, reply@).2,
            r.2@ == conflict_step(old(app)@, self, reply@).3,
            final(app)@.wf(),
            !final(app)@.selecting(),
    {
        let quiet = String::new();
        match (self, reply) {
            (Stage::Open, Reply::Done(r)) => match r {
                Ok(u) => (Stage::Files, quiet, Ask::Conflicts),
                Err(e) => (Stage::Over, quiet, Ask::End(Err(e))),
            },
            (Stage::Files, Reply::Texts(files)) => {
                proof {
                    assert(views::strs(files@).len() == files@.len());
                }
                if files.len() == 0 {
                    (
                        Stage::ContinueOpen,
                        "  No remaining conflicts. Continuing rebase...\n".to_owned(),
                        Ask::Open,
                    )
                } else {
                    (Stage::Key, conflict_text(&files), Ask::Key)
                }
            },
            (Stage::Key, Reply::Key(c)) => {
                if c == 'c' {
                    (Stage::ContinueOpen, "  Continuing rebase...\n".to_owned(), Ask::Open)
                } else if c == 'a' {
                    (Stage::AbortOpen, "  Aborting rebase...\n".to_owned(), Ask::Open)
                } else {
                    (
                        Stage::Open,
                        "  Press 'c' to continue or 'a' to abort.\n".to_owned(),
                        Ask::Open,
                    )
                }
            },
            (Stage::ContinueOpen, Reply::Done(r)) => match r {
                Ok(u) => (Stage::Continue, quiet, Ask::Continue),
                Err(e) => {
                    app.notify(concat2("Continue failed: ", e.as_str()));
                    (Stage::Over, quiet, ended())
                },
            },
            (Stage::Continue, Reply::Rebase(r)) => match r {
                Ok(complete) => {
                    if complete {
                        (Stage::Completed, quiet, Ask::Reload)
                    } else {
                        (Stage::Again, quiet, Ask::Conflicts)
                    }
                },
                Err(e) => {
                    app.notify(concat2("Continue failed: ", e.as_str()));
                    (Stage::Over, quiet, ended())
                },
            },
            (Stage::Completed, Reply::Stack(r)) => {
                app.continue_rebase(r);
                (Stage::Over, quiet, ended())
            },
            (Stage::Again, Reply::Texts(files)) => {
                let list = joined(&files, ", ");
                app.notify(concat2("CONFLICT: ", list.as_str()));
                app.wants_suspend = Some(SuspendReason::RebaseConflict);
                (Stage::Open, quiet, Ask::Open)
            },
            (Stage::AbortOpen, Reply::Done(r)) => match r {
                Ok(u) => (Stage::Abort, quiet, Ask::Abort),
                Err(e) => (Stage::Over, quiet, ended()),
            },
            (Stage::Abort, Reply::Done(r)) => match r {
                Ok(u) => (Stage::Aborted, quiet, Ask::Reload),
                Err(e) => (Stage::Over, quiet, ended()),
            },
            (Stage::Aborted, Reply::Stack(r)) => {
                app.abort_rebase(r);
                (Stage::Over, quiet, ended())
            },
            _ => (Stage::Over, quiet, ended()),
        }
    }
}

} // verus!
