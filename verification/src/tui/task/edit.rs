//! Editing a commit.
use vstd::prelude::*;

use super::super::app;
use super::super::app::{App, AppView, SuspendReason, SuspendView};
use super::super::term;
use super::super::term::print_box;
use super::{ended, Ask, AskView, Reply, ReplyView};
use crate::git::call;
use crate::git::call::{capture, Ran, RanView};
use crate::text::args::args;
use crate::text::chars;
use crate::text::chars::{concat2, trimmed};
use crate::text::search;
use crate::text::search::occurs;
use crate::text::views;

verus! {

broadcast use views::group_views;

/// Which answer an edit waits for.
#[derive(Debug, Clone, Copy, PartialEq, Eq, Structural)]
pub enum Stage {
    /// The repository.
    Open,
    /// The pause of the rebase at the commit.
    Pause,
    /// Enter, once the changes are made.
    Enter,
    /// The staging of the changes.
    Add,
    /// The amendment of the commit.
    Amend,
    /// The rest of the rebase.
    Continue,
    /// The stack.
    Reload,
    /// Nothing more.
    Over,
}

/// An edit under way.
pub struct Edit {
    pub hash: String,
    pub stage: Stage,
}

/// An edit as it is seen in contracts.
#[verifier::ext_equal]
pub struct EditView {
    pub hash: Seq<char>,
    pub stage: Stage,
}

impl View for Edit {
    type V = EditView;

    open spec fn view(&self) -> EditView {
        EditView { hash: self.hash@, stage: self.stage }
    }
}

/// The lines that are said once the rebase has paused.
pub open spec fn edit_lines() -> Seq<Seq<char>> {
    seq![
        "Rebase is paused at this commit."@,
        "The working tree has the state of this commit."@,
        "Make your changes to the code now."@,
        ""@,
        "When you press \x1b[1;32mEnter\x1b[0m, pilegit will:"@,
        "  1. Stage all changes  (git add -A)"@,
        "  2. Amend this commit  (git commit --amend --no-edit)"@,
        "  3. Rebase the remaining commits on top"@,
        ""@,
        "Press \x1b[1;32mEnter\x1b[0m when ready."@,
    ]
}

/// What is said once the rebase has paused.
pub open spec fn edit_box(hash: Seq<char>) -> Seq<char> {
    term::box_text("33"@, "pilegit: editing commit "@ + hash, edit_lines())
}

/// What is said once the rebase has paused.
fn edit_text(hash: &str) -> (r: String)
    ensures
        r@ == edit_box(hash@),
{
    let lines = args(
        &[
            "Rebase is paused at this commit.",
            "The working tree has the state of this commit.",
            "Make your changes to the code now.",
            "",
            "When you press \x1b[1;32mEnter\x1b[0m, pilegit will:",
            "  1. Stage all changes  (git add -A)",
            "  2. Amend this commit  (git commit --amend --no-edit)",
            "  3. Rebase the remaining commits on top",
            "",
            "Press \x1b[1;32mEnter\x1b[0m when ready.",
        ],
    );
    proof {
        assert(views::strs(lines@) =~= edit_lines());
    }
    let title = concat2("pilegit: editing commit ", hash);
    print_box("33", title.as_str(), &lines)
}

/// Stages all changes.
pub open spec fn ask_add() -> AskView {
    AskView::Run(call::captured("git"@, seq!["add"@, "-A"@]))
}

/// Stages all changes.
pub fn add_all() -> (r: Ask)
    ensures
        r@ == ask_add(),
{
    Ask::Run(capture("git", args(&["add", "-A"])))
}

/// Amends the commit, with its message as it is.
pub open spec fn ask_amend() -> AskView {
    AskView::Run(call::captured("git"@, seq!["commit"@, "--amend"@, "--no-edit"@]))
}

/// Amends the commit, with its message as it is.
pub fn amend_commit() -> (r: Ask)
    ensures
        r@ == ask_amend(),
{
    Ask::Run(capture("git", args(&["commit", "--amend", "--no-edit"])))
}

/// Edit/amend a specific commit: the first step.
pub fn handle_edit_commit(hash: String) -> (r: (Edit, Ask))
    ensures
        r.0@ == (EditView { hash: hash@, stage: Stage::Open }),
        r.1@ == AskView::Open,
{
    (Edit { hash, stage: Stage::Open }, Ask::Open)
}

/// What follows an answer. The rebase pauses at the commit, the user makes changes, and
/// then they are staged and amended, and the rest is replayed.
pub open spec fn edit_step(a: AppView, s: EditView, reply: ReplyView) -> (
    AppView,
    EditView,
    Seq<char>,
    AskView,
) {
    let over = EditView { stage: Stage::Over, ..s };
    let quiet = super::silence();
    match (s.stage, reply) {
        (Stage::Open, ReplyView::Done(r)) => match r {
            Ok(u) => (
                a,
                EditView { stage: Stage::Pause, ..s },
                quiet,
                AskView::EditCommit(s.hash),
            ),
            Err(e) => (a, over, quiet, super::fail(e)),
        },
        (Stage::Pause, ReplyView::Rebase(r)) => match r {
            Ok(complete) => if complete {
                (a.notified("Commit not found in stack range."@), over, quiet, super::end())
            } else {
                (a, EditView { stage: Stage::Enter, ..s }, edit_box(s.hash), AskView::Enter)
            },
            Err(e) => (a.notified("Edit failed: "@ + e), over, quiet, super::end()),
        },
        (Stage::Enter, ReplyView::Nothing) => (
            a,
            EditView { stage: Stage::Add, ..s },
            "  Staging and amending...\n"@,
            ask_add(),
        ),
        (Stage::Add, ReplyView::Ran(r)) => (
            a,
            EditView { stage: Stage::Amend, ..s },
            quiet,
            ask_amend(),
        ),
        (Stage::Amend, ReplyView::Ran(r)) => match r {
            RanView::Lost(e) => (a, over, quiet, super::fail(e)),
            RanView::Ended { success, stdout, stderr } => (
                if !success && !search::contains(stderr, "nothing to commit"@) {
                    a.notified("Amend warning: "@ + chars::trim(stderr))
                } else {
                    a
                },
                EditView { stage: Stage::Continue, ..s },
                quiet,
                AskView::Continue,
            ),
        },
        (Stage::Continue, ReplyView::Rebase(r)) => match r {
            Ok(complete) => if complete {
                (a, EditView { stage: Stage::Reload, ..s }, quiet, AskView::Reload)
            } else {
                (
                    a.notified("Conflict during rebase after edit."@).suspended(
                        SuspendView::RebaseConflict,
                    ),
                    over,
                    quiet,
                    super::end(),
                )
            },
            Err(e) => (a.notified("Rebase continue failed: "@ + e), over, quiet, super::end()),
        },
        (Stage::Reload, ReplyView::Stack(r)) => match r.commits {
            Ok(p) => (
                a.reloaded(p).recorded("edit commit "@ + s.hash, r.head, r.now).notified(
                    "Commit edited and rebased successfully."@,
                ),
                over,
                quiet,
                super::end(),
            ),
            Err(e) => (a, over, quiet, super::fail(e)),
        },
        _ => (a, over, quiet, super::end()),
    }
}

impl Edit {
    /// The same edit, which waits for another answer.
    fn at(self, stage: Stage) -> (r: Edit)
        ensures
            r@ == (EditView { stage, ..self@ }),
    {
        Edit { stage, ..self }
    }

    /// What follows an answer.
    pub fn step(self, app: &mut App, reply: Reply) -> (r: (Edit, String, Ask))
        requires
            old(app)@.wf(),
            !old(app)@.selecting(),
        ensures
            final(app)@ == edit_step(old(app)@, self@, reply@).0,
            r.0@ == edit_step(old(app)@, self@, reply@).1,
            r.1@ == edit_step(old(app)@, self@, reply@).2,
            r.2@ == edit_step(old(app)@, self@, reply@).3,
            final(app)@.wf(),
            !final(app)@.selecting(),
    {
        let quiet = String::new();
        match (self.stage, reply) {
            (Stage::Open, Reply::Done(r)) => match r {
                Ok(u) => {
                    let ask = Ask::EditCommit(self.hash.clone());
                    (self.at(Stage::Pause), quiet, ask)
                },
                Err(e) => (self.at(Stage::Over), quiet, Ask::End(Err(e))),
            },
            (Stage::Pause, Reply::Rebase(r)) => match r {
                Ok(complete) => {
                    if complete {
                        app.tell("Commit not found in stack range.");
                        (self.at(Stage::Over), quiet, ended())
                    } else {
                        let text = edit_text(self.hash.as_str());
                        (self.at(Stage::Enter), text, Ask::Enter)
                    }
                },
                Err(e) => {
                    app.notify(concat2("Edit failed: ", e.as_str()));
                    (self.at(Stage::Over), quiet, ended())
                },
            },
            (Stage::Enter, Reply::Nothing) => (
                self.at(Stage::Add),
                "  Staging and amending...\n".to_owned(),
                add_all(),
            ),
            (Stage::Add, Reply::Ran(r)) => (self.at(Stage::Amend), quiet, amend_commit()),
            (Stage::Amend, Reply::Ran(r)) => match r {
                Ran::Lost(e) => (self.at(Stage::Over), quiet, Ask::End(Err(e))),
                Ran::Ended { success, stdout, stderr } => {
                    if !success && !occurs(stderr.as_str(), "nothing to commit") {
                        let text = trimmed(stderr.as_str());
                        app.notify(concat2("Amend warning: ", text.as_str()));
                    }
                    (self.at(Stage::Continue), quiet, Ask::Continue)
                },
            },
            (Stage::Continue, Reply::Rebase(r)) => match r {
                Ok(complete) => {
                    if complete {
                        (self.at(Stage::Reload), quiet, Ask::Reload)
                    } else {
                        app.tell("Conflict during rebase after edit.");
                        app.wants_suspend = Some(SuspendReason::RebaseConflict);
                        (self.at(Stage::Over), quiet, ended())
                    }
                },
                Err(e) => {
                    app.notify(concat2("Rebase continue failed: ", e.as_str()));
                    (self.at(Stage::Over), quiet, ended())
                },
            },
            (Stage::Reload, Reply::Stack(r)) => match r.commits {
                Ok(commits) => {
                    app.reload_stack(commits);
                    let what = concat2("edit commit ", self.hash.as_str());
                    app.record_reload(what.as_str(), r.head.as_str(), r.now);
                    app.tell("Commit edited and rebased successfully.");
                    (self.at(Stage::Over), quiet, ended())
                },
                Err(e) => (self.at(Stage::Over), quiet, Ask::End(Err(e))),
            },
            _ => (self.at(Stage::Over), quiet, ended()),
        }
    }
}

} // verus!
