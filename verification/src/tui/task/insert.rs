//! Inserting a commit.
use vstd::prelude::*;

use super::super::app;
use super::super::app::{App, AppView, SuspendReason, SuspendView};
use super::super::term;
use super::super::term::print_box;
use super::{ended, Ask, AskView, Reply, ReplyView};
use crate::text::args::args;
use crate::text::chars::concat2;
use crate::text::views;

verus! {

broadcast use views::group_views;

/// Which answer an insertion at the top waits for.
#[derive(Debug, Clone, Copy, PartialEq, Eq, Structural)]
pub enum TopStage {
    /// Enter, once the commit is made.
    Enter,
    /// The stack.
    Reload,
    /// Nothing more.
    Over,
}

/// What is said before a commit is inserted at the top.
pub open spec fn top_box() -> Seq<char> {
    term::box_text(
        "36"@,
        "pilegit: insert commit at top"@,
        seq![
            "Make your changes and commit:"@,
            ""@,
            "  \x1b[1;33mgit add <files> && git commit -m \"...\"\x1b[0m"@,
            ""@,
            "Press \x1b[1;32mEnter\x1b[0m when done to return."@,
        ],
    )
}

/// Insert a new commit at the top of the stack (HEAD): the first step.
pub fn handle_insert_at_head() -> (r: (TopStage, String, Ask))
    ensures
        r.0 == TopStage::Enter,
        r.1@ == top_box(),
        r.2@ == AskView::Enter,
{
    let lines = args(
        &[
            "Make your changes and commit:",
            "",
            "  \x1b[1;33mgit add <files> && git commit -m \"...\"\x1b[0m",
            "",
            "Press \x1b[1;32mEnter\x1b[0m when done to return.",
        ],
    );
    proof {
        assert(views::strs(lines@) =~= seq![
            "Make your changes and commit:"@,
            ""@,
            "  \x1b[1;33mgit add <files> && git commit -m \"...\"\x1b[0m"@,
            ""@,
            "Press \x1b[1;32mEnter\x1b[0m when done to return."@,
        ]);
    }
    (TopStage::Enter, print_box("36", "pilegit: insert commit at top", &lines), Ask::Enter)
}

/// What follows an answer.
pub open spec fn top_step(a: AppView, stage: TopStage, reply: ReplyView) -> (
    AppView,
    TopStage,
    AskView,
) {
    match (stage, reply) {
        (TopStage::Enter, ReplyView::Nothing) => (a, TopStage::Reload, AskView::Reload),
        (TopStage::Reload, ReplyView::Stack(r)) => (
            match r.commits {
                Ok(p) => a.reloaded(p).recorded("insert commit at top"@, r.head, r.now).notified(
                    "Stack refreshed."@,
                ),
                Err(e) => a.notified("Reload failed: "@ + e),
            },
            TopStage::Over,
            super::end(),
        ),
        _ => (a, TopStage::Over, super::end()),
    }
}

impl TopStage {
    /// What follows an answer.
    pub fn step(self, app: &mut App, reply: Reply) -> (r: (TopStage, Ask))
        requires
            old(app)@.wf(),
            !old(app)@.selecting(),
        ensures
            final(app)@ == top_step(old(app)@, self, reply@).0,
            r.0 == top_step(old(app)@, self, reply@).1,
            r.1@ == top_step(old(app)@, self, reply@).2,
            final(app)@.wf(),
            !final(app)@.selecting(),
    {
        match (self, reply) {
            (TopStage::Enter, Reply::Nothing) => (TopStage::Reload, Ask::Reload),
            (TopStage::Reload, Reply::Stack(r)) => {
                match r.commits {
                    Ok(commits) => {
                        app.reload_stack(commits);
                        app.record_reload("insert commit at top", r.head.as_str(), r.now);
                        app.tell("Stack refreshed.");
                    },
                    Err(e) => app.notify(concat2("Reload failed: ", e.as_str())),
                }
                (TopStage::Over, ended())
            },
            _ => (TopStage::Over, ended()),
        }
    }
}

/// Which answer an insertion behind a commit waits for.
#[derive(Debug, Clone, Copy, PartialEq, Eq, Structural)]
pub enum Stage {
    /// The repository.
    Open,
    /// The pause of the rebase behind the commit.
    Pause,
    /// Enter, once the commit is made.
    Enter,
    /// The rest of the rebase.
    Continue,
    /// The stack.
    Reload,
    /// Nothing more.
    Over,
}

/// An insertion behind a commit, under way.
pub struct InsertAfter {
    pub hash: String,
    pub stage: Stage,
}

/// An insertion behind a commit, as it is seen in contracts.
#[verifier::ext_equal]
pub struct InsertAfterView {
    pub hash: Seq<char>,
    pub stage: Stage,
}

impl View for InsertAfter {
    type V = InsertAfterView;

    open spec fn view(&self) -> InsertAfterView {
        InsertAfterView { hash: self.hash@, stage: self.stage }
    }
}

/// What is said once the rebase has paused.
pub open spec fn after_box(hash: Seq<char>) -> Seq<char> {
    term::box_text(
        "36"@,
        "pilegit: insert after "@ + hash,
        seq![
            "Rebase paused at the right position."@,
            "Make your changes and commit:"@,
            ""@,
            "  \x1b[1;33mgit add <files> && git commit -m \"...\"\x1b[0m"@,
            ""@,
            "Press \x1b[1;32mEnter\x1b[0m when done. pilegit will rebase the rest."@,
        ],
    )
}

/// What is said once the rebase has paused.
fn after_text(hash: &str) -> (r: String)
    ensures
        r@ == after_box(hash@),
{
    let lines = args(
        &[
            "Rebase paused at the right position.",
            "Make your changes and commit:",
            "",
            "  \x1b[1;33mgit add <files> && git commit -m \"...\"\x1b[0m",
            "",
            "Press \x1b[1;32mEnter\x1b[0m when done. pilegit will rebase the rest.",
        ],
    );
    proof {
        assert(views::strs(lines@) =~= seq![
            "Rebase paused at the right position."@,
            "Make your changes and commit:"@,
            ""@,
            "  \x1b[1;33mgit add <files> && git commit -m \"...\"\x1b[0m"@,
            ""@,
            "Press \x1b[1;32mEnter\x1b[0m when done. pilegit will rebase the rest."@,
        ]);
    }
    let title = concat2("pilegit: insert after ", hash);
    print_box("36", title.as_str(), &lines)
}

/// Insert a new commit after the cursor position using rebase --break: the first step.
pub fn handle_insert_after(hash: String) -> (r: (InsertAfter, Ask))
    ensures
        r.0@ == (InsertAfterView { hash: hash@, stage: Stage::Open }),
        r.1@ == AskView::Open,
{
    (InsertAfter { hash, stage: Stage::Open }, Ask::Open)
}

/// What follows an answer.
pub open spec fn after_step(a: AppView, s: InsertAfterView, reply: ReplyView) -> (
    AppView,
    InsertAfterView,
    Seq<char>,
    AskView,
) {
    let over = InsertAfterView { stage: Stage::Over, ..s };
    let quiet = super::silence();
    match (s.stage, reply) {
        (Stage::Open, ReplyView::Done(r)) => match r {
            Ok(u) => (
                a,
                InsertAfterView { stage: Stage::Pause, ..s },
                quiet,
                AskView::BreakAfter(s.hash),
            ),
            Err(e) => (a, over, quiet, super::fail(e)),
        },
        (Stage::Pause, ReplyView::Rebase(r)) => match r {
            Ok(complete) => if complete {
                (
                    a.notified("Break point not reached. Try inserting at top instead (t)."@),
                    over,
                    quiet,
                    super::end(),
                )
            } else {
                (
                    a,
                    InsertAfterView { stage: Stage::Enter, ..s },
                    after_box(s.hash),
                    AskView::Enter,
                )
            },
            Err(e) => (a.notified("Insert failed: "@ + e), over, quiet, super::end()),
        },
        (Stage::Enter, ReplyView::Nothing) => (
            a,
            InsertAfterView { stage: Stage::Continue, ..s },
            quiet,
            AskView::Continue,
        ),
        (Stage::Continue, ReplyView::Rebase(r)) => match r {
            Ok(complete) => if complete {
                (a, InsertAfterView { stage: Stage::Reload, ..s }, quiet, AskView::Reload)
            } else {
                (
                    a.notified("Conflict during rebase after insert."@).suspended(
                        SuspendView::RebaseConflict,
                    ),
                    over,
                    quiet,
                    super::end(),
                )
            },
            Err(e) => (a.notified("Rebase continue failed: "@ + e), over, quiet, super::end()),
        },
        (Stage::Reload, ReplyView::Stack(r)) => match r.commits {
            Ok(p) => (
                a.reloaded(p).recorded("insert commit after cursor"@, r.head, r.now).notified(
                    "Inserted commit and rebased."@,
                ),
                over,
                quiet,
                super::end(),
            ),
            Err(e) => (a, over, quiet, super::fail(e)),
        },
        _ => (a, over, quiet, super::end()),
    }
}

impl InsertAfter {
    /// The same insertion, which waits for another answer.
    fn at(self, stage: Stage) -> (r: InsertAfter)
        ensures
            r@ == (InsertAfterView { stage, ..self@ }),
    {
        InsertAfter { stage, ..self }
    }

    /// What follows an answer.
    pub fn step(self, app: &mut App, reply: Reply) -> (r: (InsertAfter, String, Ask))
        requires
            old(app)@.wf(),
            !old(app)@.selecting(),
        ensures
            final(app)@ == after_step(old(app)@, self@, reply@).0,
            r.0@ == after_step(old(app)@, self@, reply@).1,
            r.1@ == after_step(old(app)@, self@, reply@).2,
            r.2@ == after_step(old(app)@, self@, reply@).3,
            final(app)@.wf(),
            !final(app)@.selecting(),
    {
        let quiet = String::new();
        match (self.stage, reply) {
            (Stage::Open, Reply::Done(r)) => match r {
                Ok(u) => {
                    let ask = Ask::BreakAfter(self.hash.clone());
                    (self.at(Stage::Pause), quiet, ask)
                },
                Err(e) => (self.at(Stage::Over), quiet, Ask::End(Err(e))),
            },
            (Stage::Pause, Reply::Rebase(r)) => match r {
                Ok(complete) => {
                    if complete {
                        app.tell("Break point not reached. Try inserting at top instead (t).");
                        (self.at(Stage::Over), quiet, ended())
                    } else {
                        let text = after_text(self.hash.as_str());
                        (self.at(Stage::Enter), text, Ask::Enter)
                    }
                },
                Err(e) => {
                    app.notify(concat2("Insert failed: ", e.as_str()));
                    (self.at(Stage::Over), quiet, ended())
                },
            },
            (Stage::Enter, Reply::Nothing) => (self.at(Stage::Continue), quiet, Ask::Continue),
            (Stage::Continue, Reply::Rebase(r)) => match r {
                Ok(complete) => {
                    if complete {
                        (self.at(Stage::Reload), quiet, Ask::Reload)
                    } else {
                        app.tell("Conflict during rebase after insert.");
                        app.wants_suspend = Some(SuspendReason::RebaseConflict);
                        (self.at(Stage::Over), quiet, ended())
                    }
                },
                Err(e) => {
                    app.notify(concat2("Rebase continue failed: ", e.as_str()));
                    (self.at(Stage::Over), quiet, ended())
                },
            },
            (Stage::Reload, Reply::Stack(r)) => match r.commits {
                Ok(commits) => {
                    app.reload_stack(commits);
                    app.record_reload("insert commit after cursor", r.head.as_str(), r.now);
                    app.tell("Inserted commit and rebased.");
                    (self.at(Stage::Over), quiet, ended())
                },
                Err(e) => (self.at(Stage::Over), quiet, Ask::End(Err(e))),
            },
            _ => (self.at(Stage::Over), quiet, ended()),
        }
    }
}

} // verus!
