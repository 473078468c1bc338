//! Submitting a commit for review, and updating its review.
use vstd::prelude::*;

use super::super::app;
use super::super::app::{App, AppView};
use super::super::term;
use super::super::term::{
    among, bad_text, firsts, good_text, heading_text, print_box, yellow_text,
};
use super::{ended, Ask, AskView, Edited, EditedView, Reply, ReplyView};
use crate::stack::PatchView;
use crate::text::args::args;
use crate::text::bytes;
use crate::text::bytes::cut_text;
use crate::text::chars;
use crate::text::chars::{concat2, concat3, concat4, concat5, same, trimmed};
use crate::text::number;
use crate::text::number::decimal;
use crate::text::views;

verus! {

broadcast use views::group_views;

/// Which answer a submission or an update waits for.
#[derive(Debug, Clone, Copy, PartialEq, Eq, Structural)]
pub enum Stage {
    /// The repository.
    Open,
    /// What the remote has, and what was pushed.
    Remote,
    /// The reviews that were changed by someone else.
    Diverged,
    /// The branch of the commit.
    Name,
    /// Enter, before a refusal.
    Blocked,
    /// The base of the review.
    Base,
    /// The text that the description starts from.
    Draft,
    /// The editor's name.
    Editor,
    /// The description.
    Edit,
    /// The review.
    Review,
    /// The stack.
    Reload,
    /// The record of what was pushed.
    Save,
    /// Enter.
    Enter,
    /// Nothing more.
    Over,
}

/// A submission or an update, under way.
pub struct Submit {
    /// Whether the review is there already.
    pub update: bool,
    pub hash: String,
    pub subject: String,
    pub index: usize,
    pub short: String,
    /// The branches of the reviews that were changed by someone else.
    pub diverged: Vec<String>,
    pub base: String,
    pub draft: String,
    pub editor: String,
    /// What there is to say of the review.
    pub outcome: String,
    pub stage: Stage,
}

/// A submission or an update, as it is seen in contracts.
#[verifier::ext_equal]
pub struct SubmitView {
    pub update: bool,
    pub hash: Seq<char>,
    pub subject: Seq<char>,
    pub index: usize,
    pub short: Seq<char>,
    pub diverged: Seq<Seq<char>>,
    pub base: Seq<char>,
    pub draft: Seq<char>,
    pub editor: Seq<char>,
    pub outcome: Seq<char>,
    pub stage: Stage,
}

impl View for Submit {
    type V = SubmitView;

    open spec fn view(&self) -> SubmitView {
        SubmitView {
            update: self.update,
            hash: self.hash@,
            subject: self.subject@,
            index: self.index,
            short: self.short@,
            diverged: views::strs(self.diverged@),
            base: self.base@,
            draft: self.draft@,
            editor: self.editor@,
            outcome: self.outcome@,
            stage: self.stage,
        }
    }
}

/// A submission or an update, before its first answer.
pub open spec fn begun(
    update: bool,
    hash: Seq<char>,
    subject: Seq<char>,
    index: usize,
) -> SubmitView {
    SubmitView {
        update,
        hash,
        subject,
        index,
        short: bytes::cut(hash, 7),
        diverged: seq![],
        base: seq![],
        draft: seq![],
        editor: seq![],
        outcome: seq![],
        stage: Stage::Open,
    }
}

/// Whether a push would overwrite what someone else pushed: the remote has the branch,
/// a push of it is on record, and the two differ.
pub open spec fn overwrites(there: Option<Seq<char>>, pushed: Option<Seq<char>>) -> bool {
    match (there, pushed) {
        (Some(t), Some(p)) => chars::trim(t) != p,
        _ => false,
    }
}

/// What is said before a submission is refused.
pub const SUBMIT_BLOCKED: &'static str =
    "\n  \x1b[1;31m⚠ Remote branch has newer changes that would be overwritten.\x1b[0m\n\n  Press \x1b[1;32mP\x1b[0m to pull remote changes first.\n";

/// What is said before an update is refused.
pub const UPDATE_BLOCKED: &'static str =
    "\n  \x1b[1;31m⚠ Remote has newer changes for this PR that would be overwritten.\x1b[0m\n\n  Press \x1b[1;32mP\x1b[0m to pull remote changes first, then update.\n";

/// Whether the review of the commit at a place is among those that were changed: by its
/// branch, or by its number.
pub open spec fn is_changed(
    diverged: Seq<Seq<char>>,
    branch: Seq<char>,
    p: Seq<PatchView>,
    index: int,
) -> bool {
    diverged.contains(branch) || (0 <= index < p.len() && match p[index].pr_number {
        Some(n) => diverged.contains("D"@ + number::dec(n as nat)),
        None => false,
    })
}

/// Whether the review of the commit at a place is among those that were changed.
pub fn was_changed(diverged: &Vec<String>, branch: &str, app: &App, index: usize) -> (r: bool)
    ensures
        r == is_changed(
            views::strs(diverged@),
            branch@,
            app@.stack.patches,
            index as int,
        ),
{
    if among(diverged, branch) {
        return true;
    }
    if index < app.stack.len() {
        proof {
            assert(app@.stack.patches[index as int] == app.stack.patches@[index as int]@);
        }
        match app.stack.patches[index].pr_number {
            Some(n) => {
                let d = decimal(n as u64);
                let key = concat2("D", d.as_str());
                among(diverged, key.as_str())
            },
            None => false,
        }
    } else {
        false
    }
}

/// The lines that are said before the editor opens.
pub open spec fn editor_lines(s: SubmitView, editor: Seq<char>) -> Seq<Seq<char>> {
    seq![
        "Write your PR description."@,
        ""@,
        "  Editor: \x1b[1;33m"@ + editor + "\x1b[0m"@,
        "  Commit: \x1b[1;33m"@ + s.short + " "@ + s.subject + "\x1b[0m"@,
        "  Base:   \x1b[1;33m"@ + s.base + "\x1b[0m"@,
        ""@,
        "  Save and close the editor when done."@,
        "  Leave empty to cancel."@,
    ]
}

/// What is said before the editor opens.
pub open spec fn editor_box(s: SubmitView, editor: Seq<char>) -> Seq<char> {
    term::box_text("36"@, "pilegit: submit "@ + s.short, editor_lines(s, editor))
}

/// What is said before a review is made.
pub open spec fn submitting(subject: Seq<char>) -> Seq<char> {
    term::CLEAR@ + term::heading("Submitting: "@ + subject)
}

/// The review is made, or updated.
pub open spec fn ask_review(s: SubmitView, base: Seq<char>, body: Seq<char>) -> AskView {
    if s.update {
        AskView::Update { hash: s.hash, subject: s.subject, base }
    } else {
        AskView::Submit { hash: s.hash, subject: s.subject, base, body }
    }
}

/// What follows an answer about the repository or the remote.
pub open spec fn first_step(a: AppView, s: SubmitView, reply: ReplyView) -> (
    AppView,
    SubmitView,
    Seq<char>,
    AskView,
) {
    let over = SubmitView { stage: Stage::Over, ..s };
    let quiet = super::silence();
    match (s.stage, reply) {
        (Stage::Open, ReplyView::Done(r)) => match r {
            Ok(u) => if s.update {
                (a, SubmitView { stage: Stage::Diverged, ..s }, quiet, AskView::Diverged)
            } else {
                (
                    a,
                    SubmitView { stage: Stage::Remote, ..s },
                    quiet,
                    AskView::RemoteState(s.subject),
                )
            },
            Err(e) => (a, over, quiet, super::fail(e)),
        },
        (Stage::Remote, ReplyView::Remote { there, pushed }) => if overwrites(there, pushed) {
            (
                a,
                SubmitView { stage: Stage::Blocked, ..s },
                SUBMIT_BLOCKED@ + term::PRESS_ENTER@,
                AskView::Enter,
            )
        } else {
            (
                a,
                SubmitView { stage: Stage::Base, ..s },
                quiet,
                AskView::DetermineBase(s.index),
            )
        },
        (Stage::Diverged, ReplyView::Diverged(d)) => (
            a,
            SubmitView {
                diverged: match d {
                    Some(v) => term::first_of(v),
                    None => seq![],
                },
                stage: Stage::Name,
                ..s
            },
            quiet,
            AskView::BranchName(s.subject),
        ),
        (Stage::Name, ReplyView::Text(branch)) => if is_changed(
            s.diverged,
            branch,
            a.stack.patches,
            s.index as int,
        ) {
            (
                a,
                SubmitView { stage: Stage::Blocked, ..s },
                UPDATE_BLOCKED@ + term::PRESS_ENTER@,
                AskView::Enter,
            )
        } else {
            (
                a,
                SubmitView { stage: Stage::Base, ..s },
                term::heading("Updating PR: "@ + s.subject) + term::yellow_line(
                    "Determining base..."@,
                ),
                AskView::DetermineBase(s.index),
            )
        },
        _ => (a, over, quiet, super::end()),
    }
}

/// What follows an answer about the description.
pub open spec fn middle_step(a: AppView, s: SubmitView, reply: ReplyView) -> (
    AppView,
    SubmitView,
    Seq<char>,
    AskView,
) {
    let over = SubmitView { stage: Stage::Over, ..s };
    let quiet = super::silence();
    match (s.stage, reply) {
        (Stage::Blocked, ReplyView::Nothing) => (
            a.notified(
                if s.update {
                    "Update aborted — remote has newer changes. Press P to pull."@
                } else {
                    "Submit aborted — remote has newer changes. Press P to pull."@
                },
            ),
            over,
            quiet,
            super::end(),
        ),
        (Stage::Base, ReplyView::Text(base)) => if s.update {
            (
                a,
                SubmitView { base, stage: Stage::Review, ..s },
                term::CLEAR@ + term::heading("Updating PR: "@ + s.subject) + term::yellow_line(
                    "Force-pushing "@ + s.short + " → "@ + base,
                ),
                ask_review(s, base, seq![]),
            )
        } else if a.forge.needs_description() {
            (
                a,
                SubmitView { base, stage: Stage::Draft, ..s },
                quiet,
                AskView::Draft(s.subject),
            )
        } else {
            (
                a,
                SubmitView { base, stage: Stage::Review, ..s },
                submitting(s.subject),
                ask_review(s, base, seq![]),
            )
        },
        (Stage::Draft, ReplyView::Text(draft)) => (
            a,
            SubmitView { draft, stage: Stage::Editor, ..s },
            quiet,
            AskView::Editor,
        ),
        (Stage::Editor, ReplyView::Text(editor)) => (
            a,
            SubmitView { editor, stage: Stage::Edit, ..s },
            editor_box(s, editor),
            AskView::Edit { name: "pgit-pr-msg-"@, content: s.draft, editor },
        ),
        (Stage::Edit, ReplyView::Edited(e)) => match e {
            EditedView::Saved(text) => if chars::trim(text).len() == 0 {
                (
                    a.notified("Empty description — submit cancelled."@),
                    over,
                    quiet,
                    super::end(),
                )
            } else {
                (
                    a,
                    SubmitView { stage: Stage::Review, ..s },
                    submitting(s.subject) + term::yellow_line(
                        "Pushing branch and creating PR..."@,
                    ),
                    ask_review(s, s.base, chars::trim(text)),
                )
            },
            EditedView::Failed => (
                a.notified("Editor exited with error — submit cancelled."@),
                over,
                quiet,
                super::end(),
            ),
            EditedView::Lost(why) => (
                a.notified("Could not open "@ + s.editor + ": "@ + why),
                over,
                quiet,
                super::end(),
            ),
        },
        _ => (a, over, quiet, super::end()),
    }
}

/// What follows an answer about the review.
pub open spec fn last_step(a: AppView, s: SubmitView, reply: ReplyView) -> (
    AppView,
    SubmitView,
    Seq<char>,
    AskView,
) {
    let over = SubmitView { stage: Stage::Over, ..s };
    let quiet = super::silence();
    match (s.stage, reply) {
        (Stage::Review, ReplyView::Review(r)) => match r {
            Ok(outcome) => (
                a,
                SubmitView { outcome, stage: Stage::Reload, ..s },
                "\n"@ + term::good_line(outcome),
                AskView::Reload,
            ),
            Err(e) => {
                let what = if s.update {
                    "Update failed: "@
                } else {
                    "Submit failed: "@
                };
                (
                    a.notified(what + e),
                    SubmitView { stage: Stage::Enter, ..s },
                    "\n"@ + term::bad_line(what, e) + term::PRESS_ENTER@,
                    AskView::Enter,
                )
            },
        },
        (Stage::Reload, ReplyView::Stack(r)) => (
            match r.commits {
                Ok(p) => a.reloaded(p),
                Err(e) => a,
            },
            SubmitView { stage: Stage::Save, ..s },
            quiet,
            AskView::SaveState,
        ),
        (Stage::Save, ReplyView::Nothing) => (
            a.notified(s.outcome),
            SubmitView { stage: Stage::Enter, ..s },
            term::PRESS_ENTER@,
            AskView::Enter,
        ),
        _ => (a, over, quiet, super::end()),
    }
}

/// What follows an answer.
pub open spec fn submit_step(a: AppView, s: SubmitView, reply: ReplyView) -> (
    AppView,
    SubmitView,
    Seq<char>,
    AskView,
) {
    match s.stage {
        Stage::Open | Stage::Remote | Stage::Diverged | Stage::Name => first_step(a, s, reply),
        Stage::Blocked | Stage::Base | Stage::Draft | Stage::Editor | Stage::Edit => middle_step(
            a,
            s,
            reply,
        ),
        _ => last_step(a, s, reply),
    }
}

/// A submission or an update, before its first answer.
fn begin(update: bool, hash: String, subject: String, index: usize) -> (r: Submit)
    requires
        bytes::cuts(hash@, 7),
    ensures
        r@ == begun(update, hash@, subject@, index),
{
    let short = cut_text(hash.as_str(), 7);
    Submit {
        update,
        hash,
        subject,
        index,
        short,
        diverged: Vec::new(),
        base: String::new(),
        draft: String::new(),
        editor: String::new(),
        outcome: String::new(),
        stage: Stage::Open,
    }
}

/// Submit a commit as a PR: the first step.
pub fn handle_submit_commit(hash: String, subject: String, cursor_index: usize) -> (r: (
    Submit,
    String,
    Ask,
))
    requires
        bytes::cuts(hash@, 7),
    ensures
        r.0@ == begun(false, hash@, subject@, cursor_index),
        r.1@ == term::CLEAR@,
        r.2@ == AskView::Open,
{
    (begin(false, hash, subject, cursor_index), term::CLEAR.to_owned(), Ask::Open)
}

/// Update an existing PR: the first step.
pub fn handle_update_pr(hash: String, subject: String, cursor_index: usize) -> (r: (
    Submit,
    String,
    Ask,
))
    requires
        bytes::cuts(hash@, 7),
    ensures
        r.0@ == begun(true, hash@, subject@, cursor_index),
        r.1@ == term::CLEAR@,
        r.2@ == AskView::Open,
{
    (begin(true, hash, subject, cursor_index), term::CLEAR.to_owned(), Ask::Open)
}

impl Submit {
    /// The same operation, which waits for another answer.
    fn at(self, stage: Stage) -> (r: Submit)
        ensures
            r@ == (SubmitView { stage, ..self@ }),
    {
        Submit { stage, ..self }
    }

    /// The review is made, or updated.
    fn review(&self, base: &str, body: String) -> (r: Ask)
        ensures
            r@ == ask_review(self@, base@, body@),
    {
        if self.update {
            Ask::Update {
                hash: self.hash.clone(),
                subject: self.subject.clone(),
                base: base.to_owned(),
            }
        } else {
            Ask::Submit {
                hash: self.hash.clone(),
                subject: self.subject.clone(),
                base: base.to_owned(),
                body,
            }
        }
    }

    /// What is said before the editor opens.
    fn editor_text(&self, editor: &str) -> (r: String)
        ensures
            r@ == editor_box(self@, editor@),
    {
        let a = concat3("  Editor: \x1b[1;33m", editor, "\x1b[0m");
        let b = concat5(
            "  Commit: \x1b[1;33m",
            self.short.as_str(),
            " ",
            self.subject.as_str(),
            "\x1b[0m",
        );
        let c = concat3("  Base:   \x1b[1;33m", self.base.as_str(), "\x1b[0m");
        let lines = args(
            &[
                "Write your PR description.",
                "",
                a.as_str(),
                b.as_str(),
                c.as_str(),
                "",
                "  Save and close the editor when done.",
                "  Leave empty to cancel.",
            ],
        );
        proof {
            assert(views::strs(lines@) =~= editor_lines(self@, editor@));
        }
        let title = concat2("pilegit: submit ", self.short.as_str());
        print_box("36", title.as_str(), &lines)
    }

    /// What is said before a review is made.
    fn submitting_text(&self) -> (r: String)
        ensures
            r@ == submitting(self@.subject),
    {
        let what = concat2("Submitting: ", self.subject.as_str());
        let head = heading_text(what.as_str());
        concat2(term::CLEAR, head.as_str())
    }

    /// What follows an answer about the repository or the remote.
    fn first_step(self, app: &App, reply: Reply) -> (r: (Submit, String, Ask))
        ensures
            app@ == first_step(app@, self@, reply@).0,
            r.0@ == first_step(app@, self@, reply@).1,
            r.1@ == first_step(app@, self@, reply@).2,
            r.2@ == first_step(app@, self@, reply@).3,
    {
        let quiet = String::new();
        match (self.stage, reply) {
            (Stage::Open, Reply::Done(r)) => match r {
                Ok(u) => {
                    if self.update {
                        (self.at(Stage::Diverged), quiet, Ask::Diverged)
                    } else {
                        let ask = Ask::RemoteState(self.subject.clone());
                        (self.at(Stage::Remote), quiet, ask)
                    }
                },
                Err(e) => (self.at(Stage::Over), quiet, Ask::End(Err(e))),
            },
            (Stage::Remote, Reply::Remote { there, pushed }) => {
                let blocked = match (there, pushed) {
                    (Some(t), Some(p)) => {
                        let t = trimmed(t.as_str());
                        !same(t.as_str(), p.as_str())
                    },
                    _ => false,
                };
                if blocked {
                    let say = concat2(SUBMIT_BLOCKED, term::PRESS_ENTER);
                    (self.at(Stage::Blocked), say, Ask::Enter)
                } else {
                    let ask = Ask::DetermineBase(self.index);
                    (self.at(Stage::Base), quiet, ask)
                }
            },
            (Stage::Diverged, Reply::Diverged(d)) => {
                let ask = Ask::BranchName(self.subject.clone());
                let diverged = match d {
                    Some(v) => firsts(&v),
                    None => Vec::new(),
                };
                (Submit { diverged, stage: Stage::Name, ..self }, quiet, ask)
            },
            (Stage::Name, Reply::Text(branch)) => {
                if was_changed(&self.diverged, branch.as_str(), app, self.index) {
                    let say = concat2(UPDATE_BLOCKED, term::PRESS_ENTER);
                    (self.at(Stage::Blocked), say, Ask::Enter)
                } else {
                    let what = concat2("Updating PR: ", self.subject.as_str());
                    let head = heading_text(what.as_str());
                    let line = yellow_text("Determining base...");
                    let say = concat2(head.as_str(), line.as_str());
                    let ask = Ask::DetermineBase(self.index);
                    (self.at(Stage::Base), say, ask)
                }
            },
            _ => (self.at(Stage::Over), quiet, ended()),
        }
    }

    /// What follows an answer about the description.
    fn middle_step(self, app: &mut App, reply: Reply) -> (r: (Submit, String, Ask))
        requires
            old(app)@.wf(),
            !old(app)@.selecting(),
        ensures
            final(app)@ == middle_step(old(app)@, self@, reply@).0,
            r.0@ == middle_step(old(app)@, self@, reply@).1,
            r.1@ == middle_step(old(app)@, self@, reply@).2,
            r.2@ == middle_step(old(app)@, self@, reply@).3,
            final(app)@.wf(),
            !final(app)@.selecting(),
    {
        let quiet = String::new();
        match (self.stage, reply) {
            (Stage::Blocked, Reply::Nothing) => {
                if self.update {
                    app.tell("Update aborted — remote has newer changes. Press P to pull.");
                } else {
                    app.tell("Submit aborted — remote has newer changes. Press P to pull.");
                }
                (self.at(Stage::Over), quiet, ended())
            },
            (Stage::Base, Reply::Text(base)) => {
                if self.update {
                    let what = concat2("Updating PR: ", self.subject.as_str());
                    let head = heading_text(what.as_str());
                    let push = concat4("Force-pushing ", self.short.as_str(), " → ", base.as_str());
                    let line = yellow_text(push.as_str());
                    let say = concat3(term::CLEAR, head.as_str(), line.as_str());
                    let ask = self.review(base.as_str(), String::new());
                    (Submit { base, stage: Stage::Review, ..self }, say, ask)
                } else if app.forge.needs_description_editor() {
                    let ask = Ask::Draft(self.subject.clone());
                    (Submit { base, stage: Stage::Draft, ..self }, quiet, ask)
                } else {
                    let say = self.submitting_text();
                    let ask = self.review(base.as_str(), String::new());
                    (Submit { base, stage: Stage::Review, ..self }, say, ask)
                }
            },
            (Stage::Draft, Reply::Text(draft)) => (
                Submit { draft, stage: Stage::Editor, ..self },
                quiet,
                Ask::Editor,
            ),
            (Stage::Editor, Reply::Text(editor)) => {
                let say = self.editor_text(editor.as_str());
                let ask = Ask::Edit {
                    name: "pgit-pr-msg-".to_owned(),
                    content: self.draft.clone(),
                    editor: editor.clone(),
                };
                (Submit { editor, stage: Stage::Edit, ..self }, say, ask)
            },
            (Stage::Edit, Reply::Edited(e)) => match e {
                Edited::Saved(text) => {
                    let body = trimmed(text.as_str());
                    if body.as_str().is_empty() {
                        app.tell("Empty description — submit cancelled.");
                        (self.at(Stage::Over), quiet, ended())
                    } else {
                        let head = self.submitting_text();
                        let line = yellow_text("Pushing branch and creating PR...");
                        let say = concat2(head.as_str(), line.as_str());
                        let ask = self.review(self.base.as_str(), body);
                        (self.at(Stage::Review), say, ask)
                    }
                },
                Edited::Failed => {
                    app.tell("Editor exited with error — submit cancelled.");
                    (self.at(Stage::Over), quiet, ended())
                },
                Edited::Lost(why) => {
                    app.notify(
                        concat4("Could not open ", self.editor.as_str(), ": ", why.as_str()),
                    );
                    (self.at(Stage::Over), quiet, ended())
                },
            },
            _ => (self.at(Stage::Over), quiet, ended()),
        }
    }

    /// What follows an answer about the review.
    fn last_step(self, app: &mut App, reply: Reply) -> (r: (Submit, String, Ask))
        requires
            old(app)@.wf(),
            !old(app)@.selecting(),
        ensures
            final(app)@ == last_step(old(app)@, self@, reply@).0,
            r.0@ == last_step(old(app)@, self@, reply@).1,
            r.1@ == last_step(old(app)@, self@, reply@).2,
            r.2@ == last_step(old(app)@, self@, reply@).3,
            final(app)@.wf(),
            !final(app)@.selecting(),
    {
        let quiet = String::new();
        match (self.stage, reply) {
            (Stage::Review, Reply::Review(r)) => match r {
                Ok(outcome) => {
                    let line = good_text(outcome.as_str());
                    let say = concat2("\n", line.as_str());
                    (Submit { outcome, stage: Stage::Reload, ..self }, say, Ask::Reload)
                },
                Err(e) => {
                    let what = if self.update {
                        "Update failed: "
                    } else {
                        "Submit failed: "
                    };
                    app.notify(concat2(what, e.as_str()));
                    let line = bad_text(what, e.as_str());
                    let say = concat3("\n", line.as_str(), term::PRESS_ENTER);
                    (self.at(Stage::Enter), say, Ask::Enter)
                },
            },
            (Stage::Reload, Reply::Stack(r)) => {
                if let Ok(commits) = r.commits {
                    app.reload_stack(commits);
                }
                (self.at(Stage::Save), quiet, Ask::SaveState)
            },
            (Stage::Save, Reply::Nothing) => {
                app.notify(self.outcome.clone());
                (self.at(Stage::Enter), term::PRESS_ENTER.to_owned(), Ask::Enter)
            },
            _ => (self.at(Stage::Over), quiet, ended()),
        }
    }

    /// What follows an answer.
    pub fn step(self, app: &mut App, reply: Reply) -> (r: (Submit, String, Ask))
        requires
            old(app)@.wf(),
            !old(app)@.selecting(),
        ensures
            final(app)@ == submit_step(old(app)@, self@, reply@).0,
            r.0@ == submit_step(old(app)@, self@, reply@).1,
            r.1@ == submit_step(old(app)@, self@, reply@).2,
            r.2@ == submit_step(old(app)@, self@, reply@).3,
            final(app)@.wf(),
            !final(app)@.selecting(),
    {
        match self.stage {
            Stage::Open | Stage::Remote | Stage::Diverged | Stage::Name => {
                self.first_step(&*app, reply)
            },
            Stage::Blocked | Stage::Base | Stage::Draft | Stage::Editor | Stage::Edit => {
                self.middle_step(app, reply)
            },
            _ => self.last_step(app, reply),
        }
    }
}

/// A submission that would overwrite what someone else pushed is refused: no review is
/// made, and the stack stays as it is.
pub proof fn law_submit_never_overwrites(
    a: AppView,
    s: SubmitView,
    there: Option<Seq<char>>,
    pushed: Option<Seq<char>>,
)
    requires
        s.stage == Stage::Remote,
        overwrites(there, pushed),
    ensures
        ({
            let one = submit_step(a, s, ReplyView::Remote { there, pushed });
            let two = submit_step(one.0, one.1, ReplyView::Nothing);
            &&& one.0 == a
            &&& one.3 == AskView::Enter
            &&& two.0 == a.notified(
                if s.update {
                    "Update aborted — remote has newer changes. Press P to pull."@
                } else {
                    "Submit aborted — remote has newer changes. Press P to pull."@
                },
            )
            &&& two.3 == super::end()
        }),
{
}

/// An update of a review that someone else changed is refused: nothing is pushed, and the
/// stack stays as it is.
pub proof fn law_update_never_overwrites(a: AppView, s: SubmitView, branch: Seq<char>)
    requires
        s.stage == Stage::Name,
        s.update,
        is_changed(s.diverged, branch, a.stack.patches, s.index as int),
    ensures
        ({
            let one = submit_step(a, s, ReplyView::Text(branch));
            let two = submit_step(one.0, one.1, ReplyView::Nothing);
            &&& one.0 == a
            &&& one.3 == AskView::Enter
            &&& two.0 == a.notified(
                "Update aborted — remote has newer changes. Press P to pull."@,
            )
            &&& two.3 == super::end()
        }),
{
}

} // verus!
