//! Making a review, and updating one, where reviews stand on branches; and running a
//! custom command in their place.
use vstd::prelude::*;

use super::base_edit;
use super::base_edit::{BaseEdit, BaseEditView};
use super::custom;
use super::custom::Custom;
use super::gitea;
use super::gitea::{base_url, logins_call, repo_slug, Gitea};
use super::github;
use super::github::{GitHub, Submitted, SubmittedView};
use super::gitlab;
use super::gitlab::GitLab;
use super::listing;
use super::listing::remote_ask;
use super::machine;
use super::machine::{
    confused, finished, push_branch, set_branch, Ask, AskView, Reply, ReplyView,
};
use super::ForgeKind;
use crate::git::call::{Call, CallView, Console, Ran, RanView};
use crate::text::args::args;
use crate::text::chars;
use crate::text::chars::{same, trimmed};
use crate::text::views;

verus! {

broadcast use views::group_views;

/// Which answer a submission waits for.
#[derive(Debug, Clone, Copy, PartialEq, Eq, Structural)]
pub enum Stage {
    /// The fetch.
    Fetch,
    /// The remote's address.
    Remote,
    /// The current branch.
    Home,
    /// The review's branch, set to the commit.
    Branch,
    /// The push of the review's branch.
    Push,
    /// The review.
    Create,
    /// The logins.
    Logins,
    /// The way back to the branch that was current.
    Back,
    /// The review's base.
    Edit,
    /// The file with the description.
    Keep,
    /// The commit, as the current one.
    Checkout,
    /// The command.
    Command,
    /// The way back, after the command.
    Return,
    /// The removal of the file.
    Remove,
    /// Nothing more.
    Over,
}

/// A submission under way.
pub struct Submission {
    pub kind: ForgeKind,
    /// The command, where it is a custom one.
    pub template: Custom,
    /// Whether the review is there already.
    pub update: bool,
    pub hash: String,
    pub subject: String,
    pub branch: String,
    pub base: String,
    pub body: String,
    /// The branch that was current.
    pub home: String,
    /// The remote's address.
    pub remote: Result<String, String>,
    pub slug: String,
    /// The file with the description.
    pub file: String,
    /// The end of the program that makes the review.
    pub ran: Ran,
    /// What there is to say in the end.
    pub outcome: Result<String, String>,
    /// Whether the base is to be set before that.
    pub sets_base: bool,
    pub edit: BaseEdit,
    pub stage: Stage,
}

/// A submission as it is seen in contracts.
#[verifier::ext_equal]
pub struct SubmissionView {
    pub kind: ForgeKind,
    pub template: Seq<char>,
    pub update: bool,
    pub hash: Seq<char>,
    pub subject: Seq<char>,
    pub branch: Seq<char>,
    pub base: Seq<char>,
    pub body: Seq<char>,
    pub home: Seq<char>,
    pub remote: Result<Seq<char>, Seq<char>>,
    pub slug: Seq<char>,
    pub file: Seq<char>,
    pub ran: RanView,
    pub outcome: Result<Seq<char>, Seq<char>>,
    pub sets_base: bool,
    pub edit: BaseEditView,
    pub stage: Stage,
}

impl View for Submission {
    type V = SubmissionView;

    open spec fn view(&self) -> SubmissionView {
        SubmissionView {
            kind: self.kind,
            template: self.template@,
            update: self.update,
            hash: self.hash@,
            subject: self.subject@,
            branch: self.branch@,
            base: self.base@,
            body: self.body@,
            home: self.home@,
            remote: views::res(self.remote),
            slug: self.slug@,
            file: self.file@,
            ran: self.ran@,
            outcome: views::res(self.outcome),
            sets_base: self.sets_base,
            edit: self.edit@,
            stage: self.stage,
        }
    }
}

/// Asks for the current branch.
pub open spec fn ask_home() -> AskView {
    AskView::Git(seq!["rev-parse"@, "--abbrev-ref"@, "HEAD"@])
}

/// Asks to make something current.
pub open spec fn ask_checkout(name: Seq<char>) -> AskView {
    AskView::Git(seq!["checkout"@, "--quiet"@, name])
}

/// Runs a command in the shell, with the terminal as it is.
pub open spec fn ask_shell(command: Seq<char>) -> AskView {
    AskView::Run(
        CallView {
            program: "sh"@,
            args: seq!["-c"@, command],
            env: seq![],
            console: Console::Attached,
        },
    )
}

/// Asks for the current branch.
fn home_ask() -> (r: Ask)
    ensures
        r@ == ask_home(),
{
    Ask::Git(args(&["rev-parse", "--abbrev-ref", "HEAD"]))
}

/// Asks to make something current.
fn checkout(name: &str) -> (r: Ask)
    ensures
        r@ == ask_checkout(name@),
{
    Ask::Git(args(&["checkout", "--quiet", name]))
}

/// Runs a command in the shell.
fn shell(command: &str) -> (r: Ask)
    ensures
        r@ == ask_shell(command@),
{
    Ask::Run(
        Call {
            program: "sh".to_owned(),
            args: args(&["-c", command]),
            env: Vec::new(),
            console: Console::Attached,
        },
    )
}

/// What is said where owner and repository are unknown.
pub const NO_SLUG: &'static str = "Could not detect owner/repo from git remote";

/// A submission, and what it asks at first.
pub open spec fn first(s: SubmissionView) -> (SubmissionView, AskView) {
    match (s.kind, s.update) {
        (ForgeKind::Custom, _) => (SubmissionView { stage: Stage::Keep, ..s }, AskView::Keep(s.body)),
        (_, true) => (
            SubmissionView { stage: Stage::Fetch, ..s },
            AskView::Git(seq!["fetch"@, "origin"@]),
        ),
        (ForgeKind::Gitea, false) => (
            SubmissionView { stage: Stage::Remote, ..s },
            listing::ask_remote(),
        ),
        (_, false) => (SubmissionView { stage: Stage::Home, ..s }, ask_home()),
    }
}

/// A submission before its first answer.
pub open spec fn fresh(
    kind: ForgeKind,
    template: Seq<char>,
    update: bool,
    hash: Seq<char>,
    subject: Seq<char>,
    branch: Seq<char>,
    base: Seq<char>,
    body: Seq<char>,
) -> SubmissionView {
    SubmissionView {
        kind,
        template,
        update,
        hash,
        subject,
        branch,
        base,
        body,
        home: seq![],
        remote: Err(seq![]),
        slug: seq![],
        file: seq![],
        ran: RanView::Lost(seq![]),
        outcome: match kind {
            ForgeKind::GitLab => Ok(gitlab::updated(branch, base)),
            _ => Ok(github::updated(branch, base)),
        },
        sets_base: true,
        edit: base_edit::begun(kind, branch, base).0,
        stage: Stage::Over,
    }
}

/// The end of a submission.
pub open spec fn over(s: SubmissionView, outcome: Result<Seq<char>, Seq<char>>) -> (
    SubmissionView,
    AskView,
) {
    (
        SubmissionView { stage: Stage::Over, ..s },
        match outcome {
            Ok(t) => machine::done(t),
            Err(e) => machine::failed(e),
        },
    )
}

/// Sets the base, where there is anything to do for that, and says what there is to say.
pub open spec fn set_base(s: SubmissionView) -> (SubmissionView, AskView) {
    let (e, ask) = base_edit::begun(s.kind, s.branch, s.base);
    match ask {
        Some(a) => (SubmissionView { edit: e, stage: Stage::Edit, ..s }, a),
        None => over(SubmissionView { edit: e, ..s }, s.outcome),
    }
}

/// What follows where the branch could not be set or pushed: a submission fails, and so
/// does Gitea's update; elsewhere an update goes on.
pub open spec fn stuck(s: SubmissionView, e: Seq<char>) -> (SubmissionView, AskView) {
    if s.update && s.kind != ForgeKind::Gitea {
        set_base(s)
    } else {
        over(s, Err(e))
    }
}

/// Pushes the review's branch.
pub open spec fn push(s: SubmissionView) -> (SubmissionView, AskView) {
    (SubmissionView { stage: Stage::Push, ..s }, machine::ask_push(s.branch))
}

/// Sets the review's branch to the commit.
pub open spec fn place(s: SubmissionView) -> (SubmissionView, AskView) {
    (SubmissionView { stage: Stage::Branch, ..s }, machine::ask_branch(s.branch, s.hash))
}

/// Makes the review, once its branch is pushed; or is done, where it is there already.
pub open spec fn create(s: SubmissionView) -> (SubmissionView, AskView) {
    let next = SubmissionView { stage: Stage::Create, ..s };
    if s.update {
        if s.kind == ForgeKind::Gitea {
            over(s, Ok("PR pushed: "@ + s.branch))
        } else {
            set_base(s)
        }
    } else {
        match s.kind {
            ForgeKind::GitLab => (
                next,
                AskView::Run(gitlab::creation(s.branch, s.base, s.subject, s.body)),
            ),
            ForgeKind::Gitea => (
                next,
                AskView::Run(gitea::creation(s.slug, s.branch, s.base, s.subject, s.body)),
            ),
            _ => (
                next,
                AskView::Run(github::creation(s.branch, s.base, s.subject, s.body)),
            ),
        }
    }
}

/// What follows an answer about the review's branch.
pub open spec fn branch_step(s: SubmissionView, reply: ReplyView) -> (SubmissionView, AskView) {
    match (s.stage, reply) {
        (Stage::Fetch, ReplyView::Answer(a)) => if s.kind == ForgeKind::Gitea {
            place(s)
        } else {
            (SubmissionView { stage: Stage::Home, ..s }, ask_home())
        },
        (Stage::Remote, ReplyView::Answer(a)) => match gitea::told_slug(a) {
            Some(slug) => place(SubmissionView { remote: a, slug, ..s }),
            None => over(s, Err(NO_SLUG@)),
        },
        (Stage::Home, ReplyView::Answer(a)) => match a {
            Ok(t) => {
                let next = SubmissionView { home: chars::trim(t), ..s };
                if s.kind == ForgeKind::Custom {
                    (SubmissionView { stage: Stage::Checkout, ..next }, ask_checkout(s.hash))
                } else if next.home == s.branch {
                    push(next)
                } else {
                    place(next)
                }
            },
            Err(e) => if s.update && s.kind != ForgeKind::Custom {
                place(s)
            } else {
                over(s, Err(e))
            },
        },
        (Stage::Branch, ReplyView::Answer(a)) => match a {
            Ok(t) => push(s),
            Err(e) => stuck(s, e),
        },
        (Stage::Push, ReplyView::Answer(a)) => match a {
            Ok(t) => create(s),
            Err(e) => stuck(s, e),
        },
        _ => over(s, Err(machine::STRANGE@)),
    }
}

/// What follows once the platform has answered a request for a new review.
pub open spec fn created(s: SubmissionView, ran: RanView, what: SubmittedView) -> (
    SubmissionView,
    AskView,
) {
    match ran {
        RanView::Lost(e) => over(s, Err(e)),
        _ => (
            SubmissionView {
                outcome: match what {
                    SubmittedView::Done(r) => r,
                    SubmittedView::SetBase(t) => Ok(t),
                },
                sets_base: what is SetBase,
                stage: Stage::Back,
                ..s
            },
            ask_checkout(s.home),
        ),
    }
}

/// Whether Gitea has made a review without telling its address.
pub open spec fn silent(ran: RanView) -> bool {
    match ran {
        RanView::Lost(e) => false,
        RanView::Ended { success, stdout, stderr } => success && chars::trim(stdout).len() == 0,
    }
}

/// What follows an answer about the review.
pub open spec fn review_step(s: SubmissionView, reply: ReplyView) -> (SubmissionView, AskView) {
    match (s.stage, reply) {
        (Stage::Create, ReplyView::Ran(ran)) => match s.kind {
            ForgeKind::Gitea => if silent(ran) {
                (
                    SubmissionView { ran, stage: Stage::Logins, ..s },
                    AskView::Run(gitea::list_logins()),
                )
            } else {
                over(s, gitea::created(ran, s.branch, s.slug, None))
            },
            ForgeKind::GitLab => created(s, ran, gitlab::created(ran, s.branch, s.base)),
            _ => created(s, ran, github::created(ran, s.branch, s.base)),
        },
        (Stage::Logins, ReplyView::Ran(ran)) => over(
            s,
            gitea::created(s.ran, s.branch, s.slug, gitea::server_url(ran, s.remote)),
        ),
        (Stage::Back, ReplyView::Answer(a)) => if s.sets_base {
            set_base(s)
        } else {
            over(s, s.outcome)
        },
        (Stage::Edit, _) => {
            let (e, ask) = base_edit::edit_step(s.edit, reply);
            match ask {
                Some(a) => (SubmissionView { edit: e, ..s }, a),
                None => over(SubmissionView { edit: e, ..s }, s.outcome),
            }
        },
        _ => over(s, Err(machine::STRANGE@)),
    }
}

/// What follows an answer about a custom command.
pub open spec fn custom_step(s: SubmissionView, reply: ReplyView) -> (SubmissionView, AskView) {
    match (s.stage, reply) {
        (Stage::Keep, ReplyView::Answer(a)) => match a {
            Ok(file) => (SubmissionView { file, stage: Stage::Home, ..s }, ask_home()),
            Err(e) => over(s, Err(e)),
        },
        (Stage::Checkout, ReplyView::Answer(a)) => match a {
            Ok(t) => (
                SubmissionView { stage: Stage::Command, ..s },
                ask_shell(custom::expanded(s.template, s.hash, s.subject, s.body, s.file)),
            ),
            Err(e) => over(s, Err(e)),
        },
        (Stage::Command, ReplyView::Ran(ran)) => match ran {
            RanView::Lost(e) => over(s, Err(e)),
            RanView::Ended { success, stdout, stderr } => (
                SubmissionView { outcome: Ok(custom::told_end(success)), stage: Stage::Return, ..s },
                ask_checkout(s.home),
            ),
        },
        (Stage::Return, ReplyView::Answer(a)) => (
            SubmissionView { stage: Stage::Remove, ..s },
            AskView::Remove(s.file),
        ),
        (Stage::Remove, ReplyView::Nothing) => over(s, s.outcome),
        _ => over(s, Err(machine::STRANGE@)),
    }
}

/// A part of a submission.
#[derive(Debug, Clone, Copy, PartialEq, Eq, Structural)]
pub enum Part {
    Branch,
    Review,
    Custom,
}

impl Stage {
    /// The part that a stage belongs to.
    pub open spec fn in_part(self) -> Part {
        match self {
            Stage::Fetch | Stage::Remote | Stage::Home | Stage::Branch | Stage::Push => {
                Part::Branch
            },
            Stage::Create | Stage::Logins | Stage::Back | Stage::Edit => Part::Review,
            _ => Part::Custom,
        }
    }

    /// The part that a stage belongs to.
    pub fn part(self) -> (r: Part)
        ensures
            r == self.in_part(),
    {
        match self {
            Stage::Fetch | Stage::Remote | Stage::Home | Stage::Branch | Stage::Push => {
                Part::Branch
            },
            Stage::Create | Stage::Logins | Stage::Back | Stage::Edit => Part::Review,
            _ => Part::Custom,
        }
    }
}

/// What follows an answer.
pub open spec fn submission_step(s: SubmissionView, reply: ReplyView) -> (
    SubmissionView,
    AskView,
) {
    match s.stage.in_part() {
        Part::Branch => branch_step(s, reply),
        Part::Review => review_step(s, reply),
        Part::Custom => custom_step(s, reply),
    }
}

impl Submission {
    /// A submission before its first answer.
    pub fn new(
        kind: ForgeKind,
        template: Custom,
        update: bool,
        hash: &str,
        subject: &str,
        branch: &str,
        base: &str,
        body: &str,
    ) -> (r: Submission)
        ensures
            r@ == fresh(
                kind,
                template@,
                update,
                hash@,
                subject@,
                branch@,
                base@,
                body@,
            ),
    {
        let (edit, ask) = BaseEdit::edit_base(kind, branch, base);
        let text = match kind {
            ForgeKind::GitLab => GitLab.update(branch, base),
            _ => GitHub.update(branch, base),
        };
        Submission {
            kind,
            template,
            update,
            hash: hash.to_owned(),
            subject: subject.to_owned(),
            branch: branch.to_owned(),
            base: base.to_owned(),
            body: body.to_owned(),
            home: String::new(),
            remote: Err(String::new()),
            slug: String::new(),
            file: String::new(),
            ran: Ran::Lost(String::new()),
            outcome: Ok(text),
            sets_base: true,
            edit,
            stage: Stage::Over,
        }
    }

    /// The same submission, which waits for another answer.
    fn at(self, stage: Stage) -> (r: Submission)
        ensures
            r@ == (SubmissionView { stage, ..self@ }),
    {
        Submission { stage, ..self }
    }

    /// What is asked at first.
    pub fn begin(self) -> (r: (Submission, Ask))
        ensures
            r.0@ == first(self@).0,
            r.1@ == first(self@).1,
    {
        match (self.kind, self.update) {
            (ForgeKind::Custom, _) => {
                let ask = Ask::Keep(self.body.clone());
                (self.at(Stage::Keep), ask)
            },
            (_, true) => (self.at(Stage::Fetch), Ask::Git(args(&["fetch", "origin"]))),
            (ForgeKind::Gitea, false) => (self.at(Stage::Remote), remote_ask()),
            (_, false) => (self.at(Stage::Home), home_ask()),
        }
    }

    /// The end of a submission.
    fn end(self, outcome: Result<String, String>) -> (r: (Submission, Ask))
        ensures
            r.0@ == over(self@, views::res(outcome)).0,
            r.1@ == over(self@, views::res(outcome)).1,
    {
        (
            self.at(Stage::Over),
            match outcome {
                Ok(t) => finished(t),
                Err(e) => Ask::Done(Err(e)),
            },
        )
    }

    /// The end of a submission with what there is to say.
    fn tell(self) -> (r: (Submission, Ask))
        ensures
            r.0@ == over(self@, self@.outcome).0,
            r.1@ == over(self@, self@.outcome).1,
    {
        let outcome = match &self.outcome {
            Ok(t) => Ok(t.clone()),
            Err(e) => Err(e.clone()),
        };
        self.end(outcome)
    }

    /// The end of a submission that got an answer to another question.
    fn confused(self) -> (r: (Submission, Ask))
        ensures
            r.0@ == over(self@, Err(machine::STRANGE@)).0,
            r.1@ == over(self@, Err(machine::STRANGE@)).1,
    {
        (self.at(Stage::Over), confused())
    }

    /// Sets the base.
    fn set_base(self) -> (r: (Submission, Ask))
        ensures
            r.0@ == set_base(self@).0,
            r.1@ == set_base(self@).1,
    {
        let (edit, ask) = BaseEdit::edit_base(
            self.kind,
            self.branch.as_str(),
            self.base.as_str(),
        );
        match ask {
            Some(a) => (Submission { edit, stage: Stage::Edit, ..self }, a),
            None => Submission { edit, ..self }.tell(),
        }
    }

    /// What follows where the branch could not be set or pushed.
    fn stuck(self, e: String) -> (r: (Submission, Ask))
        ensures
            r.0@ == stuck(self@, e@).0,
            r.1@ == stuck(self@, e@).1,
    {
        if self.update && !matches!(self.kind, ForgeKind::Gitea) {
            self.set_base()
        } else {
            self.end(Err(e))
        }
    }

    /// Pushes the review's branch.
    fn push(self) -> (r: (Submission, Ask))
        ensures
            r.0@ == push(self@).0,
            r.1@ == push(self@).1,
    {
        let ask = push_branch(self.branch.as_str());
        (self.at(Stage::Push), ask)
    }

    /// Sets the review's branch to the commit.
    fn place(self) -> (r: (Submission, Ask))
        ensures
            r.0@ == place(self@).0,
            r.1@ == place(self@).1,
    {
        let ask = set_branch(self.branch.as_str(), self.hash.as_str());
        (self.at(Stage::Branch), ask)
    }

    /// Makes the review, once its branch is pushed.
    fn create(self) -> (r: (Submission, Ask))
        ensures
            r.0@ == create(self@).0,
            r.1@ == create(self@).1,
    {
        if self.update {
            if matches!(self.kind, ForgeKind::Gitea) {
                let text = Gitea.update(self.branch.as_str());
                return self.end(Ok(text));
            }
            return self.set_base();
        }
        let call = match self.kind {
            ForgeKind::GitLab => GitLab.submit(
                self.branch.as_str(),
                self.base.as_str(),
                self.subject.as_str(),
                self.body.as_str(),
            ),
            ForgeKind::Gitea => Gitea.submit(
                self.slug.as_str(),
                self.branch.as_str(),
                self.base.as_str(),
                self.subject.as_str(),
                self.body.as_str(),
            ),
            _ => GitHub.submit(
                self.branch.as_str(),
                self.base.as_str(),
                self.subject.as_str(),
                self.body.as_str(),
            ),
        };
        (self.at(Stage::Create), Ask::Run(call))
    }

    /// What follows an answer about the review's branch.
    fn branch_step(self, reply: Reply) -> (r: (Submission, Ask))
        ensures
            r.0@ == branch_step(self@, reply@).0,
            r.1@ == branch_step(self@, reply@).1,
    {
        match (self.stage, reply) {
            (Stage::Fetch, Reply::Answer(a)) => {
                if matches!(self.kind, ForgeKind::Gitea) {
                    self.place()
                } else {
                    (self.at(Stage::Home), home_ask())
                }
            },
            (Stage::Remote, Reply::Answer(a)) => match repo_slug(&a) {
                Some(slug) => Submission { remote: a, slug, ..self }.place(),
                None => self.end(Err(NO_SLUG.to_owned())),
            },
            (Stage::Home, Reply::Answer(a)) => match a {
                Ok(t) => {
                    let next = Submission { home: trimmed(t.as_str()), ..self };
                    if matches!(next.kind, ForgeKind::Custom) {
                        let ask = checkout(next.hash.as_str());
                        (next.at(Stage::Checkout), ask)
                    } else if same(next.home.as_str(), next.branch.as_str()) {
                        next.push()
                    } else {
                        next.place()
                    }
                },
                Err(e) => {
                    if self.update && !matches!(self.kind, ForgeKind::Custom) {
                        self.place()
                    } else {
                        self.end(Err(e))
                    }
                },
            },
            (Stage::Branch, Reply::Answer(a)) => match a {
                Ok(t) => self.push(),
                Err(e) => self.stuck(e),
            },
            (Stage::Push, Reply::Answer(a)) => match a {
                Ok(t) => self.create(),
                Err(e) => self.stuck(e),
            },
            _ => self.confused(),
        }
    }

    /// What follows once GitHub or GitLab has answered a request for a new review.
    fn created(self, lost: Option<String>, what: Submitted) -> (r: (Submission, Ask))
        ensures
            ({
                let ran = match views::opt(lost) {
                    Some(e) => RanView::Lost(e),
                    None => RanView::Ended { success: true, stdout: seq![], stderr: seq![] },
                };
                r.0@ == created(self@, ran, what@).0 && r.1@ == created(self@, ran, what@).1
            }),
    {
        match lost {
            Some(e) => self.end(Err(e)),
            None => {
                let ask = checkout(self.home.as_str());
                let (outcome, sets_base) = match what {
                    Submitted::Done(r) => (r, false),
                    Submitted::SetBase(t) => (Ok(t), true),
                };
                (Submission { outcome, sets_base, stage: Stage::Back, ..self }, ask)
            },
        }
    }

    /// What follows an answer about the review.
    fn review_step(self, reply: Reply) -> (r: (Submission, Ask))
        ensures
            r.0@ == review_step(self@, reply@).0,
            r.1@ == review_step(self@, reply@).1,
    {
        match (self.stage, reply) {
            (Stage::Create, Reply::Ran(ran)) => match self.kind {
                ForgeKind::Gitea => {
                    if is_silent(&ran) {
                        (
                            Submission { ran, stage: Stage::Logins, ..self },
                            Ask::Run(logins_call()),
                        )
                    } else {
                        let outcome = Gitea.submitted(
                            ran,
                            self.branch.as_str(),
                            self.slug.as_str(),
                            &None,
                        );
                        self.end(outcome)
                    }
                },
                ForgeKind::GitLab => {
                    let lost = lost_text(&ran);
                    let what = GitLab.submitted(ran, self.branch.as_str(), self.base.as_str());
                    self.created(lost, what)
                },
                _ => {
                    let lost = lost_text(&ran);
                    let what = GitHub.submitted(ran, self.branch.as_str(), self.base.as_str());
                    self.created(lost, what)
                },
            },
            (Stage::Logins, Reply::Ran(ran)) => {
                let server = base_url(&ran, &self.remote);
                let outcome = Gitea.submitted(
                    copy_ran(&self.ran),
                    self.branch.as_str(),
                    self.slug.as_str(),
                    &server,
                );
                self.end(outcome)
            },
            (Stage::Back, Reply::Answer(a)) => {
                if self.sets_base {
                    self.set_base()
                } else {
                    self.tell()
                }
            },
            (Stage::Edit, reply) => {
                let (edit, ask) = self.edit.step(reply);
                match ask {
                    Some(a) => (Submission { edit, ..self }, a),
                    None => Submission { edit, ..self }.tell(),
                }
            },
            _ => self.confused(),
        }
    }

    /// What follows an answer about a custom command.
    fn custom_step(self, reply: Reply) -> (r: (Submission, Ask))
        ensures
            r.0@ == custom_step(self@, reply@).0,
            r.1@ == custom_step(self@, reply@).1,
    {
        match (self.stage, reply) {
            (Stage::Keep, Reply::Answer(a)) => match a {
                Ok(file) => (Submission { file, stage: Stage::Home, ..self }, home_ask()),
                Err(e) => self.end(Err(e)),
            },
            (Stage::Checkout, Reply::Answer(a)) => match a {
                Ok(t) => {
                    let command = self.template.submit(
                        self.hash.as_str(),
                        self.subject.as_str(),
                        self.body.as_str(),
                        self.file.as_str(),
                    );
                    (self.at(Stage::Command), shell(command.as_str()))
                },
                Err(e) => self.end(Err(e)),
            },
            (Stage::Command, Reply::Ran(ran)) => match ran {
                Ran::Lost(e) => self.end(Err(e)),
                Ran::Ended { success, stdout, stderr } => {
                    let text = self.template.submitted(success);
                    let ask = checkout(self.home.as_str());
                    (Submission { outcome: Ok(text), stage: Stage::Return, ..self }, ask)
                },
            },
            (Stage::Return, Reply::Answer(a)) => {
                let ask = Ask::Remove(self.file.clone());
                (self.at(Stage::Remove), ask)
            },
            (Stage::Remove, Reply::Nothing) => self.tell(),
            _ => self.confused(),
        }
    }

    /// What follows an answer.
    pub fn step(self, reply: Reply) -> (r: (Submission, Ask))
        ensures
            r.0@ == submission_step(self@, reply@).0,
            r.1@ == submission_step(self@, reply@).1,
    {
        match self.stage.part() {
            Part::Branch => self.branch_step(reply),
            Part::Review => self.review_step(reply),
            Part::Custom => self.custom_step(reply),
        }
    }
}

/// Whether Gitea has made a review without telling its address.
fn is_silent(ran: &Ran) -> (r: bool)
    ensures
        r == silent(ran@),
{
    match ran {
        Ran::Lost(e) => false,
        Ran::Ended { success, stdout, stderr } => {
            *success && trimmed(stdout.as_str()).as_str().is_empty()
        },
    }
}

/// Why a program could not be run, if it could not.
fn lost_text(ran: &Ran) -> (r: Option<String>)
    ensures
        views::opt(r) == match ran@ {
            RanView::Lost(e) => Some(e),
            _ => None,
        },
{
    match ran {
        Ran::Lost(e) => Some(e.clone()),
        _ => None,
    }
}

/// The same end of a program.
fn copy_ran(ran: &Ran) -> (r: Ran)
    ensures
        r@ == ran@,
{
    match ran {
        Ran::Lost(e) => Ran::Lost(e.clone()),
        Ran::Ended { success, stdout, stderr } => Ran::Ended {
            success: *success,
            stdout: stdout.clone(),
            stderr: stderr.clone(),
        },
    }
}

/// A new review is asked for only once its branch is pushed.
pub proof fn law_pushed_before_created(s: SubmissionView, reply: ReplyView)
    requires
        s.stage != Stage::Create,
    ensures
        submission_step(s, reply).0.stage == Stage::Create ==> s.stage == Stage::Push
            && reply matches ReplyView::Answer(Ok(t)),
{
}

/// Whatever the platform answers to the request for a new review, the branch that was
/// current before is current again before anything else is done.
pub proof fn law_back_to_branch(s: SubmissionView, ran: RanView)
    requires
        s.stage == Stage::Create,
        s.kind == ForgeKind::GitHub || s.kind == ForgeKind::GitLab,
        ran is Ended,
    ensures
        submission_step(s, ReplyView::Ran(ran)).1 == ask_checkout(s.home),
{
}

/// A custom command runs on the commit, and then the branch that was current before is
/// current again.
pub proof fn law_custom_returns(
    s: SubmissionView,
    done: Seq<char>,
    success: bool,
    stdout: Seq<char>,
    stderr: Seq<char>,
)
    requires
        s.stage == Stage::Checkout,
    ensures
        ({
            let one = submission_step(s, ReplyView::Answer(Ok(done)));
            let two = submission_step(
                one.0,
                ReplyView::Ran(RanView::Ended { success, stdout, stderr }),
            );
            one.1 == ask_shell(
                custom::expanded(s.template, s.hash, s.subject, s.body, s.file),
            ) && two.1 == ask_checkout(s.home)
        }),
{
}

} // verus!
