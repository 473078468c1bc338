//! What is asked of a platform, whichever it is.
use vstd::prelude::*;

use super::custom::Custom;
use super::machine::{Ask, AskView, Reply, ReplyView};
use super::phabricator::depend;
use super::phabricator::depend::{Fix, FixView};
use super::phabricator::message;
use super::phabricator::sync::{Sync, SyncView};
use super::phabricator::sync;
use super::phabricator::upload;
use super::phabricator::upload::{Upload, UploadView};
use super::review;
use super::review::Review;
use super::submission;
use super::submission::{Submission, SubmissionView};
use super::syncing;
use super::syncing::{Syncing, SyncingView};
use super::{machine, Forge, ForgeKind, ForgeView};
use crate::git::branch::Wanted;
use crate::git::ops;
use crate::git::ops::Repo;
use crate::stack;
use crate::stack::{PatchEntry, PatchView};
use crate::strmap::StrMap;
use crate::text::bytes;
use crate::text::pieces;
use crate::text::views;

verus! {

broadcast use views::group_views;

/// An operation of a platform under way.
pub enum Operation {
    /// A review is made or updated.
    Submission(Submission),
    /// All reviews are brought up to date.
    Syncing(Syncing),
    /// A revision is made or updated.
    Upload(Upload),
    /// All revisions are brought up to date.
    Revisions(Sync),
    /// Dependencies are fixed.
    Fix(Fix),
}

/// An operation of a platform as it is seen in contracts.
#[verifier::ext_equal]
pub enum OperationView {
    Submission(SubmissionView),
    Syncing(SyncingView),
    Upload(UploadView),
    Revisions(SyncView),
    Fix(FixView),
}

impl View for Operation {
    type V = OperationView;

    open spec fn view(&self) -> OperationView {
        match *self {
            Operation::Submission(s) => OperationView::Submission(s@),
            Operation::Syncing(s) => OperationView::Syncing(s@),
            Operation::Upload(s) => OperationView::Upload(s@),
            Operation::Revisions(s) => OperationView::Revisions(s@),
            Operation::Fix(s) => OperationView::Fix(s@),
        }
    }
}

impl OperationView {
    /// Every commit has its branch.
    pub open spec fn wf(self) -> bool {
        match self {
            OperationView::Syncing(s) => s.wf(),
            _ => true,
        }
    }
}

/// The command of a custom platform.
pub open spec fn template_of(f: ForgeView) -> Seq<char> {
    match f {
        ForgeView::Custom(c) => c,
        _ => seq![],
    }
}

/// A commit is submitted for review. A custom command that updates gets no description.
pub open spec fn submitting(
    f: ForgeView,
    update: bool,
    hash: Seq<char>,
    subject: Seq<char>,
    branch: Seq<char>,
    base: Seq<char>,
    body: Seq<char>,
) -> (OperationView, AskView) {
    match f {
        ForgeView::Phabricator => (
            OperationView::Upload(upload::begun(update, hash, branch)),
            if update {
                machine::ask_message(hash)
            } else {
                AskView::EditCommit(bytes::cut(hash, 7))
            },
        ),
        _ => {
            let (s, ask) = submission::first(
                submission::fresh(
                    f.kind(),
                    template_of(f),
                    update,
                    hash,
                    subject,
                    branch,
                    base,
                    body,
                ),
            );
            (OperationView::Submission(s), ask)
        },
    }
}

/// All reviews are brought up to date.
pub open spec fn syncing_all(
    f: ForgeView,
    patches: Seq<PatchView>,
    branches: Seq<Seq<char>>,
) -> (OperationView, AskView) {
    match f {
        ForgeView::Phabricator => (
            OperationView::Revisions(
                SyncView {
                    items: sync::submitted(patches, branches, patches.len() as int),
                    at: 0,
                    updates: seq![],
                    home: seq![],
                    stage: sync::Stage::Home,
                },
            ),
            submission::ask_home(),
        ),
        _ => {
            let (s, ask) = syncing::begun(f.kind(), patches, branches);
            (OperationView::Syncing(s), ask)
        },
    }
}

/// What follows an answer.
pub open spec fn operation_step(o: OperationView, reply: ReplyView) -> (OperationView, AskView) {
    match o {
        OperationView::Submission(s) => {
            let (n, ask) = submission::submission_step(s, reply);
            (OperationView::Submission(n), ask)
        },
        OperationView::Syncing(s) => {
            let (n, ask) = syncing::syncing_step(s, reply);
            (OperationView::Syncing(n), ask)
        },
        OperationView::Upload(s) => {
            let (n, ask) = upload::upload_step(s, reply);
            (OperationView::Upload(n), ask)
        },
        OperationView::Revisions(s) => {
            let (n, ask) = sync::sync_step(s, reply);
            (OperationView::Revisions(n), ask)
        },
        OperationView::Fix(s) => {
            let (n, ask) = depend::fix_step(s, reply);
            (OperationView::Fix(n), ask)
        },
    }
}

impl Forge {
    /// A submission or an update before its first answer.
    fn submission(
        &self,
        update: bool,
        hash: &str,
        subject: &str,
        branch: &str,
        base: &str,
        body: &str,
    ) -> (r: Submission)
        ensures
            r@ == submission::fresh(
                self@.kind(),
                template_of(self@),
                update,
                hash@,
                subject@,
                branch@,
                base@,
                body@,
            ),
    {
        let template = match self {
            Forge::Custom(c) => c.clone(),
            _ => Custom::new(String::new()),
        };
        Submission::new(self.kind(), template, update, hash, subject, branch, base, body)
    }

    /// Submit a commit as a review: the first step.
    pub fn submit(&self, hash: &str, subject: &str, branch: &str, base: &str, body: &str) -> (r: (
        Operation,
        Ask,
    ))
        requires
            self@ is Phabricator ==> bytes::cuts(hash@, 7),
        ensures
            r.0@ == submitting(self@, false, hash@, subject@, branch@, base@, body@).0,
            r.1@ == submitting(self@, false, hash@, subject@, branch@, base@, body@).1,
            r.0@.wf(),
    {
        match self {
            Forge::Phabricator(p) => {
                let (s, ask) = p.submit(hash, branch);
                (Operation::Upload(s), ask)
            },
            _ => {
                let s = self.submission(false, hash, subject, branch, base, body);
                let (s, ask) = s.begin();
                (Operation::Submission(s), ask)
            },
        }
    }

    /// Update an existing review: the first step.
    pub fn update(&self, hash: &str, subject: &str, branch: &str, base: &str) -> (r: (
        Operation,
        Ask,
    ))
        requires
            self@ is Phabricator ==> bytes::cuts(hash@, 7),
        ensures
            r.0@ == submitting(self@, true, hash@, subject@, branch@, base@, seq![]).0,
            r.1@ == submitting(self@, true, hash@, subject@, branch@, base@, seq![]).1,
            r.0@.wf(),
    {
        match self {
            Forge::Phabricator(p) => {
                let (s, ask) = p.update(hash, branch);
                (Operation::Upload(s), ask)
            },
            _ => {
                proof {
                    reveal_strlit("");
                    assert(""@ =~= Seq::<char>::empty());
                }
                let s = self.submission(true, hash, subject, branch, base, "");
                let (s, ask) = s.begin();
                (Operation::Submission(s), ask)
            },
        }
    }

    /// Whose branches have to be known for a sync: where reviews stand on branches, those
    /// of all commits, which show what is under review; for Phabricator those of the
    /// submitted commits; for a custom command none.
    pub fn named_in_sync(&self) -> (r: Wanted)
        ensures
            r == match self@.kind() {
                ForgeKind::Phabricator => Wanted::Submitted,
                ForgeKind::Custom => Wanted::Nobody,
                _ => Wanted::All,
            },
    {
        match self.kind() {
            ForgeKind::Phabricator => Wanted::Submitted,
            ForgeKind::Custom => Wanted::Nobody,
            _ => Wanted::All,
        }
    }

    /// Sync all submitted reviews: force-push + update bases; the first step.
    pub fn sync(&self, patches: &Vec<PatchEntry>, branches: &Vec<String>) -> (r: (Operation, Ask))
        requires
            branches@.len() == patches@.len(),
        ensures
            r.0@ == syncing_all(self@, stack::patches(patches@), views::strs(branches@)).0,
            r.1@ == syncing_all(self@, stack::patches(patches@), views::strs(branches@)).1,
            r.0@.wf(),
    {
        match self {
            Forge::Phabricator(p) => {
                let (s, ask) = p.sync(patches, branches);
                proof {
                    assert(stack::patches(patches@).len() == patches@.len());
                }
                (Operation::Revisions(s), ask)
            },
            _ => {
                let (s, ask) = Syncing::sync(self.kind(), patches, branches);
                (Operation::Syncing(s), ask)
            },
        }
    }

    /// Fix dependency trailers in commit messages ("Depends on DXXX" for Phabricator):
    /// the first step. Other platforms have none.
    pub fn fix_dependencies(&self, os: &str) -> (r: Option<(Operation, Ask)>)
        ensures
            match r {
                Some((o, ask)) => self@ is Phabricator && o@ == OperationView::Fix(depend::begun(os@))
                    && ask@ == AskView::Detect && o@.wf(),
                None => !(self@ is Phabricator),
            },
    {
        match self {
            Forge::Phabricator(p) => {
                let (s, ask) = p.fix_dependencies(os);
                Some((Operation::Fix(s), ask))
            },
            _ => None,
        }
    }
}

/// What is known of the commits of a stack: which reviews are open, where reviews stand on
/// branches, and the commits' messages, where those tell of reviews.
pub struct Facts {
    /// The branches of the commits.
    pub branches: Vec<String>,
    pub reviews: StrMap<Review>,
    /// Whether the platform could be asked for the reviews.
    pub available: bool,
    /// Which branches are there.
    pub there: Vec<bool>,
    /// The messages of the commits.
    pub messages: Vec<String>,
}

impl Facts {
    /// What is needed is known of every commit.
    pub open spec fn cover(&self, kind: ForgeKind, n: nat) -> bool {
        match kind {
            ForgeKind::Phabricator => self.messages@.len() == n,
            ForgeKind::Custom => true,
            _ => self.branches@.len() == n && self.there@.len() == n,
        }
    }

    /// The commits, each marked as submitted where it is under review. Custom commands
    /// leave no trace.
    pub open spec fn marked(&self, kind: ForgeKind, p: Seq<PatchView>) -> Seq<PatchView> {
        match kind {
            ForgeKind::Phabricator => Seq::new(
                p.len(),
                |i: int| message::marked(p[i], views::strs(self.messages@)[i]),
            ),
            ForgeKind::Custom => p,
            _ => review::all_marked(
                p,
                views::strs(self.branches@),
                self.reviews@,
                self.available,
                self.there@,
            ),
        }
    }
}

impl Forge {
    /// Mark submitted patches based on the platform's state.
    pub fn mark_submitted(&self, patches: &mut Vec<PatchEntry>, facts: &Facts)
        requires
            facts.cover(self@.kind(), old(patches)@.len()),
        ensures
            stack::patches(final(patches)@) == facts.marked(
                self@.kind(),
                stack::patches(old(patches)@),
            ),
    {
        match self.kind() {
            ForgeKind::Phabricator => message::mark_submitted(patches, &facts.messages),
            ForgeKind::Custom => {},
            _ => review::mark_submitted(
                patches,
                &facts.branches,
                &facts.reviews,
                facts.available,
                facts.there.as_slice(),
            ),
        }
    }

    /// Find branches whose review has landed, beyond those that the list of open reviews
    /// tells: for Phabricator, by the trailers of the branches' messages, `tips`, and those
    /// of the messages that the searches of the base branch for them printed. Other
    /// platforms know none.
    pub fn find_landed_branches(
        &self,
        branches: &Vec<String>,
        tips: &Vec<String>,
        outputs: &Vec<Vec<String>>,
    ) -> (r: Vec<String>)
        requires
            self@ is Phabricator ==> tips@.len() == branches@.len() && outputs@.len()
                == branches@.len(),
        ensures
            views::strs(r@) == match self@ {
                ForgeView::Phabricator => message::landed(
                    views::strs(branches@),
                    views::strs(tips@),
                    views::lists(outputs@),
                ),
                _ => seq![],
            },
    {
        match self {
            Forge::Phabricator(p) => message::find_landed_branches(branches, tips, outputs),
            _ => Vec::new(),
        }
    }
}

impl Repo {
    /// The commits between base and HEAD, bottom-of-stack first, from the log's output,
    /// each marked as submitted where it has a submitted review.
    pub fn load_stack(&self, forge: &Forge, output: &str, facts: &Facts) -> (r: Vec<PatchEntry>)
        requires
            facts.cover(
                forge@.kind(),
                ops::record_entries(pieces::split(output@, "\x1e"@)).len(),
            ),
        ensures
            stack::patches(r@) == facts.marked(
                forge@.kind(),
                ops::record_entries(pieces::split(output@, "\x1e"@)),
            ),
    {
        let mut patches = self.list_stack_commits(output);
        proof {
            assert(stack::patches(patches@).len() == patches@.len());
        }
        forge.mark_submitted(&mut patches, facts);
        patches
    }
}

impl Operation {
    /// What follows an answer.
    pub fn step(self, reply: Reply) -> (r: (Operation, Ask))
        requires
            self@.wf(),
        ensures
            r.0@ == operation_step(self@, reply@).0,
            r.1@ == operation_step(self@, reply@).1,
            r.0@.wf(),
    {
        match self {
            Operation::Submission(s) => {
                let (n, ask) = s.step(reply);
                (Operation::Submission(n), ask)
            },
            Operation::Syncing(s) => {
                let (n, ask) = s.step(reply);
                (Operation::Syncing(n), ask)
            },
            Operation::Upload(s) => {
                let (n, ask) = s.step(reply);
                (Operation::Upload(n), ask)
            },
            Operation::Revisions(s) => {
                let (n, ask) = s.step(reply);
                (Operation::Revisions(n), ask)
            },
            Operation::Fix(s) => {
                let (n, ask) = s.step(reply);
                (Operation::Fix(n), ask)
            },
        }
    }
}

} // verus!
