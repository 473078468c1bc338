//! Bringing all reviews that stand on branches up to date.
use vstd::prelude::*;

use super::base_edit;
use super::base_edit::{BaseEdit, BaseEditView};
use super::custom;
use super::gitea;
use super::gitea::Gitea;
use super::github::GitHub;
use super::gitlab::GitLab;
use super::listing;
use super::listing::{Listing, ListingView};
use super::machine;
use super::machine::{confused, Ask, AskView, Reply, ReplyView};
use super::review;
use super::review::{review_numbers, sync_update, SyncItem, SyncItemView};
use super::ForgeKind;
use crate::git::ops;
use crate::stack;
use crate::stack::{copy_patches, PatchEntry, PatchView};
use crate::text::args::args;
use crate::text::chars::copy_strs;
use crate::text::views;

verus! {

broadcast use views::group_views;

/// Which answer the operation waits for.
#[derive(Debug, Clone, Copy, PartialEq, Eq, Structural)]
pub enum Stage {
    /// The fetch.
    Fetch,
    /// The base.
    Base,
    /// That it was said that the open reviews are looked at.
    Note,
    /// The open reviews.
    List,
    /// That it was said which review is at hand.
    Item,
    /// A git command for the review at hand.
    Command,
    /// The base of the review at hand.
    Edit,
    /// That it was said that there is nothing to bring up to date.
    Quiet,
    /// Nothing more.
    Over,
}

/// The operation under way.
pub struct Syncing {
    pub kind: ForgeKind,
    pub patches: Vec<PatchEntry>,
    /// The branches of the commits.
    pub branches: Vec<String>,
    /// The base of the stack.
    pub base: String,
    pub listing: Listing,
    /// What is to be done for each open review.
    pub plan: Vec<SyncItem>,
    /// The review at hand, by its place.
    pub at: usize,
    /// The command at hand, by its place.
    pub command: usize,
    pub edit: BaseEdit,
    /// What there is to say of each review.
    pub updates: Vec<String>,
    pub stage: Stage,
}

/// The operation as it is seen in contracts.
#[verifier::ext_equal]
pub struct SyncingView {
    pub kind: ForgeKind,
    pub patches: Seq<PatchView>,
    pub branches: Seq<Seq<char>>,
    pub base: Seq<char>,
    pub listing: ListingView,
    pub plan: Seq<SyncItemView>,
    pub at: nat,
    pub command: nat,
    pub edit: BaseEditView,
    pub updates: Seq<Seq<char>>,
    pub stage: Stage,
}

impl View for Syncing {
    type V = SyncingView;

    open spec fn view(&self) -> SyncingView {
        SyncingView {
            kind: self.kind,
            patches: stack::patches(self.patches@),
            branches: views::strs(self.branches@),
            base: self.base@,
            listing: self.listing@,
            plan: review::items(self.plan@),
            at: self.at as nat,
            command: self.command as nat,
            edit: self.edit@,
            updates: views::strs(self.updates@),
            stage: self.stage,
        }
    }
}

impl SyncingView {
    /// Every commit has its branch.
    pub open spec fn wf(self) -> bool {
        self.branches.len() == self.patches.len()
    }
}

/// The operation before its first answer.
pub open spec fn fresh(
    kind: ForgeKind,
    patches: Seq<PatchView>,
    branches: Seq<Seq<char>>,
    stage: Stage,
) -> SyncingView {
    SyncingView {
        kind,
        patches,
        branches,
        base: seq![],
        listing: listing::begun(kind, false).0,
        plan: seq![],
        at: 0,
        command: 0,
        edit: base_edit::begun(kind, seq![], seq![]).0,
        updates: seq![],
        stage,
    }
}

/// The operation, and what it asks at first. Custom commands bring nothing up to date.
pub open spec fn begun(
    kind: ForgeKind,
    patches: Seq<PatchView>,
    branches: Seq<Seq<char>>,
) -> (SyncingView, AskView) {
    if kind == ForgeKind::Custom {
        (fresh(kind, patches, branches, Stage::Quiet), AskView::Say(custom::NO_SYNC@))
    } else {
        (
            fresh(kind, patches, branches, Stage::Fetch),
            AskView::Progress("Fetching latest from origin..."@, seq!["fetch"@, "origin"@]),
        )
    }
}

/// The end of the operation.
pub open spec fn over(s: SyncingView) -> (SyncingView, AskView) {
    (SyncingView { stage: Stage::Over, ..s }, AskView::Done(Ok(s.updates)))
}

/// Looks at the open reviews.
pub open spec fn list(s: SyncingView) -> (SyncingView, AskView) {
    let (l, ask) = listing::begun(s.kind, false);
    match ask {
        Some(a) => (SyncingView { listing: l, stage: Stage::List, ..s }, a),
        None => over(s),
    }
}

/// What is to be done for each open review.
pub open spec fn planned(s: SyncingView, l: ListingView) -> Seq<SyncItemView> {
    let open = review::numbers(l.reviews);
    let n = s.patches.len() as int;
    if s.kind == ForgeKind::Gitea {
        gitea::push_items(s.patches, s.branches, open, n)
    } else {
        review::sync_items(s.patches, s.branches, open, ops::plain_base(s.base), n)
    }
}

/// Takes up the review at a place, if there is one.
pub open spec fn take_up(s: SyncingView, at: nat) -> (SyncingView, AskView) {
    if at < s.plan.len() {
        (
            SyncingView { at, command: 0, stage: Stage::Item, ..s },
            AskView::Say(s.plan[at as int].progress),
        )
    } else {
        over(s)
    }
}

/// Goes on with the next review, with something to say of the one at hand.
pub open spec fn noted(s: SyncingView, text: Seq<char>) -> (SyncingView, AskView) {
    take_up(SyncingView { updates: s.updates.push(text), ..s }, s.at + 1)
}

/// Runs the command at a place for the review at hand, if there is one; after the last,
/// the base is set.
pub open spec fn run(s: SyncingView, k: nat) -> (SyncingView, AskView) {
    let item = s.plan[s.at as int];
    if k < item.commands.len() {
        (
            SyncingView { command: k, stage: Stage::Command, ..s },
            AskView::Git(item.commands[k as int]),
        )
    } else if s.kind == ForgeKind::Gitea {
        noted(s, "✓ "@ + item.branch + " pushed"@)
    } else {
        let (e, ask) = base_edit::begun(s.kind, item.branch, item.base);
        match ask {
            Some(a) => (SyncingView { edit: e, stage: Stage::Edit, ..s }, a),
            None => noted(
                SyncingView { edit: e, ..s },
                review::update_line(e.edited, item.branch, item.base),
            ),
        }
    }
}

/// The end of the operation where it got an answer to another question.
pub open spec fn lost(s: SyncingView) -> (SyncingView, AskView) {
    (SyncingView { stage: Stage::Over, ..s }, machine::strange())
}

/// What follows an answer.
pub open spec fn syncing_step(s: SyncingView, reply: ReplyView) -> (SyncingView, AskView) {
    match (s.stage, reply) {
        (Stage::Fetch, ReplyView::Answer(a)) => if s.kind == ForgeKind::Gitea {
            list(s)
        } else {
            (SyncingView { stage: Stage::Base, ..s }, AskView::Base)
        },
        (Stage::Base, ReplyView::Answer(a)) => match a {
            Ok(base) => (
                SyncingView { base, stage: Stage::Note, ..s },
                AskView::Say(
                    if s.kind == ForgeKind::GitLab {
                        "Checking open MRs on GitLab..."@
                    } else {
                        "Checking open PRs on GitHub..."@
                    },
                ),
            ),
            Err(e) => (SyncingView { stage: Stage::Over, ..s }, machine::failed(e)),
        },
        (Stage::Note, ReplyView::Nothing) => list(s),
        (Stage::List, _) => {
            let (l, ask) = listing::listing_step(s.listing, reply);
            match ask {
                Some(a) => (SyncingView { listing: l, ..s }, a),
                None => take_up(SyncingView { listing: l, plan: planned(s, l), ..s }, 0),
            }
        },
        (Stage::Item, ReplyView::Nothing) => if s.at < s.plan.len() {
            run(s, 0)
        } else {
            lost(s)
        },
        (Stage::Command, ReplyView::Answer(a)) => if s.at < s.plan.len() && s.command
            < s.plan[s.at as int].commands.len() {
            run(s, s.command + 1)
        } else {
            lost(s)
        },
        (Stage::Edit, _) => if s.at < s.plan.len() {
            let (e, ask) = base_edit::edit_step(s.edit, reply);
            let item = s.plan[s.at as int];
            match ask {
                Some(a) => (SyncingView { edit: e, ..s }, a),
                None => noted(
                    SyncingView { edit: e, ..s },
                    review::update_line(e.edited, item.branch, item.base),
                ),
            }
        } else {
            lost(s)
        },
        (Stage::Quiet, ReplyView::Nothing) => over(s),
        _ => lost(s),
    }
}

impl Syncing {
    /// Sync all submitted reviews: force-push + update bases; the first step.
    pub fn sync(kind: ForgeKind, patches: &Vec<PatchEntry>, branches: &Vec<String>) -> (r: (
        Syncing,
        Ask,
    ))
        requires
            branches@.len() == patches@.len(),
        ensures
            r.0@ == begun(kind, stack::patches(patches@), views::strs(branches@)).0,
            r.1@ == begun(kind, stack::patches(patches@), views::strs(branches@)).1,
            r.0@.wf(),
    {
        let (l, ask) = Listing::list_open(kind, false);
        let (edit, none) = BaseEdit::edit_base(kind, "", "");
        let custom = matches!(kind, ForgeKind::Custom);
        let plan: Vec<SyncItem> = Vec::new();
        proof {
            reveal_strlit("");
            assert(""@ =~= Seq::<char>::empty());
            assert(review::items(plan@) =~= Seq::<SyncItemView>::empty());
        }
        let s = Syncing {
            kind,
            patches: copy_patches(patches),
            branches: copy_strs(branches),
            base: String::new(),
            listing: l,
            plan,
            at: 0,
            command: 0,
            edit,
            updates: Vec::new(),
            stage: if custom {
                Stage::Quiet
            } else {
                Stage::Fetch
            },
        };
        if custom {
            (s, Ask::Say(custom::NO_SYNC.to_owned()))
        } else {
            (
                s,
                Ask::Progress(
                    "Fetching latest from origin...".to_owned(),
                    args(&["fetch", "origin"]),
                ),
            )
        }
    }

    /// The end of the operation.
    fn end(self) -> (r: (Syncing, Ask))
        requires
            self@.wf(),
        ensures
            r.0@ == over(self@).0,
            r.1@ == over(self@).1,
            r.0@.wf(),
    {
        let updates = copy_strs(&self.updates);
        (Syncing { stage: Stage::Over, ..self }, Ask::Done(Ok(updates)))
    }

    /// The end of the operation where it got an answer to another question.
    fn lost(self) -> (r: (Syncing, Ask))
        requires
            self@.wf(),
        ensures
            r.0@ == lost(self@).0,
            r.1@ == lost(self@).1,
            r.0@.wf(),
    {
        (Syncing { stage: Stage::Over, ..self }, confused())
    }

    /// Looks at the open reviews.
    fn list(self) -> (r: (Syncing, Ask))
        requires
            self@.wf(),
        ensures
            r.0@ == list(self@).0,
            r.1@ == list(self@).1,
            r.0@.wf(),
    {
        let (l, ask) = Listing::list_open(self.kind, false);
        match ask {
            Some(a) => (Syncing { listing: l, stage: Stage::List, ..self }, a),
            None => self.end(),
        }
    }

    /// Takes up the review at a place, if there is one.
    fn take_up(self, at: usize) -> (r: (Syncing, Ask))
        requires
            self@.wf(),
        ensures
            r.0@ == take_up(self@, at as nat).0,
            r.1@ == take_up(self@, at as nat).1,
            r.0@.wf(),
    {
        proof {
            assert(self@.plan.len() == self.plan@.len());
        }
        if at < self.plan.len() {
            proof {
                assert(self@.plan[at as int] == self.plan@[at as int]@);
            }
            let ask = Ask::Say(self.plan[at].progress.clone());
            (Syncing { at, command: 0, stage: Stage::Item, ..self }, ask)
        } else {
            self.end()
        }
    }

    /// Goes on with the next review, with something to say of the one at hand.
    fn noted(self, text: String) -> (r: (Syncing, Ask))
        requires
            self@.wf(),
            self@.at < self@.plan.len(),
        ensures
            r.0@ == noted(self@, text@).0,
            r.1@ == noted(self@, text@).1,
            r.0@.wf(),
    {
        proof {
            assert(self@.plan.len() == self.plan.len());
        }
        let next: usize = self.at + 1;
        let mut s = self;
        s.updates.push(text);
        s.take_up(next)
    }

    /// Runs the command at a place for the review at hand, if there is one.
    fn run(self, k: usize) -> (r: (Syncing, Ask))
        requires
            self@.wf(),
            self@.at < self@.plan.len(),
        ensures
            r.0@ == run(self@, k as nat).0,
            r.1@ == run(self@, k as nat).1,
            r.0@.wf(),
    {
        let at: usize = self.at;
        proof {
            assert(self@.plan.len() == self.plan@.len());
            assert(self@.plan[at as int] == self.plan@[at as int]@);
            assert(self@.plan[at as int].commands.len() == self.plan@[at as int].commands@.len());
        }
        if k < self.plan[at].commands.len() {
            proof {
                assert(self@.plan[at as int].commands[k as int] == views::strs(
                    self.plan@[at as int].commands@[k as int]@,
                ));
            }
            let ask = Ask::Git(copy_strs(&self.plan[at].commands[k]));
            (Syncing { command: k, stage: Stage::Command, ..self }, ask)
        } else if matches!(self.kind, ForgeKind::Gitea) {
            let text = Gitea.pushed_line(self.plan[at].branch.as_str());
            self.noted(text)
        } else {
            let (edit, ask) = BaseEdit::edit_base(
                self.kind,
                self.plan[at].branch.as_str(),
                self.plan[at].base.as_str(),
            );
            match ask {
                Some(a) => (Syncing { edit, stage: Stage::Edit, ..self }, a),
                None => {
                    let text = sync_update(
                        edit.edited,
                        self.plan[at].branch.as_str(),
                        self.plan[at].base.as_str(),
                    );
                    Syncing { edit, ..self }.noted(text)
                },
            }
        }
    }

    /// What is to be done for each open review.
    fn plan(&self, l: &Listing) -> (r: Vec<SyncItem>)
        requires
            self@.wf(),
        ensures
            review::items(r@) == planned(self@, l@),
    {
        proof {
            assert(self@.patches.len() == self.patches@.len());
            assert(self@.branches.len() == self.branches@.len());
        }
        let open = review_numbers(&l.reviews);
        match self.kind {
            ForgeKind::Gitea => Gitea.sync(&self.patches, &self.branches, &open),
            ForgeKind::GitLab => match GitLab.sync(
                Ok(self.base.clone()),
                &self.patches,
                &self.branches,
                &open,
            ) {
                Ok(plan) => plan,
                Err(e) => Vec::new(),
            },
            _ => match GitHub.sync(
                Ok(self.base.clone()),
                &self.patches,
                &self.branches,
                &open,
            ) {
                Ok(plan) => plan,
                Err(e) => Vec::new(),
            },
        }
    }

    /// What follows an answer.
    pub fn step(self, reply: Reply) -> (r: (Syncing, Ask))
        requires
            self@.wf(),
        ensures
            r.0@ == syncing_step(self@, reply@).0,
            r.1@ == syncing_step(self@, reply@).1,
            r.0@.wf(),
    {
        proof {
            assert(self@.plan.len() == self.plan@.len());
        }
        match (self.stage, reply) {
            (Stage::Fetch, Reply::Answer(a)) => {
                if matches!(self.kind, ForgeKind::Gitea) {
                    self.list()
                } else {
                    (Syncing { stage: Stage::Base, ..self }, Ask::Base)
                }
            },
            (Stage::Base, Reply::Answer(a)) => match a {
                Ok(base) => {
                    let text = if matches!(self.kind, ForgeKind::GitLab) {
                        "Checking open MRs on GitLab..."
                    } else {
                        "Checking open PRs on GitHub..."
                    };
                    (
                        Syncing { base, stage: Stage::Note, ..self },
                        Ask::Say(text.to_owned()),
                    )
                },
                Err(e) => (Syncing { stage: Stage::Over, ..self }, Ask::Done(Err(e))),
            },
            (Stage::Note, Reply::Nothing) => self.list(),
            (Stage::List, reply) => self.listed(reply),
            (Stage::Item, Reply::Nothing) => {
                if self.at < self.plan.len() {
                    self.run(0)
                } else {
                    self.lost()
                }
            },
            (Stage::Command, Reply::Answer(a)) => {
                if self.at < self.plan.len() {
                    proof {
                        assert(self@.plan[self.at as int] == self.plan@[self.at as int]@);
                        assert(self@.plan[self.at as int].commands.len()
                            == self.plan@[self.at as int].commands@.len());
                    }
                    if self.command < self.plan[self.at].commands.len() {
                        let k: usize = self.command + 1;
                        return self.run(k);
                    }
                }
                self.lost()
            },
            (Stage::Edit, reply) => self.edited(reply),
            (Stage::Quiet, Reply::Nothing) => self.end(),
            _ => self.lost(),
        }
    }

    /// What follows an answer about the open reviews.
    fn listed(self, reply: Reply) -> (r: (Syncing, Ask))
        requires
            self@.wf(),
            self@.stage == Stage::List,
        ensures
            r.0@ == syncing_step(self@, reply@).0,
            r.1@ == syncing_step(self@, reply@).1,
            r.0@.wf(),
    {
        let mut s = self;
        let (l, ask) = s.listing.step(reply);
        s.listing = l;
        match ask {
            Some(a) => (s, a),
            None => {
                let plan = s.plan(&s.listing);
                Syncing { plan, ..s }.take_up(0)
            },
        }
    }

    /// What follows an answer about the base of the review at hand.
    fn edited(self, reply: Reply) -> (r: (Syncing, Ask))
        requires
            self@.wf(),
            self@.stage == Stage::Edit,
        ensures
            r.0@ == syncing_step(self@, reply@).0,
            r.1@ == syncing_step(self@, reply@).1,
            r.0@.wf(),
    {
        proof {
            assert(self@.plan.len() == self.plan@.len());
        }
        if self.at >= self.plan.len() {
            return self.lost();
        }
        let at: usize = self.at;
        proof {
            assert(self@.plan[at as int] == self.plan@[at as int]@);
        }
        let (edit, ask) = self.edit.step(reply);
        match ask {
            Some(a) => (Syncing { edit, ..self }, a),
            None => {
                let text = sync_update(
                    edit.edited,
                    self.plan[at].branch.as_str(),
                    self.plan[at].base.as_str(),
                );
                Syncing { edit, ..self }.noted(text)
            },
        }
    }
}

/// A review's base is set only once all of its commands were run.
pub proof fn law_pushed_before_base(s: SyncingView, reply: ReplyView)
    requires
        s.stage != Stage::Edit,
    ensures
        syncing_step(s, reply).0.stage == Stage::Edit ==> s.at < s.plan.len() && (s.stage
            == Stage::Command && s.command + 1 >= s.plan[s.at as int].commands.len() || s.stage
            == Stage::Item && s.plan[s.at as int].commands.len() == 0),
{
}

/// Each step says something of one review at most, and forgets nothing.
pub proof fn law_updates_grow(s: SyncingView, reply: ReplyView)
    ensures
        s.updates.is_prefix_of(syncing_step(s, reply).0.updates),
        syncing_step(s, reply).0.updates.len() <= s.updates.len() + 1,
{
}

} // verus!
