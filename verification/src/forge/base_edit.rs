//! Setting the base of a review.
use vstd::prelude::*;

use super::github;
use super::github::{EditBase, GitHub};
use super::gitlab;
use super::gitlab::GitLab;
use super::listing;
use super::listing::{Listing, ListingView};
use super::machine::{Ask, AskView, Reply, ReplyView};
use super::ForgeKind;
use crate::text::views;

verus! {

broadcast use views::group_views;

/// Which answer a change of a base waits for.
#[derive(Debug, Clone, Copy, PartialEq, Eq, Structural)]
pub enum Stage {
    /// The open reviews.
    List,
    /// The review's number.
    Number,
    /// The change.
    Edit,
    /// The change through the REST API.
    Api,
    /// Nothing more.
    Over,
}

/// A change of a base under way.
pub struct BaseEdit {
    pub kind: ForgeKind,
    pub branch: String,
    pub base: String,
    /// The review's number, where it is known.
    pub number: Option<String>,
    pub listing: Listing,
    /// Whether the base was set.
    pub edited: bool,
    pub stage: Stage,
}

/// A change of a base as it is seen in contracts.
#[verifier::ext_equal]
pub struct BaseEditView {
    pub kind: ForgeKind,
    pub branch: Seq<char>,
    pub base: Seq<char>,
    pub number: Option<Seq<char>>,
    pub listing: ListingView,
    pub edited: bool,
    pub stage: Stage,
}

impl View for BaseEdit {
    type V = BaseEditView;

    open spec fn view(&self) -> BaseEditView {
        BaseEditView {
            kind: self.kind,
            branch: self.branch@,
            base: self.base@,
            number: views::opt(self.number),
            listing: self.listing@,
            edited: self.edited,
            stage: self.stage,
        }
    }
}

/// A change of a base, and what it asks at first: GitHub is asked for the review's number,
/// GitLab for the open reviews. Gitea's reviews keep their base; elsewhere there is nothing
/// to set.
pub open spec fn begun(kind: ForgeKind, branch: Seq<char>, base: Seq<char>) -> (
    BaseEditView,
    Option<AskView>,
) {
    let s = BaseEditView {
        kind,
        branch,
        base,
        number: None,
        listing: listing::begun(kind, false).0,
        edited: kind != ForgeKind::Gitea,
        stage: Stage::Over,
    };
    match kind {
        ForgeKind::GitHub => (
            BaseEditView { edited: false, stage: Stage::Number, ..s },
            Some(AskView::Run(github::ask_number(branch))),
        ),
        ForgeKind::GitLab => (
            BaseEditView { edited: false, stage: Stage::List, ..s },
            listing::begun(kind, false).1,
        ),
        _ => (s, None),
    }
}

/// The end of a change of a base.
pub open spec fn ended(s: BaseEditView, edited: bool) -> (BaseEditView, Option<AskView>) {
    (BaseEditView { edited, stage: Stage::Over, ..s }, None)
}

/// What follows an answer.
pub open spec fn edit_step(s: BaseEditView, reply: ReplyView) -> (BaseEditView, Option<AskView>) {
    match (s.kind, s.stage, reply) {
        (ForgeKind::GitLab, Stage::List, _) => {
            let (l, ask) = listing::listing_step(s.listing, reply);
            match ask {
                Some(a) => (BaseEditView { listing: l, ..s }, ask),
                None => {
                    let iid = gitlab::known_iid(l.reviews, l.available, s.branch);
                    (
                        BaseEditView { listing: l, number: iid, stage: Stage::Edit, ..s },
                        Some(AskView::Run(gitlab::set_base(iid, s.branch, s.base))),
                    )
                },
            }
        },
        (ForgeKind::GitLab, Stage::Edit, ReplyView::Ran(ran)) => ended(s, ran.good()),
        (ForgeKind::GitHub, Stage::Number, ReplyView::Ran(ran)) => {
            let number = github::told_number(ran);
            (
                BaseEditView { number, stage: Stage::Edit, ..s },
                Some(AskView::Run(github::set_base(number, s.branch, s.base))),
            )
        },
        (ForgeKind::GitHub, Stage::Edit, ReplyView::Ran(ran)) => match s.number {
            Some(n) => if ran.good() {
                ended(s, true)
            } else {
                (
                    BaseEditView { stage: Stage::Api, ..s },
                    Some(AskView::Run(github::patch_base(n, s.base))),
                )
            },
            None => ended(s, ran.good()),
        },
        (ForgeKind::GitHub, Stage::Api, ReplyView::Ran(ran)) => ended(s, ran.good()),
        _ => ended(s, false),
    }
}

impl BaseEdit {
    /// Set the base of the review of a branch: the first step; none where there is
    /// nothing to do.
    pub fn edit_base(kind: ForgeKind, branch: &str, base: &str) -> (r: (BaseEdit, Option<Ask>))
        ensures
            r.0@ == begun(kind, branch@, base@).0,
            listing::ask_view(r.1) == begun(kind, branch@, base@).1,
    {
        let (l, ask) = Listing::list_open(kind, false);
        let s = BaseEdit {
            kind,
            branch: branch.to_owned(),
            base: base.to_owned(),
            number: None,
            listing: l,
            edited: !matches!(kind, ForgeKind::Gitea),
            stage: Stage::Over,
        };
        match kind {
            ForgeKind::GitHub => (
                BaseEdit { edited: false, stage: Stage::Number, ..s },
                Some(Ask::Run(GitHub.number_call(branch))),
            ),
            ForgeKind::GitLab => (BaseEdit { edited: false, stage: Stage::List, ..s }, ask),
            _ => (s, None),
        }
    }

    /// The end of a change of a base.
    fn end(self, edited: bool) -> (r: (BaseEdit, Option<Ask>))
        ensures
            r.0@ == ended(self@, edited).0,
            listing::ask_view(r.1) == ended(self@, edited).1,
    {
        (BaseEdit { edited, stage: Stage::Over, ..self }, None)
    }

    /// What follows an answer; nothing once the change is over.
    pub fn step(self, reply: Reply) -> (r: (BaseEdit, Option<Ask>))
        ensures
            r.0@ == edit_step(self@, reply@).0,
            listing::ask_view(r.1) == edit_step(self@, reply@).1,
    {
        match (self.kind, self.stage, reply) {
            (ForgeKind::GitLab, Stage::List, reply) => {
                let (l, ask) = self.listing.step(reply);
                match ask {
                    Some(a) => (BaseEdit { listing: l, ..self }, Some(a)),
                    None => {
                        let iid = GitLab.get_mr_iid(&l.reviews, l.available, self.branch.as_str());
                        let call = GitLab.edit_base(
                            &iid,
                            self.branch.as_str(),
                            self.base.as_str(),
                        );
                        (
                            BaseEdit { listing: l, number: iid, stage: Stage::Edit, ..self },
                            Some(Ask::Run(call)),
                        )
                    },
                }
            },
            (ForgeKind::GitLab, Stage::Edit, Reply::Ran(ran)) => self.end(ran.good()),
            (ForgeKind::GitHub, Stage::Number, Reply::Ran(ran)) => {
                let number = GitHub.get_pr_number(&ran);
                let call = GitHub.edit_base(&number, self.branch.as_str(), self.base.as_str());
                (BaseEdit { number, stage: Stage::Edit, ..self }, Some(Ask::Run(call)))
            },
            (ForgeKind::GitHub, Stage::Edit, Reply::Ran(ran)) => {
                match GitHub.base_edited(&self.number, &ran, self.base.as_str()) {
                    EditBase::Done(edited) => self.end(edited),
                    EditBase::Run(call) => (
                        BaseEdit { stage: Stage::Api, ..self },
                        Some(Ask::Run(call)),
                    ),
                }
            },
            (ForgeKind::GitHub, Stage::Api, Reply::Ran(ran)) => self.end(ran.good()),
            _ => self.end(false),
        }
    }
}

} // verus!
