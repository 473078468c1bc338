//! Asking a platform for the open reviews.
use vstd::prelude::*;

use super::gitea;
use super::gitea::{base_url, logins_call, repo_slug, Gitea};
use super::github;
use super::github::GitHub;
use super::gitlab;
use super::gitlab::GitLab;
use super::machine::{Ask, AskView, Reply, ReplyView};
use super::review::{Review, ReviewView};
use super::ForgeKind;
use crate::git::call::{Ran, RanView};
use crate::strmap::StrMap;
use crate::text::args::args;
use crate::text::views;

verus! {

broadcast use views::group_views;

/// Which answer a listing waits for.
#[derive(Debug, Clone, Copy, PartialEq, Eq, Structural)]
pub enum Stage {
    /// The list.
    List,
    /// The remote's address.
    Remote,
    /// The logins.
    Logins,
    /// Nothing more.
    Over,
}

/// A listing under way.
pub struct Listing {
    pub kind: ForgeKind,
    /// Whether the reviews' addresses are wanted, where the list does not tell them.
    pub addresses: bool,
    /// The remote's address.
    pub remote: Result<String, String>,
    pub slug: String,
    /// The end of the program that lists the reviews.
    pub ran: Ran,
    /// The open reviews' numbers.
    pub numbers: StrMap<u32>,
    /// The open reviews.
    pub reviews: StrMap<Review>,
    /// Whether the platform could be asked.
    pub available: bool,
    pub stage: Stage,
}

/// A listing as it is seen in contracts.
#[verifier::ext_equal]
pub struct ListingView {
    pub kind: ForgeKind,
    pub addresses: bool,
    pub remote: Result<Seq<char>, Seq<char>>,
    pub slug: Seq<char>,
    pub ran: RanView,
    pub numbers: Seq<(Seq<char>, u32)>,
    pub reviews: Seq<(Seq<char>, ReviewView)>,
    pub available: bool,
    pub stage: Stage,
}

impl View for Listing {
    type V = ListingView;

    open spec fn view(&self) -> ListingView {
        ListingView {
            kind: self.kind,
            addresses: self.addresses,
            remote: views::res(self.remote),
            slug: self.slug@,
            ran: self.ran@,
            numbers: self.numbers@,
            reviews: self.reviews@,
            available: self.available,
            stage: self.stage,
        }
    }
}

/// A listing before its first answer.
pub open spec fn fresh(kind: ForgeKind, addresses: bool, stage: Stage) -> ListingView {
    ListingView {
        kind,
        addresses,
        remote: Err(seq![]),
        slug: seq![],
        ran: RanView::Lost(seq![]),
        numbers: seq![],
        reviews: seq![],
        available: false,
        stage,
    }
}

/// Asks for the remote's address.
pub open spec fn ask_remote() -> AskView {
    AskView::Git(seq!["remote"@, "get-url"@, "origin"@])
}

/// Asks for the remote's address.
pub fn remote_ask() -> (r: Ask)
    ensures
        r@ == ask_remote(),
{
    Ask::Git(args(&["remote", "get-url", "origin"]))
}

/// A listing, and what it asks at first. Phabricator and custom commands know no list.
pub open spec fn begun(kind: ForgeKind, addresses: bool) -> (ListingView, Option<AskView>) {
    match kind {
        ForgeKind::GitHub => (
            fresh(kind, addresses, Stage::List),
            Some(AskView::Run(github::list_all())),
        ),
        ForgeKind::GitLab => (
            fresh(kind, addresses, Stage::List),
            Some(AskView::Run(gitlab::list_all())),
        ),
        ForgeKind::Gitea => (fresh(kind, addresses, Stage::Remote), Some(ask_remote())),
        _ => (fresh(kind, addresses, Stage::Over), None),
    }
}

/// The end of a listing.
pub open spec fn told(s: ListingView, found: (Seq<(Seq<char>, ReviewView)>, bool)) -> (
    ListingView,
    Option<AskView>,
) {
    (ListingView { reviews: found.0, available: found.1, stage: Stage::Over, ..s }, None)
}

/// What follows an answer.
pub open spec fn listing_step(s: ListingView, reply: ReplyView) -> (
    ListingView,
    Option<AskView>,
) {
    let nothing = told(s, (seq![], false));
    match (s.kind, s.stage, reply) {
        (ForgeKind::GitHub, Stage::List, ReplyView::Ran(ran)) => told(
            s,
            github::open_reviews(ran),
        ),
        (ForgeKind::GitLab, Stage::List, ReplyView::Ran(ran)) => if ran.good() {
            (ListingView { ran, stage: Stage::Remote, ..s }, Some(ask_remote()))
        } else {
            nothing
        },
        (ForgeKind::GitLab, Stage::Remote, ReplyView::Answer(a)) => told(
            s,
            gitlab::open_reviews(s.ran, gitlab::told_project(a)),
        ),
        (ForgeKind::Gitea, Stage::Remote, ReplyView::Answer(a)) => match gitea::told_slug(a) {
            Some(slug) => (
                ListingView { remote: a, slug, stage: Stage::List, ..s },
                Some(AskView::Run(gitea::list_all(slug))),
            ),
            None => nothing,
        },
        (ForgeKind::Gitea, Stage::List, ReplyView::Ran(ran)) => {
            let found = gitea::open_reviews(ran);
            if found.1 && s.addresses {
                (
                    ListingView { numbers: found.0, stage: Stage::Logins, ..s },
                    Some(AskView::Run(gitea::list_logins())),
                )
            } else {
                told(s, (gitea::addressed(found.0, None, None), found.1))
            }
        },
        (ForgeKind::Gitea, Stage::Logins, ReplyView::Ran(ran)) => told(
            s,
            (
                gitea::addressed(s.numbers, gitea::server_url(ran, s.remote), Some(s.slug)),
                true,
            ),
        ),
        _ => nothing,
    }
}

impl Listing {
    /// A listing before its first answer.
    fn new(kind: ForgeKind, addresses: bool, stage: Stage) -> (r: Listing)
        ensures
            r@ == fresh(kind, addresses, stage),
    {
        Listing {
            kind,
            addresses,
            remote: Err(String::new()),
            slug: String::new(),
            ran: Ran::Lost(String::new()),
            numbers: StrMap::new(),
            reviews: StrMap::new(),
            available: false,
            stage,
        }
    }

    /// List open PRs for the user's pgit branches: the first step; none where the
    /// platform knows no list.
    pub fn list_open(kind: ForgeKind, addresses: bool) -> (r: (Listing, Option<Ask>))
        ensures
            r.0@ == begun(kind, addresses).0,
            ask_view(r.1) == begun(kind, addresses).1,
    {
        match kind {
            ForgeKind::GitHub => (
                Self::new(kind, addresses, Stage::List),
                Some(Ask::Run(GitHub.list_call())),
            ),
            ForgeKind::GitLab => (
                Self::new(kind, addresses, Stage::List),
                Some(Ask::Run(GitLab.list_call())),
            ),
            ForgeKind::Gitea => (
                Self::new(kind, addresses, Stage::Remote),
                Some(remote_ask()),
            ),
            _ => (Self::new(kind, addresses, Stage::Over), None),
        }
    }

    /// The end of a listing.
    fn end(self, reviews: StrMap<Review>, available: bool) -> (r: (Listing, Option<Ask>))
        ensures
            r.0@ == told(self@, (reviews@, available)).0,
            ask_view(r.1) == told(self@, (reviews@, available)).1,
    {
        (Listing { reviews, available, stage: Stage::Over, ..self }, None)
    }

    /// What follows an answer; nothing once the listing is over.
    pub fn step(self, reply: Reply) -> (r: (Listing, Option<Ask>))
        ensures
            r.0@ == listing_step(self@, reply@).0,
            ask_view(r.1) == listing_step(self@, reply@).1,
    {
        match (self.kind, self.stage, reply) {
            (ForgeKind::GitHub, Stage::List, Reply::Ran(ran)) => {
                let (reviews, available) = GitHub.list_open_full(&ran);
                self.end(reviews, available)
            },
            (ForgeKind::GitLab, Stage::List, Reply::Ran(ran)) => {
                if ran.good() {
                    (Listing { ran, stage: Stage::Remote, ..self }, Some(remote_ask()))
                } else {
                    self.end(StrMap::new(), false)
                }
            },
            (ForgeKind::GitLab, Stage::Remote, Reply::Answer(a)) => {
                let project = GitLab.get_project_url(&a);
                let (reviews, available) = GitLab.list_open_full(&self.ran, &project);
                self.end(reviews, available)
            },
            (ForgeKind::Gitea, Stage::Remote, Reply::Answer(a)) => match repo_slug(&a) {
                Some(slug) => {
                    let call = Gitea.list_call(slug.as_str());
                    (
                        Listing { remote: a, slug, stage: Stage::List, ..self },
                        Some(Ask::Run(call)),
                    )
                },
                None => self.end(StrMap::new(), false),
            },
            (ForgeKind::Gitea, Stage::List, Reply::Ran(ran)) => {
                let (numbers, available) = Gitea.list_open(&ran);
                if available && self.addresses {
                    (
                        Listing { numbers, stage: Stage::Logins, ..self },
                        Some(Ask::Run(logins_call())),
                    )
                } else {
                    let reviews = Gitea.with_addresses(&numbers, &None, &None);
                    self.end(reviews, available)
                }
            },
            (ForgeKind::Gitea, Stage::Logins, Reply::Ran(ran)) => {
                let server = base_url(&ran, &self.remote);
                let slug = Some(self.slug.clone());
                let reviews = Gitea.with_addresses(&self.numbers, &server, &slug);
                self.end(reviews, true)
            },
            _ => self.end(StrMap::new(), false),
        }
    }
}

/// What is asked, if anything is, as it is seen in contracts.
pub open spec fn ask_view(a: Option<Ask>) -> Option<AskView> {
    match a {
        Some(x) => Some(x@),
        None => None,
    }
}

/// Only a list that was told tells of open reviews: where the platform could not be asked
/// there is none.
pub proof fn law_unavailable_is_empty(s: ListingView, reply: ReplyView)
    requires
        listing_step(s, reply).1 is None,
    ensures
        !listing_step(s, reply).0.available ==> listing_step(s, reply).0.reviews.len() == 0,
{
}

} // verus!
