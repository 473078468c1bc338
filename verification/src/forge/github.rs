//! GitHub, through the `gh` command.
use vstd::prelude::*;

use super::json;
use super::json::{column, number_at, text_at, to_low_bits, Cell, CellView};
use super::review;
use super::review::{plan_sync, Review, ReviewView, SyncItem};
use crate::git::call;
use crate::git::call::{capture, Call, CallView, Ran, RanView};
use crate::git::ops;
use crate::stack;
use crate::stack::PatchEntry;
use crate::strmap;
use crate::strmap::StrMap;
use crate::text::args::args;
use crate::text::chars;
use crate::text::chars::{concat2, concat4, trimmed};
use crate::text::search;
use crate::text::search::{dropped_prefix, occurs, starts};
use crate::text::views;

verus! {

broadcast use views::group_views;

/// GitHub.
pub struct GitHub;

/// What the answer to a request for a new review means.
pub enum Submitted {
    /// This is the answer.
    Done(Result<String, String>),
    /// The review is there already: its base is to be set, and then this is said.
    SetBase(String),
}

/// What the answer to a request for a new review means, as it is seen in contracts.
#[verifier::ext_equal]
pub enum SubmittedView {
    Done(Result<Seq<char>, Seq<char>>),
    SetBase(Seq<char>),
}

impl View for Submitted {
    type V = SubmittedView;

    open spec fn view(&self) -> SubmittedView {
        match *self {
            Submitted::Done(r) => SubmittedView::Done(views::res(r)),
            Submitted::SetBase(s) => SubmittedView::SetBase(s@),
        }
    }
}

/// What is made of the end of `gh pr create`.
pub open spec fn created(ran: RanView, branch: Seq<char>, base: Seq<char>) -> SubmittedView {
    match ran {
        RanView::Lost(e) => SubmittedView::Done(Err(e)),
        RanView::Ended { success, stdout, stderr } => if success {
            SubmittedView::Done(Ok("PR created: "@ + chars::trim(stdout) + " → "@ + base))
        } else if search::contains(stderr, "already exists"@) {
            SubmittedView::SetBase("PR updated: "@ + branch + " → "@ + base)
        } else {
            SubmittedView::Done(Err("gh pr create failed: "@ + stderr))
        },
    }
}

/// What is said once an existing review was pushed and its base set.
pub open spec fn updated(branch: Seq<char>, base: Seq<char>) -> Seq<char> {
    "PR updated: "@ + branch + " → "@ + base
}

/// The program that makes a new review.
pub open spec fn creation(
    branch: Seq<char>,
    base: Seq<char>,
    subject: Seq<char>,
    body: Seq<char>,
) -> CallView {
    call::captured(
        "gh"@,
        seq![
            "pr"@,
            "create"@,
            "--head"@,
            branch,
            "--base"@,
            base,
            "--title"@,
            subject,
            "--body"@,
            body,
        ],
    )
}

/// The program that lists the open reviews.
pub open spec fn list_all() -> CallView {
    call::captured(
        "gh"@,
        seq![
            "pr"@,
            "list"@,
            "--state"@,
            "open"@,
            "--json"@,
            "number,headRefName,url"@,
            "--limit"@,
            "100"@,
        ],
    )
}

/// The open reviews, and whether the program could tell them.
pub open spec fn open_reviews(ran: RanView) -> (Seq<(Seq<char>, ReviewView)>, bool) {
    match ran.output() {
        Some(text) => (listed(text), true),
        None => (seq![], false),
    }
}

/// The program that tells a review's number.
pub open spec fn ask_number(branch: Seq<char>) -> CallView {
    call::captured(
        "gh"@,
        seq!["pr"@, "view"@, branch, "--json"@, "number"@, "-q"@, ".number"@],
    )
}

/// The program that sets a review's base.
pub open spec fn set_base(
    number: Option<Seq<char>>,
    branch: Seq<char>,
    base: Seq<char>,
) -> CallView {
    call::captured(
        "gh"@,
        seq![
            "pr"@,
            "edit"@,
            match number {
                Some(n) => n,
                None => branch,
            },
            "--base"@,
            base,
        ],
    )
}

/// The program that sets a review's base through the REST API.
pub open spec fn patch_base(number: Seq<char>, base: Seq<char>) -> CallView {
    call::captured(
        "gh"@,
        seq![
            "api"@,
            "-X"@,
            "PATCH"@,
            "repos/{owner}/{repo}/pulls/"@ + number,
            "-f"@,
            "base="@ + base,
        ],
    )
}

/// The number of a review, as a text, from the end of `gh pr view`.
pub open spec fn told_number(ran: RanView) -> Option<Seq<char>> {
    match ran.output() {
        Some(out) => if chars::trim(out).len() > 0 {
            Some(chars::trim(out))
        } else {
            None
        },
        None => None,
    }
}

/// How far the change of a base has come.
pub enum EditBase {
    /// Run this.
    Run(Call),
    /// Whether the base was set.
    Done(bool),
}

/// The table of open reviews after the first `n` rows: those with a number whose
/// branch begins with `pgit/`.
pub open spec fn open_rows(
    numbers: Seq<CellView>,
    heads: Seq<CellView>,
    urls: Seq<CellView>,
    n: int,
) -> Seq<(Seq<char>, ReviewView)>
    decreases n,
{
    if n <= 0 {
        seq![]
    } else {
        let before = open_rows(numbers, heads, urls, n - 1);
        match (json::cell_at(numbers, n - 1).number(), json::cell_at(heads, n - 1).text()) {
            (Some(num), Some(head)) => if "pgit/"@.is_prefix_of(head) {
                strmap::put(
                    before,
                    head,
                    ReviewView {
                        number: json::low_bits(num),
                        url: Some(
                            match json::cell_at(urls, n - 1).text() {
                                Some(u) => u,
                                None => seq![],
                            },
                        ),
                    },
                )
            } else {
                before
            },
            _ => before,
        }
    }
}

/// The open reviews that `gh pr list` tells of.
pub open spec fn listed(text: Seq<char>) -> Seq<(Seq<char>, ReviewView)> {
    let numbers = json::column_of(text, seq!["number"@]);
    open_rows(
        numbers,
        json::column_of(text, seq!["headRefName"@]),
        json::column_of(text, seq!["url"@]),
        numbers.len() as int,
    )
}

/// The open reviews in the rows of a list.
pub fn read_rows(numbers: &Vec<Cell>, heads: &Vec<Cell>, urls: &Vec<Cell>) -> (r: StrMap<Review>)
    ensures
        r@ == open_rows(
            json::cells(numbers@),
            json::cells(heads@),
            json::cells(urls@),
            numbers@.len() as int,
        ),
{
    let ghost ns = json::cells(numbers@);
    let ghost hs = json::cells(heads@);
    let ghost us = json::cells(urls@);
    let mut table: StrMap<Review> = StrMap::new();
    let mut i: usize = 0;
    while i < numbers.len()
        invariant
            i <= numbers@.len(),
            ns == json::cells(numbers@),
            hs == json::cells(heads@),
            us == json::cells(urls@),
            table@ == open_rows(ns, hs, us, i as int),
        decreases numbers.len() - i,
    {
        let num = number_at(numbers, i);
        let head = text_at(heads, i);
        if let Some(n) = num {
            if let Some(h) = head {
                if starts(h.as_str(), "pgit/") {
                    let url = match text_at(urls, i) {
                        Some(u) => u,
                        None => String::new(),
                    };
                    table.insert(h, Review { number: to_low_bits(n), url: Some(url) });
                }
            }
        }
        i += 1;
    }
    table
}

impl GitHub {
    /// The program that makes a new review.
    pub fn submit(&self, branch: &str, base: &str, subject: &str, body: &str) -> (r: Call)
        ensures
            r@ == creation(branch@, base@, subject@, body@),
    {
        capture(
            "gh",
            args(
                &[
                    "pr",
                    "create",
                    "--head",
                    branch,
                    "--base",
                    base,
                    "--title",
                    subject,
                    "--body",
                    body,
                ],
            ),
        )
    }

    /// What is made of the end of the program that makes a new review.
    pub fn submitted(&self, ran: Ran, branch: &str, base: &str) -> (r: Submitted)
        ensures
            r@ == created(ran@, branch@, base@),
    {
        match ran {
            Ran::Lost(e) => Submitted::Done(Err(e)),
            Ran::Ended { success, stdout, stderr } => {
                if success {
                    let url = trimmed(stdout.as_str());
                    Submitted::Done(Ok(concat4("PR created: ", url.as_str(), " → ", base)))
                } else if occurs(stderr.as_str(), "already exists") {
                    Submitted::SetBase(concat4("PR updated: ", branch, " → ", base))
                } else {
                    Submitted::Done(Err(concat2("gh pr create failed: ", stderr.as_str())))
                }
            },
        }
    }

    /// What is said once an existing review was pushed and its base set.
    pub fn update(&self, branch: &str, base: &str) -> (r: String)
        ensures
            r@ == updated(branch@, base@),
    {
        concat4("PR updated: ", branch, " → ", base)
    }

    /// The program that lists the open reviews.
    pub fn list_call(&self) -> (r: Call)
        ensures
            r@ == list_all(),
    {
        capture(
            "gh",
            args(
                &[
                    "pr",
                    "list",
                    "--state",
                    "open",
                    "--json",
                    "number,headRefName,url",
                    "--limit",
                    "100",
                ],
            ),
        )
    }

    /// Fetch open PRs with full data (number + URL), and whether the CLI is available.
    pub fn list_open_full(&self, ran: &Ran) -> (r: (StrMap<Review>, bool))
        ensures
            (r.0@, r.1) == open_reviews(ran@),
    {
        match ran.output() {
            Some(text) => {
                let numbers = column(text.as_str(), &["number"]);
                let heads = column(text.as_str(), &["headRefName"]);
                let urls = column(text.as_str(), &["url"]);
                proof {
                    assert(crate::text::args::texts(["number"]@) =~= seq!["number"@]);
                    assert(crate::text::args::texts(["headRefName"]@) =~= seq!["headRefName"@]);
                    assert(crate::text::args::texts(["url"]@) =~= seq!["url"@]);
                }
                (read_rows(&numbers, &heads, &urls), true)
            },
            None => (StrMap::new(), false),
        }
    }

    /// The program that tells a review's number.
    pub fn number_call(&self, branch: &str) -> (r: Call)
        ensures
            r@ == ask_number(branch@),
    {
        capture("gh", args(&["pr", "view", branch, "--json", "number", "-q", ".number"]))
    }

    /// The number of a review, as a text.
    pub fn get_pr_number(&self, ran: &Ran) -> (r: Option<String>)
        ensures
            views::opt(r) == told_number(ran@),
    {
        match ran.output() {
            Some(out) => {
                let n = trimmed(out.as_str());
                if n.as_str().is_empty() {
                    None
                } else {
                    Some(n)
                }
            },
            None => None,
        }
    }

    /// The program that sets a review's base, by its number if that is known.
    pub fn edit_base(&self, number: &Option<String>, branch: &str, base: &str) -> (r: Call)
        ensures
            r@ == set_base(views::opt(*number), branch@, base@),
    {
        match number {
            Some(n) => capture("gh", args(&["pr", "edit", n.as_str(), "--base", base])),
            None => capture("gh", args(&["pr", "edit", branch, "--base", base])),
        }
    }

    /// What follows the program that sets a review's base: where it failed and the number
    /// is known, the REST API.
    pub fn base_edited(&self, number: &Option<String>, ran: &Ran, base: &str) -> (r: EditBase)
        ensures
            match r {
                EditBase::Done(b) => (ran@.good() || number is None) && b == ran@.good(),
                EditBase::Run(c) => !ran@.good() && match views::opt(*number) {
                    Some(n) => c@ == patch_base(n, base@),
                    None => false,
                },
            },
    {
        if ran.good() {
            return EditBase::Done(true);
        }
        match number {
            Some(n) => {
                let path = concat2("repos/{owner}/{repo}/pulls/", n.as_str());
                let field = concat2("base=", base);
                EditBase::Run(
                    capture(
                        "gh",
                        args(&["api", "-X", "PATCH", path.as_str(), "-f", field.as_str()]),
                    ),
                )
            },
            None => EditBase::Done(false),
        }
    }

    /// Sync all submitted reviews: force-push + update bases. The answer says what to do
    /// for each open review, or why there is no base.
    pub fn sync(
        &self,
        base: Result<String, String>,
        patches: &Vec<PatchEntry>,
        branches: &Vec<String>,
        open_prs: &StrMap<u32>,
    ) -> (r: Result<Vec<SyncItem>, String>)
        requires
            branches@.len() == patches@.len(),
        ensures
            match (views::res(base), r) {
                (Ok(b), Ok(plan)) => review::items(plan@) == review::sync_items(
                    stack::patches(patches@),
                    views::strs(branches@),
                    open_prs@,
                    ops::plain_base(b),
                    patches@.len() as int,
                ),
                (Err(e), Err(f)) => f@ == e,
                _ => false,
            },
    {
        match base {
            Ok(b) => {
                let base_branch = dropped_prefix(b.as_str(), "origin/");
                Ok(plan_sync(patches, branches, open_prs, base_branch.as_str()))
            },
            Err(e) => Err(e),
        }
    }
}

} // verus!
