//! GitLab, through the `glab` command.
use vstd::prelude::*;

use super::github::{Submitted, SubmittedView};
use super::review;
use super::review::{plan_sync, Review, ReviewView, SyncItem};
use crate::git::call;
use crate::git::call::{capture, Call, CallView, Console, Ran, RanView};
use crate::git::ops;
use crate::stack;
use crate::stack::PatchEntry;
use crate::strmap;
use crate::strmap::StrMap;
use crate::text::ansi;
use crate::text::ansi::strip_ansi;
use crate::text::args::args;
use crate::text::chars;
use crate::text::chars::{
    concat2, concat3, concat4, piece, to_chars, trimmed, trimmed_set, CharSet,
};
use crate::text::number;
use crate::text::number::{decimal, to_u32};
use crate::text::pieces;
use crate::text::pieces::{lines_of, words_of};
use crate::text::search;
use crate::text::search::{
    after_prefix, dropped_prefix, dropped_suffix, find_in, occurs, starts,
};
use crate::text::views;

verus! {

broadcast use views::group_views;

/// GitLab.
pub struct GitLab;

/// What is made of the end of `glab mr create`.
pub open spec fn created(ran: RanView, branch: Seq<char>, base: Seq<char>) -> SubmittedView {
    match ran {
        RanView::Lost(e) => SubmittedView::Done(Err(e)),
        RanView::Ended { success, stdout, stderr } => if success {
            SubmittedView::Done(Ok("MR created: "@ + chars::trim(stdout)))
        } else if search::contains(stderr, "already exists"@) {
            SubmittedView::SetBase("MR updated: "@ + branch + " → "@ + base)
        } else {
            SubmittedView::Done(Err("glab mr create failed: "@ + stderr))
        },
    }
}

/// A word without brackets around it.
pub open spec fn bare(word: Seq<char>) -> Seq<char> {
    chars::trim_set(word, CharSet::Brackets)
}

/// The first of the words that names a branch of ours.
pub open spec fn first_branch(words: Seq<Seq<char>>) -> Option<Seq<char>>
    decreases words.len(),
{
    if words.len() == 0 {
        None
    } else if "pgit/"@.is_prefix_of(bare(words[0])) {
        Some(bare(words[0]))
    } else {
        first_branch(words.drop_first())
    }
}

/// The last of the words that names a branch of ours.
pub open spec fn last_branch(words: Seq<Seq<char>>) -> Option<Seq<char>>
    decreases words.len(),
{
    if words.len() == 0 {
        None
    } else if "pgit/"@.is_prefix_of(bare(words.last())) {
        Some(bare(words.last()))
    } else {
        last_branch(words.drop_last())
    }
}

/// The source branch in a line of `glab mr list`. The format is
/// `!N  project!N  title  (target) ← (source)`: the source stands after the arrow;
/// where there is no arrow, it is the last branch of ours in the line.
pub open spec fn source_of(line: Seq<char>) -> Option<Seq<char>> {
    match search::find(line, "←"@) {
        Some(at) => first_branch(pieces::words(line.skip(at))),
        None => last_branch(pieces::words(line)),
    }
}

/// The number of the review in a line of `glab mr list`.
pub open spec fn iid_of(line: Seq<char>) -> Option<u32> {
    match search::strip_prefix(line, "!"@) {
        Some(rest) => {
            let words = pieces::words(rest);
            if words.len() == 0 {
                None
            } else {
                number::parse_u32(words[0])
            }
        },
        None => None,
    }
}

/// The address of a review.
pub open spec fn review_url(project: Option<Seq<char>>, iid: u32) -> Seq<char> {
    match project {
        Some(u) => u + "/-/merge_requests/"@ + number::dec(iid as nat),
        None => seq![],
    }
}

/// The table of open reviews that the lines of `glab mr list` tell of.
pub open spec fn listed(lines: Seq<Seq<char>>, project: Option<Seq<char>>) -> Seq<
    (Seq<char>, ReviewView),
>
    decreases lines.len(),
{
    if lines.len() == 0 {
        seq![]
    } else {
        let before = listed(lines.drop_last(), project);
        let line = chars::trim(ansi::plain(lines.last(), false));
        match (iid_of(line), source_of(line)) {
            (Some(iid), Some(branch)) => strmap::put(
                before,
                branch,
                ReviewView { number: iid, url: Some(review_url(project, iid)) },
            ),
            _ => before,
        }
    }
}

/// The project's address on the web, from the remote's: `git@host:path.git` stands for
/// `https://host/path`.
pub open spec fn project_url(remote: Seq<char>) -> Option<Seq<char>> {
    let r = chars::trim(remote);
    match search::strip_prefix(r, "git@"@) {
        Some(rest) => match search::find(rest, ":"@) {
            Some(at) => Some(
                "https://"@ + rest.take(at) + "/"@ + search::without_suffix(
                    rest.skip(at + 1),
                    ".git"@,
                ),
            ),
            None => None,
        },
        None => Some(search::without_suffix(r, ".git"@)),
    }
}

/// The first of the words that names a branch of ours.
fn find_first(words: &Vec<String>) -> (r: Option<String>)
    ensures
        views::opt(r) == first_branch(views::strs(words@)),
{
    let ghost all = views::strs(words@);
    let mut i: usize = 0;
    proof {
        assert(all.skip(0) =~= all);
    }
    while i < words.len()
        invariant
            i <= words@.len(),
            all == views::strs(words@),
            first_branch(all) == first_branch(all.skip(i as int)),
        decreases words.len() - i,
    {
        proof {
            assert(all.skip(i as int)[0] == words@[i as int]@);
            assert(all.skip(i as int).drop_first() =~= all.skip(i + 1));
        }
        let w = trimmed_set(words[i].as_str(), CharSet::Brackets);
        if starts(w.as_str(), "pgit/") {
            return Some(w);
        }
        i += 1;
    }
    None
}

/// The last of the words that names a branch of ours.
fn find_last(words: &Vec<String>) -> (r: Option<String>)
    ensures
        views::opt(r) == last_branch(views::strs(words@)),
{
    let ghost all = views::strs(words@);
    let mut i: usize = words.len();
    proof {
        assert(all.take(all.len() as int) =~= all);
    }
    while i > 0
        invariant
            i <= words@.len(),
            all == views::strs(words@),
            last_branch(all) == last_branch(all.take(i as int)),
        decreases i,
    {
        i -= 1;
        proof {
            assert(all.take(i + 1).last() == words@[i as int]@);
            assert(all.take(i + 1).drop_last() =~= all.take(i as int));
        }
        let w = trimmed_set(words[i].as_str(), CharSet::Brackets);
        if starts(w.as_str(), "pgit/") {
            return Some(w);
        }
    }
    None
}

/// The source branch in a line of `glab mr list`.
fn find_source(line: &str) -> (r: Option<String>)
    ensures
        views::opt(r) == source_of(line@),
{
    match find_in(line, "←") {
        Some(at) => {
            let v = to_chars(line);
            proof {
                search::lemma_find(line@, "←"@);
                assert(v@.subrange(at as int, v@.len() as int) =~= line@.skip(at as int));
            }
            let tail = piece(&v, at, v.len());
            find_first(&words_of(tail.as_str()))
        },
        None => find_last(&words_of(line)),
    }
}

/// The number of the review in a line of `glab mr list`.
fn find_iid(line: &str) -> (r: Option<u32>)
    ensures
        r == iid_of(line@),
{
    match after_prefix(line, "!") {
        Some(rest) => {
            let words = words_of(rest.as_str());
            proof {
                assert(views::strs(words@).len() == words@.len());
            }
            if words.len() == 0 {
                None
            } else {
                proof {
                    assert(views::strs(words@)[0] == words@[0]@);
                }
                to_u32(words[0].as_str())
            }
        },
        None => None,
    }
}

/// What is said once an existing review was pushed and its base set.
pub open spec fn updated(branch: Seq<char>, base: Seq<char>) -> Seq<char> {
    "MR updated: "@ + branch + " → "@ + base
}

/// The program that makes a new review.
pub open spec fn creation(
    branch: Seq<char>,
    base: Seq<char>,
    subject: Seq<char>,
    body: Seq<char>,
) -> CallView {
    call::captured(
        "glab"@,
        seq![
            "mr"@,
            "create"@,
            "--source-branch"@,
            branch,
            "--target-branch"@,
            base,
            "--title"@,
            subject,
            "--description"@,
            body,
            "--yes"@,
        ],
    )
}

/// The program that lists the open reviews.
pub open spec fn list_all() -> CallView {
    CallView {
        program: "glab"@,
        args: seq!["mr"@, "list"@, "-P"@, "100"@],
        env: seq![
            ("PAGER"@, "cat"@),
            ("GLAB_PAGER"@, Seq::<char>::empty()),
            ("NO_COLOR"@, "1"@),
        ],
        console: Console::Captured,
    }
}

/// The open reviews, and whether the program could tell them.
pub open spec fn open_reviews(ran: RanView, project: Option<Seq<char>>) -> (
    Seq<(Seq<char>, ReviewView)>,
    bool,
) {
    match ran.output() {
        Some(text) => (listed(pieces::lines(text), project), true),
        None => (seq![], false),
    }
}

/// The project's web URL, where the remote's address is known.
pub open spec fn told_project(answer: Result<Seq<char>, Seq<char>>) -> Option<Seq<char>> {
    match answer {
        Ok(a) => project_url(a),
        Err(e) => None,
    }
}

/// The number of the review of a branch, as a text, where it is known.
pub open spec fn known_iid(
    reviews: Seq<(Seq<char>, ReviewView)>,
    available: bool,
    branch: Seq<char>,
) -> Option<Seq<char>> {
    match strmap::lookup(reviews, branch) {
        Some(review) => if available {
            Some(number::dec(review.number as nat))
        } else {
            None
        },
        None => None,
    }
}

/// The program that sets a review's base.
pub open spec fn set_base(iid: Option<Seq<char>>, branch: Seq<char>, base: Seq<char>) -> CallView {
    call::captured(
        "glab"@,
        seq![
            "mr"@,
            "update"@,
            match iid {
                Some(n) => n,
                None => branch,
            },
            "--target-branch"@,
            base,
        ],
    )
}

impl GitLab {
    /// The program that makes a new review.
    pub fn submit(&self, branch: &str, base: &str, subject: &str, body: &str) -> (r: Call)
        ensures
            r@ == creation(branch@, base@, subject@, body@),
    {
        capture(
            "glab",
            args(
                &[
                    "mr",
                    "create",
                    "--source-branch",
                    branch,
                    "--target-branch",
                    base,
                    "--title",
                    subject,
                    "--description",
                    body,
                    "--yes",
                ],
            ),
        )
    }

    /// What is made of the end of the program that makes a new review.
    pub fn submitted(&self, ran: Ran, branch: &str, base: &str) -> (r: Submitted)
        ensures
            r@ == created(ran@, branch@, base@),
    {
        match ran {
            Ran::Lost(e) => Submitted::Done(Err(e)),
            Ran::Ended { success, stdout, stderr } => {
                if success {
                    let url = trimmed(stdout.as_str());
                    Submitted::Done(Ok(concat2("MR created: ", url.as_str())))
                } else if occurs(stderr.as_str(), "already exists") {
                    Submitted::SetBase(concat4("MR updated: ", branch, " → ", base))
                } else {
                    Submitted::Done(Err(concat2("glab mr create failed: ", stderr.as_str())))
                }
            },
        }
    }

    /// What is said once an existing review was pushed and its base set.
    pub fn update(&self, branch: &str, base: &str) -> (r: String)
        ensures
            r@ == updated(branch@, base@),
    {
        concat4("MR updated: ", branch, " → ", base)
    }

    /// The program that lists the open reviews, in plain text of full width.
    pub fn list_call(&self) -> (r: Call)
        ensures
            r@ == list_all(),
    {
        let mut env: Vec<(String, String)> = Vec::new();
        env.push(("PAGER".to_owned(), "cat".to_owned()));
        env.push(("GLAB_PAGER".to_owned(), String::new()));
        env.push(("NO_COLOR".to_owned(), "1".to_owned()));
        Call {
            program: "glab".to_owned(),
            args: args(&["mr", "list", "-P", "100"]),
            env,
            console: Console::Captured,
        }
    }

    /// Fetch open MRs with full data (IID + URL), from the text that lists them, and
    /// whether the CLI is available.
    pub fn list_open_full(&self, ran: &Ran, project: &Option<String>) -> (r: (
        StrMap<Review>,
        bool,
    ))
        ensures
            (r.0@, r.1) == open_reviews(ran@, views::opt(*project)),
    {
        match ran.output() {
            Some(text) => (read_list(text.as_str(), project), true),
            None => (StrMap::new(), false),
        }
    }

    /// The command that tells the remote's address.
    pub fn remote_args() -> (r: Vec<String>)
        ensures
            views::strs(r@) == seq!["remote"@, "get-url"@, "origin"@],
    {
        args(&["remote", "get-url", "origin"])
    }

    /// Get the project web URL from the git remote.
    pub fn get_project_url(&self, answer: &Result<String, String>) -> (r: Option<String>)
        ensures
            views::opt(r) == told_project(views::res(*answer)),
    {
        match answer {
            Ok(a) => {
                let remote = trimmed(a.as_str());
                match after_prefix(remote.as_str(), "git@") {
                    Some(rest) => match find_in(rest.as_str(), ":") {
                        Some(at) => {
                            let v = to_chars(rest.as_str());
                            proof {
                                reveal_strlit(":");
                                search::lemma_find(rest@, ":"@);
                                assert(v@.subrange(0, at as int) =~= rest@.take(at as int));
                                assert(v@.subrange(at + 1, v@.len() as int) =~= rest@.skip(at + 1));
                            }
                            let host = piece(&v, 0, at);
                            let path = piece(&v, at + 1, v.len());
                            let path = dropped_suffix(path.as_str(), ".git");
                            Some(concat4("https://", host.as_str(), "/", path.as_str()))
                        },
                        None => None,
                    },
                    None => Some(dropped_suffix(remote.as_str(), ".git")),
                }
            },
            Err(e) => None,
        }
    }

    /// Look up the MR IID for a source branch.
    pub fn get_mr_iid(&self, reviews: &StrMap<Review>, available: bool, branch: &str) -> (r: Option<
        String,
    >)
        ensures
            views::opt(r) == known_iid(reviews@, available, branch@),
    {
        if !available {
            return None;
        }
        match reviews.get(branch) {
            Some(review) => Some(decimal(review.number as u64)),
            None => None,
        }
    }

    /// The program that sets a review's base. It wants the review's number; without one,
    /// it tries the branch.
    pub fn edit_base(&self, iid: &Option<String>, branch: &str, base: &str) -> (r: Call)
        ensures
            r@ == set_base(views::opt(*iid), branch@, base@),
    {
        match iid {
            Some(n) => capture(
                "glab",
                args(&["mr", "update", n.as_str(), "--target-branch", base]),
            ),
            None => capture("glab", args(&["mr", "update", branch, "--target-branch", base])),
        }
    }

    /// Sync all submitted reviews: force-push + update bases. The answer says what to do
    /// for each open review, or why there is no base.
    pub fn sync(
        &self,
        base: Result<String, String>,
        patches: &Vec<PatchEntry>,
        branches: &Vec<String>,
        open_mrs: &StrMap<u32>,
    ) -> (r: Result<Vec<SyncItem>, String>)
        requires
            branches@.len() == patches@.len(),
        ensures
            match (views::res(base), r) {
                (Ok(b), Ok(plan)) => review::items(plan@) == review::sync_items(
                    stack::patches(patches@),
                    views::strs(branches@),
                    open_mrs@,
                    ops::plain_base(b),
                    patches@.len() as int,
                ),
                (Err(e), Err(f)) => f@ == e,
                _ => false,
            },
    {
        match base {
            Ok(b) => {
                let base_branch = dropped_prefix(b.as_str(), "origin/");
                Ok(plan_sync(patches, branches, open_mrs, base_branch.as_str()))
            },
            Err(e) => Err(e),
        }
    }
}

/// The address of a review.
fn address(project: &Option<String>, iid: u32) -> (r: String)
    ensures
        r@ == review_url(views::opt(*project), iid),
{
    match project {
        Some(u) => {
            let n = decimal(iid as u64);
            concat3(u.as_str(), "/-/merge_requests/", n.as_str())
        },
        None => String::new(),
    }
}

/// The table of open reviews that the output of `glab mr list` tells of.
fn read_list(text: &str, project: &Option<String>) -> (r: StrMap<Review>)
    ensures
        r@ == listed(pieces::lines(text@), views::opt(*project)),
{
    let lines = lines_of(text);
    let ghost all = pieces::lines(text@);
    let ghost url = views::opt(*project);
    let mut table: StrMap<Review> = StrMap::new();
    let mut i: usize = 0;
    proof {
        assert(all.take(0) =~= Seq::<Seq<char>>::empty());
    }
    while i < lines.len()
        invariant
            i <= lines@.len(),
            all == views::strs(lines@),
            url == views::opt(*project),
            table@ == listed(all.take(i as int), url),
        decreases lines.len() - i,
    {
        proof {
            assert(all.take(i + 1).last() == lines@[i as int]@);
            assert(all.take(i + 1).drop_last() =~= all.take(i as int));
        }
        let raw = strip_ansi(lines[i].as_str());
        let line = trimmed(raw.as_str());
        let iid = find_iid(line.as_str());
        let source = find_source(line.as_str());
        if let Some(n) = iid {
            if let Some(branch) = source {
                table.insert(branch, Review { number: n, url: Some(address(project, n)) });
            }
        }
        i += 1;
    }
    proof {
        assert(all.take(i as int) =~= all);
    }
    table
}

} // verus!
