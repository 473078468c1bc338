//! Gitea, through the `tea` command.
use vstd::prelude::*;

use super::json;
use super::json::{column, number_at, text_at, to_low_bits, true_at, Cell, CellView};
use super::review::{Review, ReviewView, SyncItem, SyncItemView};
use super::review;
use crate::git::call;
use crate::git::call::{capture, Call, CallView, Ran, RanView};
use crate::git::ops;
use crate::git::ops::refresh_commands;
use crate::stack;
use crate::stack::{PatchEntry, PatchView};
use crate::strmap;
use crate::strmap::StrMap;
use crate::text::args;
use crate::text::args::args;
use crate::text::chars;
use crate::text::chars::{
    concat2, concat3, concat5, piece, same, to_chars, trimmed, trimmed_end_set, CharSet,
};
use crate::text::number;
use crate::text::number::decimal;
use crate::text::pieces;
use crate::text::pieces::{joined, split_text, splitn_text};
use crate::text::search;
use crate::text::search::{dropped_suffixes, find_in, occurs, starts};
use crate::text::views;

verus! {

broadcast use views::group_views;

/// Gitea.
pub struct Gitea;

/// The pieces from place `k` on; none where there are fewer.
pub open spec fn beyond(parts: Seq<Seq<char>>, k: int) -> Seq<Seq<char>> {
    if k <= parts.len() {
        parts.skip(k)
    } else {
        seq![]
    }
}

/// The part of a remote's address that names owner and repository.
pub open spec fn address_path(url: Seq<char>) -> Option<Seq<char>> {
    match search::find(url, ":"@) {
        Some(at) => if "ssh://"@.is_prefix_of(url) || "http"@.is_prefix_of(url) {
            Some(pieces::join(beyond(pieces::split(url, "/"@), 3), "/"@))
        } else {
            Some(url.skip(at + 1))
        },
        None => None,
    }
}

/// "owner/repo" from a git remote URL.
pub open spec fn slug_of(remote: Seq<char>) -> Option<Seq<char>> {
    match address_path(chars::trim(remote)) {
        Some(path) => {
            let slug = search::without_suffixes(path, ".git"@);
            if search::contains(slug, "/"@) {
                Some(slug)
            } else {
                None
            }
        },
        None => None,
    }
}

/// The pieces from place `k` on; none where there are fewer.
fn tail(v: &Vec<String>, k: usize) -> (r: Vec<String>)
    ensures
        views::strs(r@) == beyond(views::strs(v@), k as int),
{
    let ghost all = views::strs(v@);
    let mut r: Vec<String> = Vec::new();
    let mut i: usize = k;
    while i < v.len()
        invariant
            k <= v@.len() ==> k <= i <= v@.len(),
            k > v@.len() ==> i == k,
            all == views::strs(v@),
            views::strs(r@) == (if k <= v@.len() {
                all.subrange(k as int, i as int)
            } else {
                seq![]
            }),
        decreases v.len() - i,
    {
        r.push(v[i].clone());
        proof {
            assert(all.subrange(k as int, i + 1) =~= all.subrange(k as int, i as int).push(
                all[i as int],
            ));
        }
        i += 1;
    }
    proof {
        if k <= v@.len() {
            assert(all.subrange(k as int, v@.len() as int) =~= all.skip(k as int));
        }
    }
    r
}

/// "owner/repo", where the remote's address is known and tells it.
pub open spec fn told_slug(answer: Result<Seq<char>, Seq<char>>) -> Option<Seq<char>> {
    match answer {
        Ok(a) => slug_of(a),
        Err(e) => None,
    }
}

/// Extract "owner/repo" from a git remote URL.
/// Handles: git@host:owner/repo.git, https://host/owner/repo.git,
///          ssh://git@host/owner/repo.git
pub fn repo_slug(answer: &Result<String, String>) -> (r: Option<String>)
    ensures
        views::opt(r) == told_slug(views::res(*answer)),
{
    match answer {
        Ok(a) => {
            let url = trimmed(a.as_str());
            match find_in(url.as_str(), ":") {
                Some(at) => {
                    proof {
                        reveal_strlit(":");
                        reveal_strlit("/");
                        reveal_strlit(".git");
                        search::lemma_find(url@, ":"@);
                    }
                    let path = if starts(url.as_str(), "ssh://") || starts(url.as_str(), "http") {
                        let parts = split_text(url.as_str(), "/");
                        let rest = tail(&parts, 3);
                        joined(&rest, "/")
                    } else {
                        let v = to_chars(url.as_str());
                        proof {
                            assert(v@.subrange(at + 1, v@.len() as int) =~= url@.skip(at + 1));
                        }
                        piece(&v, at + 1, v.len())
                    };
                    let slug = dropped_suffixes(path.as_str(), ".git");
                    if occurs(slug.as_str(), "/") {
                        Some(slug)
                    } else {
                        None
                    }
                },
                None => None,
            }
        },
        Err(e) => None,
    }
}

/// The address that a list of logins gives: that of the first default login that has
/// one, or else that of the first login.
pub open spec fn login_url(defaults: Seq<CellView>, urls: Seq<CellView>, i: int) -> Option<
    Seq<char>,
>
    decreases urls.len() - i,
{
    if i < 0 || i >= urls.len() {
        json::cell_at(urls, 0).text()
    } else if json::cell_at(defaults, i).is_true() && json::cell_at(urls, i).text() is Some {
        json::cell_at(urls, i).text()
    } else {
        login_url(defaults, urls, i + 1)
    }
}

/// The server's address, from the remote's: only where that is on the web.
pub open spec fn remote_url(remote: Seq<char>) -> Option<Seq<char>> {
    let url = chars::trim(remote);
    let parts = pieces::splitn(url, 4, "/"@);
    if ("https://"@.is_prefix_of(url) || "http://"@.is_prefix_of(url)) && parts.len() >= 3 {
        Some(parts[0] + "//"@ + parts[2])
    } else {
        None
    }
}

/// The server's address: from the list of logins, where `tea` gives one, or else from
/// the remote's address. Without `tea` there is none.
pub open spec fn server_url(logins: RanView, remote: Result<Seq<char>, Seq<char>>) -> Option<
    Seq<char>,
> {
    match logins {
        RanView::Lost(e) => None,
        RanView::Ended { success, stdout, stderr } => {
            let told = if success {
                login_url(
                    json::column_of(stdout, seq!["default"@]),
                    json::column_of(stdout, seq!["url"@]),
                    0,
                )
            } else {
                None
            };
            match told {
                Some(u) => Some(chars::trim_end_set(u, CharSet::Only('/'))),
                None => match remote {
                    Ok(r) => remote_url(r),
                    Err(e) => None,
                },
            }
        },
    }
}

/// The address that a list of logins gives.
fn find_login(defaults: &Vec<Cell>, urls: &Vec<Cell>) -> (r: Option<String>)
    ensures
        views::opt(r) == login_url(json::cells(defaults@), json::cells(urls@), 0),
{
    let ghost ds = json::cells(defaults@);
    let ghost us = json::cells(urls@);
    let mut i: usize = 0;
    while i < urls.len()
        invariant
            i <= urls@.len(),
            ds == json::cells(defaults@),
            us == json::cells(urls@),
            login_url(ds, us, 0) == login_url(ds, us, i as int),
        decreases urls.len() - i,
    {
        if true_at(defaults, i) {
            let url = text_at(urls, i);
            if url.is_some() {
                return url;
            }
        }
        i += 1;
    }
    text_at(urls, 0)
}

/// The program that lists the logins.
pub open spec fn list_logins() -> CallView {
    call::captured("tea"@, seq!["login"@, "list"@, "--output"@, "json"@])
}

/// The program that lists the logins.
pub fn logins_call() -> (r: Call)
    ensures
        r@ == list_logins(),
{
    capture("tea", args(&["login", "list", "--output", "json"]))
}

/// Extract base URL from tea's login config (the actual web/API URL).
/// Falls back to the git remote (which only works if SSH host == web host).
pub fn base_url(logins: &Ran, remote: &Result<String, String>) -> (r: Option<String>)
    ensures
        views::opt(r) == server_url(logins@, views::res(*remote)),
{
    match logins {
        Ran::Lost(e) => None,
        Ran::Ended { success, stdout, stderr } => {
            if *success {
                let defaults = column(stdout.as_str(), &["default"]);
                let urls = column(stdout.as_str(), &["url"]);
                proof {
                    assert(args::texts(["default"]@) =~= seq!["default"@]);
                    assert(args::texts(["url"]@) =~= seq!["url"@]);
                }
                if let Some(u) = find_login(&defaults, &urls) {
                    return Some(trimmed_end_set(u.as_str(), CharSet::Only('/')));
                }
            }
            match remote {
                Ok(a) => {
                    let url = trimmed(a.as_str());
                    proof {
                        reveal_strlit("/");
                    }
                    let parts = splitn_text(url.as_str(), 4, "/");
                    let ghost all = pieces::splitn(url@, 4, "/"@);
                    proof {
                        assert(all.len() == parts@.len());
                    }
                    if (starts(url.as_str(), "https://") || starts(url.as_str(), "http://"))
                        && parts.len() >= 3 {
                        proof {
                            assert(all[0] == parts@[0]@);
                            assert(all[2] == parts@[2]@);
                        }
                        Some(concat3(parts[0].as_str(), "//", parts[2].as_str()))
                    } else {
                        None
                    }
                },
                Err(e) => None,
            }
        },
    }
}

/// The columns of `tea pr list`.
pub struct Columns {
    pub state: Vec<Cell>,
    pub index: Vec<Cell>,
    pub number: Vec<Cell>,
    pub head: Vec<Cell>,
    pub head_name: Vec<Cell>,
    pub head_ref: Vec<Cell>,
}

/// The columns of `tea pr list` as they are seen in contracts.
#[verifier::ext_equal]
pub struct ColumnsView {
    pub state: Seq<CellView>,
    pub index: Seq<CellView>,
    pub number: Seq<CellView>,
    pub head: Seq<CellView>,
    pub head_name: Seq<CellView>,
    pub head_ref: Seq<CellView>,
}

impl View for Columns {
    type V = ColumnsView;

    open spec fn view(&self) -> ColumnsView {
        ColumnsView {
            state: json::cells(self.state@),
            index: json::cells(self.index@),
            number: json::cells(self.number@),
            head: json::cells(self.head@),
            head_name: json::cells(self.head_name@),
            head_ref: json::cells(self.head_ref@),
        }
    }
}

/// The columns that a text holds.
pub open spec fn columns_of(text: Seq<char>) -> ColumnsView {
    ColumnsView {
        state: json::column_of(text, seq!["state"@]),
        index: json::column_of(text, seq!["index"@]),
        number: json::column_of(text, seq!["number"@]),
        head: json::column_of(text, seq!["head"@]),
        head_name: json::column_of(text, seq!["head"@, "name"@]),
        head_ref: json::column_of(text, seq!["head"@, "ref"@]),
    }
}

/// The first of two that there is.
pub open spec fn either<T>(a: Option<T>, b: Option<T>) -> Option<T> {
    match a {
        Some(x) => Some(x),
        None => b,
    }
}

/// The number of the review in row `i`.
pub open spec fn row_number(c: ColumnsView, i: int) -> Option<u64> {
    either(json::cell_at(c.index, i).number(), json::cell_at(c.number, i).number())
}

/// The branch of the review in row `i`: head is a text, or an object with a name or a
/// ref.
pub open spec fn row_head(c: ColumnsView, i: int) -> Option<Seq<char>> {
    either(
        json::cell_at(c.head, i).text(),
        either(json::cell_at(c.head_name, i).text(), json::cell_at(c.head_ref, i).text()),
    )
}

/// The table of open reviews after the first `n` rows: those that are open and have a
/// number, and whose branch begins with `pgit/`.
pub open spec fn open_rows(c: ColumnsView, n: int) -> Seq<(Seq<char>, u32)>
    decreases n,
{
    if n <= 0 {
        seq![]
    } else {
        let before = open_rows(c, n - 1);
        match (row_number(c, n - 1), row_head(c, n - 1)) {
            (Some(num), Some(head)) => if json::cell_at(c.state, n - 1).text() == Some("open"@)
                && "pgit/"@.is_prefix_of(head) {
                strmap::put(before, head, json::low_bits(num))
            } else {
                before
            },
            _ => before,
        }
    }
}

/// The open reviews in the rows of a list.
pub fn read_rows(c: &Columns) -> (r: StrMap<u32>)
    ensures
        r@ == open_rows(c@, c@.state.len() as int),
{
    let mut table: StrMap<u32> = StrMap::new();
    let mut i: usize = 0;
    while i < c.state.len()
        invariant
            i <= c@.state.len() == c.state@.len(),
            table@ == open_rows(c@, i as int),
        decreases c.state.len() - i,
    {
        let num = match number_at(&c.index, i) {
            Some(n) => Some(n),
            None => number_at(&c.number, i),
        };
        let head = match text_at(&c.head, i) {
            Some(h) => Some(h),
            None => match text_at(&c.head_name, i) {
                Some(h) => Some(h),
                None => text_at(&c.head_ref, i),
            },
        };
        let is_open = match text_at(&c.state, i) {
            Some(s) => same(s.as_str(), "open"),
            None => false,
        };
        if is_open {
            if let Some(n) = num {
                if let Some(h) = head {
                    if starts(h.as_str(), "pgit/") {
                        table.insert(h, to_low_bits(n));
                    }
                }
            }
        }
        i += 1;
    }
    table
}

/// What is made of the end of `tea pr create`.
pub open spec fn created(
    ran: RanView,
    branch: Seq<char>,
    slug: Seq<char>,
    server: Option<Seq<char>>,
) -> Result<Seq<char>, Seq<char>> {
    match ran {
        RanView::Lost(e) => Err("tea not found: "@ + e),
        RanView::Ended { success, stdout, stderr } => if !success {
            Err("tea pr create failed: "@ + stderr)
        } else if chars::trim(stdout).len() > 0 {
            Ok("PR created: "@ + chars::trim(stdout))
        } else {
            match server {
                Some(url) => Ok("PR created: "@ + url + "/"@ + slug + "/pulls"@),
                None => Ok("PR created: "@ + branch),
            }
        },
    }
}

/// The reviews with their addresses, where server and repository are known.
pub open spec fn addressed(
    open: Seq<(Seq<char>, u32)>,
    server: Option<Seq<char>>,
    slug: Option<Seq<char>>,
) -> Seq<(Seq<char>, ReviewView)> {
    open.map_values(
        |e: (Seq<char>, u32)|
            (
                e.0,
                ReviewView {
                    number: e.1,
                    url: match (server, slug) {
                        (Some(u), Some(s)) => Some(
                            u + "/"@ + s + "/pulls/"@ + number::dec(e.1 as nat),
                        ),
                        _ => None,
                    },
                },
            ),
    )
}

/// What is done for the open reviews of the first `n` commits: their branches are
/// refreshed.
pub open spec fn push_items(
    p: Seq<PatchView>,
    branches: Seq<Seq<char>>,
    open: Seq<(Seq<char>, u32)>,
    n: int,
) -> Seq<SyncItemView>
    decreases n,
{
    if n <= 0 {
        seq![]
    } else {
        let before = push_items(p, branches, open, n - 1);
        if strmap::lookup(open, branches[n - 1]) is Some {
            before.push(
                SyncItemView {
                    progress: "Pushing: "@ + p[n - 1].subject + " ..."@,
                    commands: ops::refresh(branches[n - 1], p[n - 1].hash),
                    branch: branches[n - 1],
                    base: seq![],
                },
            )
        } else {
            before
        }
    }
}

/// The program that makes a new review.
pub open spec fn creation(
    slug: Seq<char>,
    branch: Seq<char>,
    base: Seq<char>,
    subject: Seq<char>,
    body: Seq<char>,
) -> CallView {
    call::captured(
        "tea"@,
        seq![
            "pr"@,
            "create"@,
            "--repo"@,
            slug,
            "--head"@,
            branch,
            "--base"@,
            base,
            "--title"@,
            subject,
            "--description"@,
            body,
        ],
    )
}

/// The program that lists the reviews of a repository.
pub open spec fn list_all(slug: Seq<char>) -> CallView {
    call::captured(
        "tea"@,
        seq![
            "pr"@,
            "list"@,
            "--repo"@,
            slug,
            "--output"@,
            "json"@,
            "--fields"@,
            "index,head,state"@,
        ],
    )
}

/// The open reviews' numbers, and whether the program could tell them.
pub open spec fn open_reviews(ran: RanView) -> (Seq<(Seq<char>, u32)>, bool) {
    match ran.output() {
        Some(text) => (open_rows(columns_of(text), columns_of(text).state.len() as int), true),
        None => (seq![], false),
    }
}

impl Gitea {
    /// The program that makes a new review.
    pub fn submit(&self, slug: &str, branch: &str, base: &str, subject: &str, body: &str) -> (r:
        Call)
        ensures
            r@ == creation(slug@, branch@, base@, subject@, body@),
    {
        capture(
            "tea",
            args(
                &[
                    "pr",
                    "create",
                    "--repo",
                    slug,
                    "--head",
                    branch,
                    "--base",
                    base,
                    "--title",
                    subject,
                    "--description",
                    body,
                ],
            ),
        )
    }

    /// What is made of the end of the program that makes a new review.
    pub fn submitted(&self, ran: Ran, branch: &str, slug: &str, server: &Option<String>) -> (r:
        Result<String, String>)
        ensures
            views::res(r) == created(ran@, branch@, slug@, views::opt(*server)),
    {
        match ran {
            Ran::Lost(e) => Err(concat2("tea not found: ", e.as_str())),
            Ran::Ended { success, stdout, stderr } => {
                let out = trimmed(stdout.as_str());
                if !success {
                    Err(concat2("tea pr create failed: ", stderr.as_str()))
                } else if !out.as_str().is_empty() {
                    Ok(concat2("PR created: ", out.as_str()))
                } else {
                    match server {
                        Some(url) => Ok(
                            concat5("PR created: ", url.as_str(), "/", slug, "/pulls"),
                        ),
                        None => Ok(concat2("PR created: ", branch)),
                    }
                }
            },
        }
    }

    /// What is said once an existing review was pushed.
    pub fn update(&self, branch: &str) -> (r: String)
        ensures
            r@ == "PR pushed: "@ + branch@,
    {
        concat2("PR pushed: ", branch)
    }

    /// The program that lists the reviews of a repository.
    pub fn list_call(&self, slug: &str) -> (r: Call)
        ensures
            r@ == list_all(slug@),
    {
        capture(
            "tea",
            args(
                &[
                    "pr",
                    "list",
                    "--repo",
                    slug,
                    "--output",
                    "json",
                    "--fields",
                    "index,head,state",
                ],
            ),
        )
    }

    /// List open PRs for the user's pgit branches, and whether the CLI is available.
    pub fn list_open(&self, ran: &Ran) -> (r: (StrMap<u32>, bool))
        ensures
            (r.0@, r.1) == open_reviews(ran@),
    {
        match ran.output() {
            Some(text) => {
                let t = text.as_str();
                proof {
                    assert(args::texts(["state"]@) =~= seq!["state"@]);
                    assert(args::texts(["index"]@) =~= seq!["index"@]);
                    assert(args::texts(["number"]@) =~= seq!["number"@]);
                    assert(args::texts(["head"]@) =~= seq!["head"@]);
                    assert(args::texts(["head", "name"]@) =~= seq!["head"@, "name"@]);
                    assert(args::texts(["head", "ref"]@) =~= seq!["head"@, "ref"@]);
                }
                let columns = Columns {
                    state: column(t, &["state"]),
                    index: column(t, &["index"]),
                    number: column(t, &["number"]),
                    head: column(t, &["head"]),
                    head_name: column(t, &["head", "name"]),
                    head_ref: column(t, &["head", "ref"]),
                };
                proof {
                    assert(columns@ =~= columns_of(text@));
                }
                (read_rows(&columns), true)
            },
            None => (StrMap::new(), false),
        }
    }

    /// tea CLI doesn't support editing PR base directly.
    /// Gitea users should update base via the web UI.
    pub fn edit_base(&self) -> (r: bool)
        ensures
            !r,
    {
        false
    }

    /// The reviews with their addresses, where server and repository are known.
    pub fn with_addresses(
        &self,
        open_prs: &StrMap<u32>,
        server: &Option<String>,
        slug: &Option<String>,
    ) -> (r: StrMap<Review>)
        ensures
            r@ == addressed(open_prs@, views::opt(*server), views::opt(*slug)),
    {
        let ghost all = addressed(open_prs@, views::opt(*server), views::opt(*slug));
        let mut entries: Vec<(String, Review)> = Vec::new();
        let mut i: usize = 0;
        while i < open_prs.entries.len()
            invariant
                i <= open_prs.entries@.len() == all.len(),
                all == addressed(open_prs@, views::opt(*server), views::opt(*slug)),
                strmap::pairs(entries@) == all.take(i as int),
            decreases open_prs.entries.len() - i,
        {
            let ghost before = strmap::pairs(entries@);
            let n: u32 = open_prs.entries[i].1;
            let url = match server {
                Some(u) => match slug {
                    Some(s) => {
                        let d = decimal(n as u64);
                        Some(
                            concat5(
                                u.as_str(),
                                "/",
                                s.as_str(),
                                "/pulls/",
                                d.as_str(),
                            ),
                        )
                    },
                    None => None,
                },
                None => None,
            };
            let review = Review { number: n, url };
            proof {
                assert(open_prs@[i as int].1 == n);
                assert((open_prs.entries@[i as int].0@, review@) == all[i as int]);
            }
            entries.push((open_prs.entries[i].0.clone(), review));
            proof {
                assert(strmap::pairs(entries@) =~= before.push(all[i as int]));
                assert(all.take(i + 1) =~= all.take(i as int).push(all[i as int]));
            }
            i += 1;
        }
        proof {
            assert(all.take(i as int) =~= all);
        }
        StrMap { entries }
    }

    /// Sync all submitted reviews: what to push for each open one.
    pub fn sync(
        &self,
        patches: &Vec<PatchEntry>,
        branches: &Vec<String>,
        open_prs: &StrMap<u32>,
    ) -> (r: Vec<SyncItem>)
        requires
            branches@.len() == patches@.len(),
        ensures
            review::items(r@) == push_items(
                stack::patches(patches@),
                views::strs(branches@),
                open_prs@,
                patches@.len() as int,
            ),
    {
        let ghost p = stack::patches(patches@);
        let ghost bs = views::strs(branches@);
        let mut plan: Vec<SyncItem> = Vec::new();
        let mut i: usize = 0;
        proof {
            assert(review::items(plan@) =~= Seq::<SyncItemView>::empty());
        }
        while i < patches.len()
            invariant
                i <= patches@.len(),
                branches@.len() == patches@.len(),
                p == stack::patches(patches@),
                bs == views::strs(branches@),
                review::items(plan@) == push_items(p, bs, open_prs@, i as int),
            decreases patches.len() - i,
        {
            proof {
                assert(bs[i as int] == branches@[i as int]@);
                assert(p[i as int] == patches@[i as int]@);
            }
            if open_prs.contains_key(branches[i].as_str()) {
                let ghost before = review::items(plan@);
                let item = SyncItem {
                    progress: concat3("Pushing: ", patches[i].subject.as_str(), " ..."),
                    commands: refresh_commands(branches[i].as_str(), patches[i].hash.as_str()),
                    branch: branches[i].clone(),
                    base: String::new(),
                };
                plan.push(item);
                proof {
                    assert(review::items(plan@) =~= before.push(item@));
                    assert(item@ =~= push_items(p, bs, open_prs@, i + 1).last());
                }
            }
            i += 1;
        }
        plan
    }

    /// What is said of a review that was pushed.
    pub fn pushed_line(&self, branch: &str) -> (r: String)
        ensures
            r@ == "✓ "@ + branch@ + " pushed"@,
    {
        concat3("✓ ", branch, " pushed")
    }
}

} // verus!
