//! What is read off the answers of git and of the platforms.
use vstd::prelude::*;

use crate::forge::json;
use crate::forge::json::CellView;
use crate::forge::phabricator::message;
use crate::forge::review;
use crate::forge::review::ReviewView;
use crate::forge::{gitea, github, gitlab, pr_description, stack_base_hint, sync_state, ForgeKind};
use crate::git::call;
use crate::git::ops;
use crate::git::ops::BaseStepView;
use crate::stack::{PatchStatus, PatchView};
use crate::strmap;
use crate::text::ansi;
use crate::text::chars;
use crate::text::number;
use crate::text::pieces;
use crate::text::search;

verus! {

/// Whether a commit is the same but for what is known of its review.
pub open spec fn same_commit(a: PatchView, b: PatchView) -> bool {
    &&& a.hash == b.hash
    &&& a.subject == b.subject
    &&& a.body == b.body
    &&& a.author == b.author
    &&& a.timestamp == b.timestamp
}

/// With a list of open reviews, a commit counts as submitted if its branch is in the list, with
/// the number and the address that the list gives; a commit whose branch is not in it stays as
/// it was. Without a list, it counts as submitted if the remote has its branch.
pub proof fn law_marked(
    p: Seq<PatchView>,
    branches: Seq<Seq<char>>,
    reviews: Seq<(Seq<char>, ReviewView)>,
    available: bool,
    there: Seq<bool>,
    i: int,
)
    requires
        0 <= i < p.len(),
    ensures
        ({
            let all = review::all_marked(p, branches, reviews, available, there);
            let known = strmap::lookup(reviews, branches[i]);
            &&& all.len() == p.len()
            &&& same_commit(all[i], p[i])
            &&& available && known is Some ==> {
                &&& all[i].status == PatchStatus::Submitted
                &&& all[i].pr_branch == Some(branches[i])
                &&& all[i].pr_number == Some(known->0.number)
                &&& known->0.url is Some ==> all[i].pr_url == known->0.url
            }
            &&& available && known is None ==> all[i] == p[i]
            &&& !available && there[i] ==> {
                &&& all[i].status == PatchStatus::Submitted
                &&& all[i].pr_branch == Some(branches[i])
                &&& all[i].pr_number == p[i].pr_number
            }
            &&& !available && !there[i] ==> all[i] == p[i]
        }),
{
}

/// On Phabricator a commit counts as submitted if its message names a revision.
pub proof fn law_marked_by_message(e: PatchView, text: Seq<char>)
    ensures
        same_commit(message::marked(e, text), e),
        match message::revision(text) {
            Some(r) => {
                &&& message::marked(e, text).status == PatchStatus::Submitted
                &&& message::marked(e, text).pr_number == Some(r.0)
                &&& message::marked(e, text).pr_url == Some(r.1)
            },
            None => message::marked(e, text) == e,
        },
{
}

/// Whether a row of GitHub's list tells of a branch.
pub open spec fn github_row(
    numbers: Seq<CellView>,
    heads: Seq<CellView>,
    i: int,
    n: u64,
    head: Seq<char>,
) -> bool {
    &&& 0 <= i < numbers.len()
    &&& i < heads.len()
    &&& numbers[i] == CellView::Number(n)
    &&& heads[i] == CellView::Text(head)
    &&& "pgit/"@.is_prefix_of(head)
}

/// A row of GitHub's list that tells of a branch of this program is read, with its number and
/// its address, unless a later row tells of the same branch.
pub proof fn law_github_listed(
    numbers: Seq<CellView>,
    heads: Seq<CellView>,
    urls: Seq<CellView>,
    count: int,
    i: int,
    n: u64,
    head: Seq<char>,
)
    requires
        github_row(numbers, heads, i, n, head),
        i < count <= numbers.len(),
        forall|k: int, m: u64|
            i < k < count ==> !(#[trigger] github_row(numbers, heads, k, m, head)),
    ensures
        ({
            let found = strmap::lookup(github::open_rows(numbers, heads, urls, count), head);
            &&& found is Some
            &&& n < 0x1_0000_0000 ==> found->0.number == n
            &&& 0 <= i < urls.len() && urls[i] is Text ==> found->0.url == Some(urls[i]->Text_0)
        }),
    decreases count,
{
    let last = count - 1;
    let before = github::open_rows(numbers, heads, urls, last);
    match (json::cell_at(numbers, last).number(), json::cell_at(heads, last).text()) {
        (Some(num), Some(h)) => {
            let value = ReviewView {
                number: json::low_bits(num),
                url: Some(
                    match json::cell_at(urls, last).text() {
                        Some(u) => u,
                        None => seq![],
                    },
                ),
            };
            strmap::law_put_lookup(before, h, value, head);
            if last != i && h == head && "pgit/"@.is_prefix_of(h) {
                assert(github_row(numbers, heads, last, num, head));
            }
        },
        _ => {},
    }
    if i < last {
        law_github_listed(numbers, heads, urls, last, i, n, head);
    }
}

/// Nothing is read of GitHub's list but branches of this program that a row tells of.
pub proof fn law_github_only(
    numbers: Seq<CellView>,
    heads: Seq<CellView>,
    urls: Seq<CellView>,
    count: int,
    head: Seq<char>,
)
    requires
        count <= numbers.len(),
        strmap::lookup(github::open_rows(numbers, heads, urls, count), head) is Some,
    ensures
        exists|i: int, n: u64| i < count && #[trigger] github_row(numbers, heads, i, n, head),
    decreases count,
{
    let last = count - 1;
    let before = github::open_rows(numbers, heads, urls, last);
    if count > 0 {
        match (json::cell_at(numbers, last).number(), json::cell_at(heads, last).text()) {
            (Some(num), Some(h)) => {
                let value = ReviewView {
                    number: json::low_bits(num),
                    url: Some(
                        match json::cell_at(urls, last).text() {
                            Some(u) => u,
                            None => seq![],
                        },
                    ),
                };
                strmap::law_put_lookup(before, h, value, head);
                if h == head && "pgit/"@.is_prefix_of(h) {
                    assert(github_row(numbers, heads, last, num, head));
                }
            },
            _ => {},
        }
        if strmap::lookup(before, head) is Some {
            law_github_only(numbers, heads, urls, last, head);
            let (i, n) = choose|i: int, n: u64|
                i < last && #[trigger] github_row(numbers, heads, i, n, head);
            assert(github_row(numbers, heads, i, n, head));
        }
    }
}

/// A line of GitLab's list that begins with `!` and a number and names a branch is read: the
/// branch has that number, unless a later line tells of the same branch.
pub proof fn law_gitlab_listed(
    lines: Seq<Seq<char>>,
    project: Seq<char>,
    i: int,
    iid: u32,
    branch: Seq<char>,
)
    requires
        0 <= i < lines.len(),
        tells(lines[i], iid, branch),
        forall|k: int, m: u32|
            i < k < lines.len() ==> !(#[trigger] tells(lines[k], m, branch)),
    ensures
        strmap::lookup(gitlab::listed(lines, Some(project)), branch) == Some(
            ReviewView {
                number: iid,
                url: Some(project + "/-/merge_requests/"@ + number::dec(iid as nat)),
            },
        ),
    decreases lines.len(),
{
    let most = lines.drop_last();
    let before = gitlab::listed(most, Some(project));
    let line = chars::trim(ansi::plain(lines.last(), false));
    match (gitlab::iid_of(line), gitlab::source_of(line)) {
        (Some(n), Some(b)) => {
            strmap::law_put_lookup(
                before,
                b,
                ReviewView { number: n, url: Some(gitlab::review_url(Some(project), n)) },
                branch,
            );
            if b == branch && i < most.len() {
                assert(tells(lines[lines.len() - 1], n, branch));
            }
        },
        _ => {},
    }
    if i < most.len() {
        assert(most[i] == lines[i]);
        assert forall|k: int, m: u32| i < k < most.len() implies !(#[trigger] tells(
            most[k],
            m,
            branch,
        )) by {
            assert(!tells(lines[k], m, branch));
        }
        law_gitlab_listed(most, project, i, iid, branch);
    }
}

/// Whether a line of GitLab's list tells of a branch.
pub open spec fn tells(line: Seq<char>, iid: u32, branch: Seq<char>) -> bool {
    let shown = chars::trim(ansi::plain(line, false));
    gitlab::iid_of(shown) == Some(iid) && gitlab::source_of(shown) == Some(branch)
}

/// A row of Gitea's list is read if it is open and tells of a branch of this program, and only
/// then.
pub proof fn law_gitea_row(c: gitea::ColumnsView, n: int, head: Seq<char>)
    requires
        0 < n,
    ensures
        ({
            let before = gitea::open_rows(c, n - 1);
            let all = gitea::open_rows(c, n);
            let told = gitea::row_head(c, n - 1) == Some(head) && gitea::row_number(c, n - 1)
                is Some && json::cell_at(c.state, n - 1) == CellView::Text("open"@)
                && "pgit/"@.is_prefix_of(head);
            &&& told ==> strmap::lookup(all, head) is Some
            &&& told && (gitea::row_number(c, n - 1)->0) < 0x1_0000_0000 ==> strmap::lookup(
                all,
                head,
            ) == Some(gitea::row_number(c, n - 1)->0 as u32)
            &&& !told ==> strmap::lookup(all, head) == strmap::lookup(before, head)
        }),
{
    let before = gitea::open_rows(c, n - 1);
    match (gitea::row_number(c, n - 1), gitea::row_head(c, n - 1)) {
        (Some(num), Some(h)) => {
            strmap::law_put_lookup(before, h, json::low_bits(num), head);
        },
        _ => {},
    }
}

/// What a revision depends on: the closest commit below it that has a revision.
pub proof fn law_parent(p: Seq<PatchView>, n: int, j: int)
    requires
        n <= p.len(),
    ensures
        0 <= j < n && p[j].status == PatchStatus::Submitted && p[j].pr_number is Some && (forall|
            m: int,
        |
            j < m < n ==> !((#[trigger] p[m]).status == PatchStatus::Submitted && p[m].pr_number
                is Some)) ==> message::parent_revision(p, n) == p[j].pr_number,
        (forall|m: int|
            0 <= m < n ==> !((#[trigger] p[m]).status == PatchStatus::Submitted && p[m].pr_number
                is Some)) ==> message::parent_revision(p, n) is None,
    decreases n,
{
    if n > 0 {
        law_parent(p, n - 1, j);
    }
}

/// Without a configured base and without a hint, the base is the first of the usual branches
/// that is there: those of the remote before the local ones, and `main` before `master`.
pub proof fn law_base_detected(there: Seq<bool>)
    requires
        there.len() == 4,
    ensures
        there[0] ==> ops::detected_base(there) == Ok::<Seq<char>, Seq<char>>("origin/main"@),
        !there[0] && there[1] ==> ops::detected_base(there) == Ok::<Seq<char>, Seq<char>>(
            "origin/master"@,
        ),
        !there[0] && !there[1] && there[2] ==> ops::detected_base(there) == Ok::<
            Seq<char>,
            Seq<char>,
        >("main"@),
        !there[0] && !there[1] && !there[2] && there[3] ==> ops::detected_base(there) == Ok::<
            Seq<char>,
            Seq<char>,
        >("master"@),
        !there[0] && !there[1] && !there[2] && !there[3] ==> ops::detected_base(there) is Err,
        ops::candidates() == seq!["origin/main"@, "origin/master"@, "main"@, "master"@],
{
}

/// A configured base is checked and then taken, without asking the platform; a base that is no
/// ref is refused. Otherwise the platform's hint is taken, and only without one is the base
/// detected.
pub proof fn law_base_order(
    configured: Seq<char>,
    valid: bool,
    hint: Option<Option<Seq<char>>>,
    found: Option<Result<Seq<char>, Seq<char>>>,
    h: Seq<char>,
    r: Result<Seq<char>, Seq<char>>,
)
    ensures
        chars::trim(configured).len() > 0 ==> {
            &&& ops::base_step(Some(configured), None, hint, found) == BaseStepView::Check(
                chars::trim(configured),
            )
            &&& ops::base_step(Some(configured), Some(true), hint, found) == BaseStepView::Done(
                Ok(chars::trim(configured)),
            )
            &&& match ops::base_step(Some(configured), Some(false), hint, found) {
                BaseStepView::Done(Err(e)) => true,
                _ => false,
            }
        },
        chars::trim(configured).len() == 0 ==> ops::base_step(
            Some(configured),
            None,
            None,
            None,
        ) is AskForge,
        ops::base_step(None, None, None, None) is AskForge,
        ops::base_step(None, None, Some(Some(h)), found) == BaseStepView::Done(Ok(h)),
        ops::base_step(None, None, Some(None), None) is Detect,
        ops::base_step(None, None, Some(None), Some(r)) == BaseStepView::Done(r),
{
}

/// GitHub's default branch is taken from the remote before the local one; other platforms give
/// no hint.
pub proof fn law_base_hint(name: Seq<char>, on_origin: bool, local: bool, kind: ForgeKind)
    ensures
        stack_base_hint::hint(ForgeKind::GitHub, Some(name), true, local) == Some(
            "origin/"@ + name,
        ),
        stack_base_hint::hint(ForgeKind::GitHub, Some(name), false, true) == Some(name),
        stack_base_hint::hint(ForgeKind::GitHub, Some(name), false, false) is None,
        kind != ForgeKind::GitHub ==> stack_base_hint::hint(kind, Some(name), on_origin, local)
            is None,
        stack_base_hint::hint(kind, None, on_origin, local) is None,
{
}

/// A submitted commit has diverged if the remote's branch is there, was pushed before, and is
/// not what was pushed: then, and only then, its branch is listed with its subject.
pub proof fn law_diverged(
    p: Seq<PatchView>,
    branches: Seq<Seq<char>>,
    remotes: Seq<Option<Seq<char>>>,
    saved: Seq<(Seq<char>, Seq<char>)>,
    n: int,
    i: int,
)
    requires
        0 <= i < n <= p.len(),
        p[i].status == PatchStatus::Submitted,
        remotes[i] is Some,
        strmap::lookup(saved, branches[i]) is Some,
        chars::trim(remotes[i]->0) != strmap::lookup(saved, branches[i])->0,
    ensures
        sync_state::diverged(p, branches, remotes, saved, n).contains(
            (branches[i], "Remote has newer changes for '"@ + p[i].subject + "'"@),
        ),
{
    sync_state::law_diverged_listed(p, branches, remotes, saved, n, i);
}

/// Nothing else is listed.
pub proof fn law_diverged_only(
    p: Seq<PatchView>,
    branches: Seq<Seq<char>>,
    remotes: Seq<Option<Seq<char>>>,
    saved: Seq<(Seq<char>, Seq<char>)>,
    n: int,
    k: int,
)
    requires
        n <= p.len(),
        0 <= k < sync_state::diverged(p, branches, remotes, saved, n).len(),
    ensures
        exists|i: int|
            0 <= i < n && (#[trigger] p[i]).status == PatchStatus::Submitted && sync_state::diverged(
                p,
                branches,
                remotes,
                saved,
                n,
            )[k].0 == branches[i] && remotes[i] is Some && strmap::lookup(saved, branches[i])
                is Some && chars::trim(remotes[i]->0) != strmap::lookup(saved, branches[i])->0,
    decreases n,
{
    let all = sync_state::diverged(p, branches, remotes, saved, n);
    if n > 0 {
        let before = sync_state::diverged(p, branches, remotes, saved, n - 1);
        if k < before.len() {
            law_diverged_only(p, branches, remotes, saved, n - 1, k);
            assert(all[k] == before[k]);
        } else {
            assert(all[k].0 == branches[n - 1]);
            assert(p[n - 1].status == PatchStatus::Submitted);
        }
    }
}

/// The working tree counts as changed if git lists any path but that of the configuration.
pub proof fn law_dirty(output: Seq<char>, i: int)
    requires
        0 <= i < pieces::lines(output).len(),
    ensures
        pieces::lines(output)[i].len() < 3 ==> ops::dirty(output),
        pieces::lines(output)[i].len() >= 3 && pieces::lines(output)[i].skip(3)
            != ".pilegit.toml"@ ==> ops::dirty(output),
        (forall|k: int|
            0 <= k < pieces::lines(output).len() ==> (#[trigger] pieces::lines(output)[k]).len() >= 3
                && pieces::lines(output)[k].skip(3) == ".pilegit.toml"@) ==> !ops::dirty(output),
{
    if !(pieces::lines(output)[i].len() >= 3 && pieces::lines(output)[i].skip(3)
        == ".pilegit.toml"@) {
        assert(ops::counts(pieces::lines(output)[i]));
    }
}

/// In a squash every commit but the first is folded into the one before it.
pub proof fn law_squash_rules(abbrs: Seq<Seq<char>>, i: int)
    requires
        0 < i < abbrs.len(),
    ensures
        call::squash_rules(abbrs.skip(1)).len() == abbrs.len() - 1,
        call::squash_rules(abbrs.skip(1))[i - 1] =~= "s/^pick "@ + abbrs[i] + "/"@ + "squash"@
            + " "@ + abbrs[i] + "/"@,
{
}

/// The draft of a description: the configured template if it says anything, else the
/// repository's, else the built-in one, each with the subject in its place.
pub proof fn law_draft(configured: Seq<char>, hint: Seq<char>, subject: Seq<char>)
    ensures
        chars::trim(configured).len() > 0 && !search::contains(configured, "{{subject}}"@)
            ==> pr_description::draft(Some(configured), Some(hint), subject) == configured,
        chars::trim(configured).len() > 0 && search::contains(configured, "{{subject}}"@)
            ==> pr_description::draft(Some(configured), Some(hint), subject) == search::replace(
            configured,
            "{{subject}}"@,
            subject,
        ),
        chars::trim(configured).len() == 0 ==> pr_description::draft(
            Some(configured),
            Some(hint),
            subject,
        ) == pr_description::draft(None, Some(hint), subject),
        !search::contains(hint, "{{subject}}"@) ==> pr_description::draft(
            None,
            Some(hint),
            subject,
        ) == hint,
        pr_description::draft(None, None, subject) =~= "## Description\n\n"@ + subject
            + "\n\n## Test Plan\n\n\n"@,
{
    let one = seq![Some(configured)];
    assert(one.drop_first() =~= Seq::<Option<Seq<char>>>::empty());
    let none = seq![None::<Seq<char>>];
    assert(none.drop_first() =~= Seq::<Option<Seq<char>>>::empty());
    assert(pr_description::first_filled(none) is None) by {
        reveal_with_fuel(pr_description::first_filled, 2);
    }
    assert(chars::trim(configured).len() == 0 ==> pr_description::first_filled(one) is None) by {
        reveal_with_fuel(pr_description::first_filled, 2);
    }
}

} // verus!
