//! Which branch a review belongs on.
use vstd::prelude::*;

use super::syncing;
use crate::forge::base_edit;
use crate::forge::base_edit::BaseEditView;
use crate::forge::listing;
use crate::forge::machine::{AskView, ReplyView};
use crate::forge::ForgeKind;
use crate::forge::sync_state;
use crate::git::branch;
use crate::git::call::{Console, RanView};
use crate::git::ops;
use crate::git::ops::BaseSearchView;
use crate::stack::{PatchStatus, PatchView};
use crate::strmap;
use crate::text::chars;
use crate::text::number;

verus! {

/// Whether the branch of the commit at a place counts as open: it is in the list, or without a
/// list, the repository said that it is there. The answers come from the top down.
pub open spec fn counts(
    user: Seq<char>,
    p: Seq<PatchView>,
    open: Seq<(Seq<char>, u32)>,
    available: bool,
    answers: Seq<bool>,
    n: int,
    j: int,
) -> bool {
    if available {
        syncing::is_open(open, branch::branch_of(user, p[j].subject))
    } else {
        answers[n - 1 - j]
    }
}

/// Walking down from a commit, the closest branch that counts as open is the base, and it is
/// made to point at its own commit and pushed first; where none does, the base of the stack is,
/// and nothing is done.
pub proof fn law_base_found(
    user: Seq<char>,
    p: Seq<PatchView>,
    open: Seq<(Seq<char>, u32)>,
    available: bool,
    answers: Seq<bool>,
    base_branch: Seq<char>,
    n: int,
    j: int,
)
    requires
        0 <= n <= p.len(),
        !available ==> answers.len() >= n,
        forall|m: int|
            0 <= m < n ==> branch::sluggable((#[trigger] p[m]).subject, 50),
    ensures
        ({
            let r = ops::base_search(user, p, open, available, answers, base_branch, n, 0);
            &&& 0 <= j < n && counts(user, p, open, available, answers, n, j) && (forall|m: int|
                #![trigger p[m]]
                j < m < n ==> !counts(user, p, open, available, answers, n, m)) ==> match r {
                BaseSearchView::Done(c) => {
                    &&& c.base == branch::branch_of(user, p[j].subject)
                    &&& c.commands.len() == 2
                    &&& syncing::brings_up(
                        c.commands,
                        0,
                        branch::branch_of(user, p[j].subject),
                        p[j].hash,
                    )
                },
                _ => false,
            }
            &&& (forall|m: int|
                #![trigger p[m]]
                0 <= m < n ==> !counts(user, p, open, available, answers, n, m)) ==> match r {
                BaseSearchView::Done(c) => c.base == base_branch && c.commands.len() == 0,
                _ => false,
            }
        }),
{
    lemma_found(user, p, open, available, answers, base_branch, n, n, j);
}

proof fn lemma_found(
    user: Seq<char>,
    p: Seq<PatchView>,
    open: Seq<(Seq<char>, u32)>,
    available: bool,
    answers: Seq<bool>,
    base_branch: Seq<char>,
    n: int,
    i: int,
    j: int,
)
    requires
        0 <= i <= n <= p.len(),
        !available ==> answers.len() >= n,
        forall|m: int|
            0 <= m < n ==> branch::sluggable((#[trigger] p[m]).subject, 50),
    ensures
        ({
            let r = ops::base_search(user, p, open, available, answers, base_branch, i, n - i);
            &&& 0 <= j < i && counts(user, p, open, available, answers, n, j) && (forall|m: int|
                #![trigger p[m]]
                j < m < i ==> !counts(user, p, open, available, answers, n, m)) ==> match r {
                BaseSearchView::Done(c) => {
                    &&& c.base == branch::branch_of(user, p[j].subject)
                    &&& c.commands.len() == 2
                    &&& syncing::brings_up(
                        c.commands,
                        0,
                        branch::branch_of(user, p[j].subject),
                        p[j].hash,
                    )
                },
                _ => false,
            }
            &&& (forall|m: int|
                #![trigger p[m]]
                0 <= m < i ==> !counts(user, p, open, available, answers, n, m)) ==> match r {
                BaseSearchView::Done(c) => c.base == base_branch && c.commands.len() == 0,
                _ => false,
            }
        }),
    decreases i,
{
    if i > 0 {
        let e = p[i - 1];
        syncing::lemma_is_open(open, branch::branch_of(user, e.subject));
        lemma_found(user, p, open, available, answers, base_branch, n, i - 1, j);
    }
}

/// A branch is named after its user and the subject of its commit, under the name of this
/// program.
pub proof fn law_branch_named(user: Seq<char>, subject: Seq<char>)
    ensures
        ({
            let b = branch::branch_of(user, subject);
            &&& "pgit/"@.is_prefix_of(b)
            &&& b.subrange(5, 5 + user.len() as int) == user
            &&& b[5 + user.len() as int] == '/'
            &&& b.skip(6 + user.len() as int) == branch::slug(subject, 50)
        }),
{
    reveal_strlit("pgit/");
    reveal_strlit("/");
    let b = branch::branch_of(user, subject);
    assert(b.subrange(0, 5) =~= "pgit/"@);
    assert(b.subrange(5, 5 + user.len() as int) =~= user);
    assert(b.skip(6 + user.len() as int) =~= branch::slug(subject, 50));
}

/// On GitLab a review is put on its base by its number where the list has its branch, and by
/// the branch where it does not; it worked if the command did.
pub proof fn law_gitlab_base(s: BaseEditView, reply: ReplyView, ran: RanView)
    requires
        s.kind == ForgeKind::GitLab,
        s.stage == base_edit::Stage::List,
        listing::listing_step(s.listing, reply).1 is None,
    ensures
        ({
            let (l, none) = listing::listing_step(s.listing, reply);
            let (n, ask) = base_edit::edit_step(s, reply);
            let (m, end) = base_edit::edit_step(n, ReplyView::Ran(ran));
            let known = strmap::lookup(l.reviews, s.branch);
            &&& match ask {
                Some(AskView::Run(c)) => {
                    &&& c.program == "glab"@
                    &&& c.args.len() == 5
                    &&& c.args[0] == "mr"@
                    &&& c.args[1] == "update"@
                    &&& l.available && known is Some ==> c.args[2] == number::dec(
                        known->0.number as nat,
                    )
                    &&& known is None ==> c.args[2] == s.branch
                    &&& c.args[3] == "--target-branch"@
                    &&& c.args[4] == s.base
                    &&& c.env.len() == 0
                    &&& c.console == Console::Captured
                },
                _ => false,
            }
            &&& end is None
            &&& m.edited == (ran matches RanView::Ended { success: true, .. })
        }),
{
}

/// The base edit of GitHub tells whether one of its commands worked.
pub proof fn law_github_base(s: BaseEditView, ran: RanView, n: Seq<char>)
    requires
        s.kind == ForgeKind::GitHub,
        s.stage == base_edit::Stage::Edit,
    ensures
        ({
            let (e, ask) = base_edit::edit_step(s, ReplyView::Ran(ran));
            let good = ran matches RanView::Ended { success: true, .. };
            &&& good ==> ask is None && e.edited
            &&& !good && s.number is None ==> ask is None && !e.edited
            &&& !good && s.number is Some ==> ask is Some
        }),
{
}

/// After the remote was looked at, what the branch of a submitted commit points at there is on
/// record for it, unless a later commit has the same branch.
pub proof fn law_recorded(
    p: Seq<PatchView>,
    branches: Seq<Seq<char>>,
    remotes: Seq<Option<Seq<char>>>,
    state: Seq<(Seq<char>, Seq<char>)>,
    n: int,
    i: int,
)
    requires
        0 <= i < n <= p.len(),
        branches.len() == p.len(),
        remotes.len() == p.len(),
        p[i].status == PatchStatus::Submitted,
        remotes[i] is Some,
        forall|m: int| i < m < n ==> #[trigger] branches[m] != branches[i],
    ensures
        strmap::lookup(sync_state::recorded(p, branches, remotes, state, n), branches[i]) == Some(
            chars::trim(remotes[i]->0),
        ),
    decreases n,
{
    let before = sync_state::recorded(p, branches, remotes, state, n - 1);
    if remotes[n - 1] is Some {
        strmap::law_put_lookup(
            before,
            branches[n - 1],
            chars::trim(remotes[n - 1]->0),
            branches[i],
        );
    }
    if i < n - 1 {
        law_recorded(p, branches, remotes, state, n - 1, i);
    }
}

/// Every other branch keeps what was on record for it.
pub proof fn law_record_kept(
    p: Seq<PatchView>,
    branches: Seq<Seq<char>>,
    remotes: Seq<Option<Seq<char>>>,
    state: Seq<(Seq<char>, Seq<char>)>,
    n: int,
    b: Seq<char>,
)
    requires
        0 <= n <= p.len(),
        branches.len() == p.len(),
        remotes.len() == p.len(),
        forall|m: int|
            0 <= m < n ==> #[trigger] branches[m] != b || p[m].status != PatchStatus::Submitted
                || remotes[m] is None,
    ensures
        strmap::lookup(sync_state::recorded(p, branches, remotes, state, n), b)
            == strmap::lookup(state, b),
    decreases n,
{
    if n > 0 {
        let before = sync_state::recorded(p, branches, remotes, state, n - 1);
        if remotes[n - 1] is Some {
            strmap::law_put_lookup(before, branches[n - 1], chars::trim(remotes[n - 1]->0), b);
        }
        law_record_kept(p, branches, remotes, state, n - 1, b);
    }
}

} // verus!
