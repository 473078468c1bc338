//! What is asked of git and of the platform when the reviews of a stack are brought up to
//! date.
use vstd::prelude::*;

use super::submitting;
use crate::forge::base_edit;
use crate::forge::machine::{AskView, ReplyView};
use crate::forge::operation;
use crate::forge::operation::OperationView;
use crate::forge::review;
use crate::forge::syncing;
use crate::forge::syncing::{Stage, SyncingView};
use crate::forge::{gitea, listing, ForgeKind, ForgeView};
use crate::git::call::RanView;
use crate::git::ops;
use crate::stack::PatchView;
use crate::strmap;
use crate::text::chars;

verus! {

/// Whether a branch has an open review.
pub open spec fn is_open(open: Seq<(Seq<char>, u32)>, branch: Seq<char>) -> bool {
    exists|k: int| 0 <= k < open.len() && (#[trigger] open[k]).0 == branch
}

/// How many of the first `n` branches have an open review.
pub open spec fn open_below(
    branches: Seq<Seq<char>>,
    open: Seq<(Seq<char>, u32)>,
    n: int,
) -> nat
    decreases n,
{
    if n <= 0 {
        0
    } else {
        open_below(branches, open, n - 1) + (if is_open(open, branches[n - 1]) {
            1nat
        } else {
            0nat
        })
    }
}

/// Whether a branch is the closest one with an open review below a place.
pub open spec fn is_closest(
    branches: Seq<Seq<char>>,
    open: Seq<(Seq<char>, u32)>,
    j: int,
    i: int,
) -> bool {
    &&& 0 <= j < i
    &&& is_open(open, branches[j])
    &&& forall|m: int| j < m < i ==> !is_open(open, #[trigger] branches[m])
}

/// The commands that make a branch point at a commit and push it.
pub open spec fn brings_up(
    commands: Seq<Seq<Seq<char>>>,
    at: int,
    branch: Seq<char>,
    hash: Seq<char>,
) -> bool {
    &&& 0 <= at
    &&& at + 1 < commands.len()
    &&& commands[at] == seq!["branch"@, "-f"@, branch, hash]
    &&& commands[at + 1] == seq!["push"@, "-f"@, "origin"@, branch]
}

/// Looking up a branch tells whether its review is open.
pub proof fn lemma_is_open(open: Seq<(Seq<char>, u32)>, branch: Seq<char>)
    ensures
        is_open(open, branch) == (strmap::lookup(open, branch) is Some),
    decreases open.len(),
{
    if open.len() > 0 {
        let rest = open.drop_first();
        lemma_is_open(rest, branch);
        if open[0].0 != branch {
            if is_open(open, branch) {
                let k = choose|k: int| 0 <= k < open.len() && (#[trigger] open[k]).0 == branch;
                assert(rest[k - 1] == open[k]);
            }
            if is_open(rest, branch) {
                let k = choose|k: int| 0 <= k < rest.len() && (#[trigger] rest[k]).0 == branch;
                assert(open[k + 1] == rest[k]);
            }
        } else {
            assert(open[0].0 == branch);
        }
    }
}

proof fn lemma_closest(
    branches: Seq<Seq<char>>,
    open: Seq<(Seq<char>, u32)>,
    j: int,
    i: int,
)
    ensures
        is_closest(branches, open, j, i) ==> ops::closest(branches, open, i) == Some(j),
        (forall|m: int| 0 <= m < i ==> !is_open(open, #[trigger] branches[m]))
            ==> ops::closest(branches, open, i) is None,
    decreases i,
{
    if i > 0 {
        lemma_is_open(open, branches[i - 1]);
        lemma_closest(branches, open, j, i - 1);
    }
}

proof fn lemma_placed(
    p: Seq<PatchView>,
    branches: Seq<Seq<char>>,
    open: Seq<(Seq<char>, u32)>,
    base_branch: Seq<char>,
    n: int,
    i: int,
)
    requires
        0 <= i < n,
        is_open(open, branches[i]),
    ensures
        review::sync_items(p, branches, open, base_branch, n).len() == open_below(
            branches,
            open,
            n,
        ),
        gitea::push_items(p, branches, open, n).len() == open_below(branches, open, n),
        open_below(branches, open, i) < open_below(branches, open, n),
        review::sync_items(p, branches, open, base_branch, n)[open_below(
            branches,
            open,
            i,
        ) as int] == review::sync_item(p, branches, open, base_branch, i),
        gitea::push_items(p, branches, open, n)[open_below(branches, open, i) as int].branch
            == branches[i],
        gitea::push_items(p, branches, open, n)[open_below(branches, open, i) as int].commands
            == ops::refresh(branches[i], p[i].hash),
    decreases n,
{
    lemma_lengths(p, branches, open, base_branch, n - 1);
    lemma_lengths(p, branches, open, base_branch, n);
    lemma_is_open(open, branches[n - 1]);
    if i < n - 1 {
        lemma_placed(p, branches, open, base_branch, n - 1, i);
    }
}

proof fn lemma_lengths(
    p: Seq<PatchView>,
    branches: Seq<Seq<char>>,
    open: Seq<(Seq<char>, u32)>,
    base_branch: Seq<char>,
    n: int,
)
    ensures
        review::sync_items(p, branches, open, base_branch, n).len() == open_below(
            branches,
            open,
            n,
        ),
        gitea::push_items(p, branches, open, n).len() == open_below(branches, open, n),
    decreases n,
{
    if n > 0 {
        lemma_is_open(open, branches[n - 1]);
        lemma_lengths(p, branches, open, base_branch, n - 1);
    }
}

/// The plan of a sync holds one item for each branch with an open review, in the order of the
/// stack. The last thing that the item does is to make its branch point at the branch's own
/// commit and push it, whatever the base is. With open reviews below it, the item's base is
/// the closest of their branches, and that branch is brought up first; with none, the base is
/// that of the stack, and nothing else is done.
pub proof fn law_sync_plan(
    p: Seq<PatchView>,
    branches: Seq<Seq<char>>,
    open: Seq<(Seq<char>, u32)>,
    base_branch: Seq<char>,
    n: int,
    i: int,
    j: int,
)
    requires
        0 <= i < n <= p.len(),
        is_open(open, branches[i]),
    ensures
        ({
            let plan = review::sync_items(p, branches, open, base_branch, n);
            let at = open_below(branches, open, i) as int;
            let item = plan[at];
            &&& plan.len() == open_below(branches, open, n)
            &&& at < plan.len()
            &&& item.branch == branches[i]
            &&& item.progress == "Syncing: "@ + p[i].subject + " ..."@
            &&& brings_up(item.commands, item.commands.len() - 2, branches[i], p[i].hash)
            &&& is_closest(branches, open, j, i) ==> {
                &&& item.base == branches[j]
                &&& item.commands.len() == 4
                &&& brings_up(item.commands, 0, branches[j], p[j].hash)
            }
            &&& (forall|m: int| 0 <= m < i ==> !is_open(open, #[trigger] branches[m])) ==> {
                &&& item.base == base_branch
                &&& item.commands.len() == 2
            }
        }),
{
    lemma_placed(p, branches, open, base_branch, n, i);
    lemma_closest(branches, open, j, i);
}

/// So it is on Gitea, where only the branch itself is pushed.
pub proof fn law_push_plan(
    p: Seq<PatchView>,
    branches: Seq<Seq<char>>,
    open: Seq<(Seq<char>, u32)>,
    n: int,
    i: int,
)
    requires
        0 <= i < n <= p.len(),
        is_open(open, branches[i]),
    ensures
        ({
            let plan = gitea::push_items(p, branches, open, n);
            let at = open_below(branches, open, i) as int;
            &&& plan.len() == open_below(branches, open, n)
            &&& at < plan.len()
            &&& plan[at].branch == branches[i]
            &&& plan[at].commands.len() == 2
            &&& brings_up(plan[at].commands, 0, branches[i], p[i].hash)
        }),
{
    lemma_placed(p, branches, open, seq![], n, i);
}

/// What a branch that is new is stacked on when it is submitted: the closest branch below it
/// with an open review, which is brought up first, or else the base of the stack.
pub proof fn law_base_choice(
    p: Seq<PatchView>,
    branches: Seq<Seq<char>>,
    open: Seq<(Seq<char>, u32)>,
    base_branch: Seq<char>,
    i: int,
    j: int,
)
    ensures
        ({
            let choice = ops::base_choice(p, branches, open, base_branch, i);
            &&& is_closest(branches, open, j, i) ==> {
                &&& choice.base == branches[j]
                &&& choice.commands.len() == 2
                &&& brings_up(choice.commands, 0, branches[j], p[j].hash)
            }
            &&& (forall|m: int| 0 <= m < i ==> !is_open(open, #[trigger] branches[m])) ==> {
                &&& choice.base == base_branch
                &&& choice.commands.len() == 0
            }
        }),
{
    lemma_closest(branches, open, j, i);
}

/// A sync begins by fetching what is on the remote, and asks for the base of the stack before
/// it asks the platform which reviews are open.
pub proof fn law_sync_begins(
    f: ForgeView,
    patches: Seq<PatchView>,
    branches: Seq<Seq<char>>,
    fetched: Result<Seq<char>, Seq<char>>,
    base: Seq<char>,
)
    requires
        f is GitHub || f is GitLab,
    ensures
        ({
            let (o0, a0) = operation::syncing_all(f, patches, branches);
            let (o1, a1) = operation::operation_step(o0, ReplyView::Answer(fetched));
            let (o2, a2) = operation::operation_step(o1, ReplyView::Answer(Ok(base)));
            let (o3, a3) = operation::operation_step(o2, ReplyView::Nothing);
            &&& a0 == AskView::Progress("Fetching latest from origin..."@, seq!["fetch"@, "origin"@])
            &&& a1 == AskView::Base
            &&& a2 is Say
            &&& match a3 {
                AskView::Run(c) => if f is GitHub {
                    c.program == "gh"@ && c.args.len() > 3 && c.args[0] == "pr"@ && c.args[1]
                        == "list"@ && c.args[2] == "--state"@ && c.args[3] == "open"@
                } else {
                    c.program == "glab"@ && c.args.len() > 1 && c.args[0] == "mr"@ && c.args[1]
                        == "list"@
                },
                _ => false,
            }
            &&& match o3 {
                OperationView::Syncing(s) => {
                    &&& s.patches == patches
                    &&& s.branches == branches
                    &&& s.base == base
                    &&& s.stage == Stage::List
                    &&& s.updates.len() == 0
                },
                _ => false,
            }
        }),
{
}

/// Nothing is synced with a command of the user's.
pub proof fn law_custom_sync(template: Seq<char>, patches: Seq<PatchView>, branches: Seq<Seq<char>>)
    ensures
        ({
            let (o0, a0) = operation::syncing_all(ForgeView::Custom(template), patches, branches);
            let (o1, a1) = operation::operation_step(o0, ReplyView::Nothing);
            &&& a0 is Say
            &&& a1 == AskView::Done(Ok(Seq::<Seq<char>>::empty()))
        }),
{
}

/// Once the open reviews are known, each branch of the stack that has one is in the plan, at
/// the place that its open predecessors leave it, and its own commit is what it is brought up
/// to. Where nothing is open below it, its review belongs on the stack's base, without the
/// name of the remote.
pub proof fn law_sync_planned(s: SyncingView, reply: ReplyView, i: int)
    requires
        s.stage == Stage::List,
        s.kind == ForgeKind::GitHub || s.kind == ForgeKind::GitLab,
        listing::listing_step(s.listing, reply).1 is None,
        s.branches.len() == s.patches.len(),
        0 <= i < s.patches.len(),
        is_open(
            review::numbers(listing::listing_step(s.listing, reply).0.reviews),
            s.branches[i],
        ),
    ensures
        ({
            let open = review::numbers(listing::listing_step(s.listing, reply).0.reviews);
            let n = syncing::syncing_step(s, reply).0;
            let at = open_below(s.branches, open, i) as int;
            &&& at < n.plan.len()
            &&& n.plan.len() == open_below(s.branches, open, s.branches.len() as int)
            &&& n.plan[at].branch == s.branches[i]
            &&& brings_up(
                n.plan[at].commands,
                n.plan[at].commands.len() - 2,
                s.branches[i],
                s.patches[i].hash,
            )
            &&& n.at == 0
            &&& n.stage == Stage::Item
            &&& syncing::syncing_step(s, reply).1 == AskView::Say(n.plan[0].progress)
            &&& (forall|m: int| 0 <= m < i ==> !is_open(open, #[trigger] s.branches[m]))
                && "origin/"@.is_prefix_of(s.base) ==> "origin/"@ + n.plan[at].base == s.base
        }),
{
    let open = review::numbers(listing::listing_step(s.listing, reply).0.reviews);
    let base = ops::plain_base(s.base);
    law_sync_plan(s.patches, s.branches, open, base, s.patches.len() as int, i, 0);
    if "origin/"@.is_prefix_of(s.base) {
        assert("origin/"@ + base =~= s.base);
    }
}

/// The commands of an item are run one after the other, each once, whatever git answers.
pub proof fn law_sync_in_order(s: SyncingView, a: Result<Seq<char>, Seq<char>>)
    requires
        s.at < s.plan.len(),
    ensures
        ({
            let commands = s.plan[s.at as int].commands;
            &&& s.stage == Stage::Item && commands.len() > 0 ==> {
                let (n, ask) = syncing::syncing_step(s, ReplyView::Nothing);
                &&& ask == AskView::Git(commands[0])
                &&& n.stage == Stage::Command
                &&& n.command == 0
                &&& n.at == s.at
                &&& n.plan == s.plan
            }
            &&& s.stage == Stage::Command && s.command + 1 < commands.len() ==> {
                let (n, ask) = syncing::syncing_step(s, ReplyView::Answer(a));
                &&& ask == AskView::Git(commands[s.command as int + 1])
                &&& n.stage == Stage::Command
                &&& n.command == s.command + 1
                &&& n.at == s.at
                &&& n.plan == s.plan
            }
        }),
{
}

/// After the last of them, GitHub is asked for the number of the branch's review, which is
/// then put on the item's base, and the next item is taken up; what is told of the item names
/// the branch and the base.
pub proof fn law_sync_github_base(
    s: SyncingView,
    a: Result<Seq<char>, Seq<char>>,
    told: Seq<char>,
    good: Seq<char>,
)
    requires
        s.at < s.plan.len(),
        s.kind == ForgeKind::GitHub,
        s.stage == Stage::Command,
        s.command + 1 == s.plan[s.at as int].commands.len(),
    ensures
        ({
            let item = s.plan[s.at as int];
            let (s1, a1) = syncing::syncing_step(s, ReplyView::Answer(a));
            let number = RanView::Ended { success: true, stdout: told, stderr: seq![] };
            let (s2, a2) = syncing::syncing_step(s1, ReplyView::Ran(number));
            let last = RanView::Ended { success: true, stdout: good, stderr: seq![] };
            let (s3, a3) = syncing::syncing_step(s2, ReplyView::Ran(last));
            &&& match a1 {
                AskView::Run(c) => submitting::asks_number(c, item.branch),
                _ => false,
            }
            &&& match a2 {
                AskView::Run(c) => submitting::asks_base(
                    c,
                    if chars::trim(told).len() > 0 {
                        chars::trim(told)
                    } else {
                        item.branch
                    },
                    item.base,
                ),
                _ => false,
            }
            &&& s3.updates == s.updates.push("✓"@ + " "@ + item.branch + " → "@ + item.base)
            &&& if s.at + 1 < s.plan.len() {
                &&& a3 == AskView::Say(s.plan[s.at as int + 1].progress)
                &&& s3.at == s.at + 1
                &&& s3.stage == Stage::Item
                &&& s3.plan == s.plan
            } else {
                a3 == AskView::Done(Ok(s3.updates))
            }
        }),
{
    let item = s.plan[s.at as int];
    let (s1, a1) = syncing::syncing_step(s, ReplyView::Answer(a));
    let number = RanView::Ended { success: true, stdout: told, stderr: seq![] };
    let (s2, a2) = syncing::syncing_step(s1, ReplyView::Ran(number));
    let named = if chars::trim(told).len() > 0 {
        chars::trim(told)
    } else {
        item.branch
    };
    assert(a2 matches AskView::Run(c) && c.args =~= seq![
        "pr"@,
        "edit"@,
        named,
        "--base"@,
        item.base,
    ]);
    let last = RanView::Ended { success: true, stdout: good, stderr: seq![] };
    let (e, ask) = base_edit::edit_step(s2.edit, ReplyView::Ran(last));
    assert(ask is None && e.edited);
}

/// On Gitea the next item is taken up at once, and the push is told.
pub proof fn law_sync_gitea_next(s: SyncingView, a: Result<Seq<char>, Seq<char>>)
    requires
        s.at < s.plan.len(),
        s.kind == ForgeKind::Gitea,
        s.stage == Stage::Command,
        s.command + 1 == s.plan[s.at as int].commands.len(),
    ensures
        ({
            let (n, ask) = syncing::syncing_step(s, ReplyView::Answer(a));
            &&& n.updates == s.updates.push("✓ "@ + s.plan[s.at as int].branch + " pushed"@)
            &&& if s.at + 1 < s.plan.len() {
                &&& ask == AskView::Say(s.plan[s.at as int + 1].progress)
                &&& n.at == s.at + 1
                &&& n.stage == Stage::Item
            } else {
                ask == AskView::Done(Ok(n.updates))
            }
        }),
{
}

/// As many reviews are told of as items were dealt with, and none is left out: a sync that
/// ends well once the plan is made ends after the last item.
pub proof fn law_sync_tells_all(s: SyncingView, reply: ReplyView)
    requires
        s.stage == Stage::Item || s.stage == Stage::Command || s.stage == Stage::Edit,
        s.at < s.plan.len(),
        s.updates.len() == s.at,
    ensures
        ({
            let (n, ask) = syncing::syncing_step(s, reply);
            &&& n.plan == s.plan
            &&& match ask {
                AskView::Done(Ok(told)) => told == n.updates && told.len() == s.plan.len(),
                AskView::Done(Err(e)) => true,
                _ => n.at < n.plan.len() && n.updates.len() == n.at,
            }
        }),
{
}

} // verus!
