//! Reviews that stand on branches: which are open, which commits they belong to, and
//! how they are brought up to date.
use vstd::prelude::*;

use crate::git::ops;
use crate::git::ops::{closest_base, refresh_commands};
use crate::stack;
use crate::stack::{PatchEntry, PatchStatus, PatchView};
use crate::strmap;
use crate::strmap::StrMap;
use crate::text::chars::{concat3, concat5, copy_opt};
use crate::text::views;

verus! {

broadcast use views::group_views;

/// An open review.
pub struct Review {
    pub number: u32,
    pub url: Option<String>,
}

/// An open review as it is seen in contracts.
pub struct ReviewView {
    pub number: u32,
    pub url: Option<Seq<char>>,
}

impl View for Review {
    type V = ReviewView;

    open spec fn view(&self) -> ReviewView {
        ReviewView { number: self.number, url: views::opt(self.url) }
    }
}

/// The open reviews' numbers.
pub open spec fn numbers(t: Seq<(Seq<char>, ReviewView)>) -> Seq<(Seq<char>, u32)> {
    t.map_values(|e: (Seq<char>, ReviewView)| (e.0, e.1.number))
}

/// The open reviews' numbers.
pub fn review_numbers(reviews: &StrMap<Review>) -> (r: StrMap<u32>)
    ensures
        r@ == numbers(reviews@),
{
    let mut entries: Vec<(String, u32)> = Vec::new();
    let mut i: usize = 0;
    while i < reviews.entries.len()
        invariant
            i <= reviews.entries@.len(),
            strmap::pairs(entries@) == numbers(reviews@).take(i as int),
        decreases reviews.entries.len() - i,
    {
        let ghost before = strmap::pairs(entries@);
        entries.push((reviews.entries[i].0.clone(), reviews.entries[i].1.number));
        proof {
            assert(strmap::pairs(entries@) =~= before.push(numbers(reviews@)[i as int]));
            assert(numbers(reviews@).take(i + 1) =~= numbers(reviews@).take(i as int).push(
                numbers(reviews@)[i as int],
            ));
        }
        i += 1;
    }
    proof {
        assert(numbers(reviews@).take(i as int) =~= numbers(reviews@));
    }
    StrMap { entries }
}

/// An entry marked as submitted where its branch is under review: listed as open
/// where the platform could be asked, or else there at all.
pub open spec fn marked(
    e: PatchView,
    branch: Seq<char>,
    review: Option<ReviewView>,
    available: bool,
    there: bool,
) -> PatchView {
    if available {
        match review {
            Some(r) => PatchView {
                status: PatchStatus::Submitted,
                pr_branch: Some(branch),
                pr_number: Some(r.number),
                pr_url: match r.url {
                    Some(u) => Some(u),
                    None => e.pr_url,
                },
                ..e
            },
            None => e,
        }
    } else if there {
        PatchView { status: PatchStatus::Submitted, pr_branch: Some(branch), ..e }
    } else {
        e
    }
}

/// The entries, each marked as submitted where its branch is under review.
pub open spec fn all_marked(
    p: Seq<PatchView>,
    branches: Seq<Seq<char>>,
    reviews: Seq<(Seq<char>, ReviewView)>,
    available: bool,
    there: Seq<bool>,
) -> Seq<PatchView> {
    Seq::new(
        p.len(),
        |i: int|
            marked(
                p[i],
                branches[i],
                strmap::lookup(reviews, branches[i]),
                available,
                there[i],
            ),
    )
}

/// Mark submitted patches based on open reviews. `there` tells which branches exist;
/// it counts only where the platform could not be asked.
pub fn mark_submitted(
    patches: &mut Vec<PatchEntry>,
    branches: &Vec<String>,
    reviews: &StrMap<Review>,
    available: bool,
    there: &[bool],
)
    requires
        branches@.len() == old(patches)@.len(),
        there@.len() == old(patches)@.len(),
    ensures
        stack::patches(final(patches)@) == all_marked(
            stack::patches(old(patches)@),
            views::strs(branches@),
            reviews@,
            available,
            there@,
        ),
{
    let ghost p = stack::patches(patches@);
    let ghost bs = views::strs(branches@);
    let ghost all = all_marked(p, bs, reviews@, available, there@);
    let n: usize = patches.len();
    let mut i: usize = 0;
    while i < n
        invariant
            i <= n == patches@.len() == p.len(),
            branches@.len() == n,
            there@.len() == n,
            bs == views::strs(branches@),
            all == all_marked(p, bs, reviews@, available, there@),
            forall|j: int| 0 <= j < i ==> (#[trigger] patches@[j])@ == all[j],
            forall|j: int| i <= j < n ==> (#[trigger] patches@[j])@ == p[j],
        decreases n - i,
    {
        proof {
            assert(bs[i as int] == branches@[i as int]@);
        }
        let mut e = patches[i].clone();
        if available {
            if let Some(r) = reviews.get(branches[i].as_str()) {
                e.status = PatchStatus::Submitted;
                e.pr_branch = Some(branches[i].clone());
                e.pr_number = Some(r.number);
                if r.url.is_some() {
                    e.pr_url = copy_opt(&r.url);
                }
            }
        } else if there[i] {
            e.status = PatchStatus::Submitted;
            e.pr_branch = Some(branches[i].clone());
        }
        proof {
            assert(e@ == all[i as int]);
        }
        patches.set(i, e);
        i += 1;
    }
    proof {
        assert(stack::patches(patches@) =~= all);
    }
}

/// One review to bring up to date.
pub struct SyncItem {
    /// What is said of it.
    pub progress: String,
    /// The git commands to run, whatever they answer.
    pub commands: Vec<Vec<String>>,
    pub branch: String,
    /// The base that the review is to have.
    pub base: String,
}

/// One review to bring up to date, as it is seen in contracts.
#[verifier::ext_equal]
pub struct SyncItemView {
    pub progress: Seq<char>,
    pub commands: Seq<Seq<Seq<char>>>,
    pub branch: Seq<char>,
    pub base: Seq<char>,
}

impl View for SyncItem {
    type V = SyncItemView;

    open spec fn view(&self) -> SyncItemView {
        SyncItemView {
            progress: self.progress@,
            commands: views::lists(self.commands@),
            branch: self.branch@,
            base: self.base@,
        }
    }
}

/// The items that a vector holds.
pub open spec fn items(v: Seq<SyncItem>) -> Seq<SyncItemView> {
    v.map_values(|i: SyncItem| i@)
}

/// What is done for the open review of the commit at `i`: the branch of its base is
/// refreshed, then its own, and then its base is set.
pub open spec fn sync_item(
    p: Seq<PatchView>,
    branches: Seq<Seq<char>>,
    open: Seq<(Seq<char>, u32)>,
    base_branch: Seq<char>,
    i: int,
) -> SyncItemView {
    let choice = ops::base_choice(p, branches, open, base_branch, i);
    SyncItemView {
        progress: "Syncing: "@ + p[i].subject + " ..."@,
        commands: choice.commands + ops::refresh(branches[i], p[i].hash),
        branch: branches[i],
        base: choice.base,
    }
}

/// What is done for the open reviews of the first `n` commits, oldest first.
pub open spec fn sync_items(
    p: Seq<PatchView>,
    branches: Seq<Seq<char>>,
    open: Seq<(Seq<char>, u32)>,
    base_branch: Seq<char>,
    n: int,
) -> Seq<SyncItemView>
    decreases n,
{
    if n <= 0 {
        seq![]
    } else {
        let before = sync_items(p, branches, open, base_branch, n - 1);
        if strmap::lookup(open, branches[n - 1]) is Some {
            before.push(sync_item(p, branches, open, base_branch, n - 1))
        } else {
            before
        }
    }
}

/// Appends commands.
fn extend(v: &mut Vec<Vec<String>>, more: Vec<Vec<String>>)
    ensures
        views::lists(final(v)@) == views::lists(old(v)@) + views::lists(more@),
{
    let ghost before = views::lists(v@);
    let mut more = more;
    let ghost all = more@;
    v.append(&mut more);
    proof {
        assert(views::lists(v@) =~= before + views::lists(all));
    }
}

/// What is done for the open reviews of a stack, oldest first.
pub fn plan_sync(
    patches: &Vec<PatchEntry>,
    branches: &Vec<String>,
    open_prs: &StrMap<u32>,
    base_branch: &str,
) -> (r: Vec<SyncItem>)
    requires
        branches@.len() == patches@.len(),
    ensures
        items(r@) == sync_items(
            stack::patches(patches@),
            views::strs(branches@),
            open_prs@,
            base_branch@,
            patches@.len() as int,
        ),
{
    let ghost p = stack::patches(patches@);
    let ghost bs = views::strs(branches@);
    let mut plan: Vec<SyncItem> = Vec::new();
    let mut i: usize = 0;
    proof {
        assert(items(plan@) =~= Seq::<SyncItemView>::empty());
    }
    while i < patches.len()
        invariant
            i <= patches@.len(),
            branches@.len() == patches@.len(),
            p == stack::patches(patches@),
            bs == views::strs(branches@),
            items(plan@) == sync_items(p, bs, open_prs@, base_branch@, i as int),
        decreases patches.len() - i,
    {
        proof {
            assert(bs[i as int] == branches@[i as int]@);
            assert(p[i as int] == patches@[i as int]@);
        }
        if open_prs.contains_key(branches[i].as_str()) {
            let choice = closest_base(patches, branches, i, open_prs, base_branch);
            let mut commands = choice.commands;
            let own = refresh_commands(branches[i].as_str(), patches[i].hash.as_str());
            extend(&mut commands, own);
            let ghost before = items(plan@);
            let item = SyncItem {
                progress: concat3("Syncing: ", patches[i].subject.as_str(), " ..."),
                commands,
                branch: branches[i].clone(),
                base: choice.base,
            };
            proof {
                assert(item@ =~= sync_item(p, bs, open_prs@, base_branch@, i as int));
            }
            plan.push(item);
            proof {
                assert(items(plan@) =~= before.push(item@));
            }
        }
        i += 1;
    }
    plan
}

/// What is said of a review that was brought up to date; `edited` tells whether its
/// base could be set.
pub open spec fn update_line(edited: bool, branch: Seq<char>, base: Seq<char>) -> Seq<char> {
    (if edited {
        "✓"@
    } else {
        "⚠"@
    }) + " "@ + branch + " → "@ + base
}

/// What is said of a review that was brought up to date.
pub fn sync_update(edited: bool, branch: &str, base: &str) -> (r: String)
    ensures
        r@ == update_line(edited, branch@, base@),
{
    let mark = if edited {
        "✓"
    } else {
        "⚠"
    };
    concat5(mark, " ", branch, " → ", base)
}

/// Every open review of the stack is brought up to date, each on the closest open
/// branch below it, or on the stack's base.
pub proof fn law_sync_covers(
    p: Seq<PatchView>,
    branches: Seq<Seq<char>>,
    open: Seq<(Seq<char>, u32)>,
    base_branch: Seq<char>,
    n: int,
    i: int,
)
    requires
        0 <= i < n <= p.len(),
        strmap::lookup(open, branches[i]) is Some,
    ensures
        sync_items(p, branches, open, base_branch, n).contains(
            sync_item(p, branches, open, base_branch, i),
        ),
    decreases n,
{
    let all = sync_items(p, branches, open, base_branch, n);
    let before = sync_items(p, branches, open, base_branch, n - 1);
    let item = sync_item(p, branches, open, base_branch, i);
    if i == n - 1 {
        assert(all[all.len() - 1] == item);
    } else {
        law_sync_covers(p, branches, open, base_branch, n - 1, i);
        let k = choose|k: int| 0 <= k < before.len() && before[k] == item;
        assert(all[k] == item);
    }
}

} // verus!
