//! What was last pushed, and whether someone else has pushed since.
use vstd::prelude::*;

use super::json;
use super::json::{read_table, write_table};
use super::ForgeKind;
use crate::config;
use crate::config::join_path;
use crate::stack;
use crate::stack::{PatchEntry, PatchStatus, PatchView};
use crate::strmap;
use crate::strmap::StrMap;
use crate::text::args::args;
use crate::text::chars;
use crate::text::chars::{concat2, concat3, same, trimmed};
use crate::text::number;
use crate::text::number::decimal;
use crate::text::views;

verus! {

broadcast use views::group_views;

/// Where the state is kept.
pub fn sync_state_path(workdir: &str) -> (r: String)
    ensures
        r@ == config::path_under(workdir@, ".git/pgit-sync-state.json"@),
{
    join_path(workdir, ".git/pgit-sync-state.json")
}

/// The state that a text holds: none where it cannot be read.
pub open spec fn state_of(content: Option<Seq<char>>) -> Seq<(Seq<char>, Seq<char>)> {
    match content {
        Some(t) => match json::json_table(t) {
            Some(m) => m,
            None => seq![],
        },
        None => seq![],
    }
}

/// Read sync state, given the content of .git/pgit-sync-state.json.
pub fn read_sync_state(content: Option<&str>) -> (r: StrMap<String>)
    ensures
        r@ == state_of(
            match content {
                Some(t) => Some(t@),
                None => None,
            },
        ),
        strmap::distinct_keys(r@),
{
    let entries = match content {
        Some(t) => match read_table(t) {
            Some(v) => v,
            None => Vec::new(),
        },
        None => Vec::new(),
    };
    let r = StrMap { entries };
    proof {
        assert(r@ =~= views::pairs(entries@));
    }
    r
}

/// The content to write to .git/pgit-sync-state.json. It reads back as the state.
pub fn write_sync_state(state: &StrMap<String>) -> (r: Option<String>)
    requires
        strmap::distinct_keys(state@),
    ensures
        match r {
            Some(t) => forall|k: Seq<char>|
                #[trigger] strmap::lookup(state_of(Some(t@)), k) == strmap::lookup(state@, k),
            None => false,
        },
{
    proof {
        assert(state@ =~= views::pairs(state.entries@));
    }
    write_table(&state.entries)
}

/// The remote's branch for a local one.
pub open spec fn remote_of(branch: Seq<char>) -> Seq<char> {
    "origin/"@ + branch
}

/// The command that tells what the remote's branch points at.
pub fn remote_args(branch: &str) -> (r: Vec<String>)
    ensures
        views::strs(r@) == seq!["rev-parse"@, remote_of(branch@)],
{
    let remote = concat2("origin/", branch);
    args(&["rev-parse", remote.as_str()])
}

/// The command that succeeds where the remote's branch is there.
pub fn remote_exists_args(branch: &str) -> (r: Vec<String>)
    ensures
        views::strs(r@) == seq!["rev-parse"@, "--verify"@, remote_of(branch@)],
{
    let remote = concat2("origin/", branch);
    args(&["rev-parse", "--verify", remote.as_str()])
}

/// The start of the names of temporary branches.
pub const TEMPORARY: &'static str = "pgit-temp-patch-";

/// The temporary branch onto which a revision is patched.
pub open spec fn patched_ref(id: u32) -> Seq<char> {
    TEMPORARY@ + "D"@ + number::dec(id as nat)
}

/// The temporary branch onto which a revision is patched.
pub fn patch_branch(id: u32) -> (r: String)
    ensures
        r@ == patched_ref(id),
{
    let n = decimal(id as u64);
    concat3(TEMPORARY, "D", n.as_str())
}

/// The ref to merge for a diverged branch.
pub open spec fn remote_ref(
    kind: ForgeKind,
    branch: Seq<char>,
    revision: Option<u32>,
    there: bool,
) -> Option<Seq<char>> {
    match (kind, revision) {
        (ForgeKind::Phabricator, Some(id)) => if there {
            Some(patched_ref(id))
        } else {
            None
        },
        (ForgeKind::Phabricator, None) => None,
        _ => if there {
            Some(remote_of(branch))
        } else {
            None
        },
    }
}

/// Get the remote ref to merge for a diverged branch, given whether it is there.
/// For Phabricator it is a temporary branch, onto which arc patches the revision, if there
/// is one; for the others it is origin/<branch>.
pub fn get_remote_ref(kind: ForgeKind, branch: &str, revision: Option<u32>, there: bool) -> (r:
    Option<String>)
    ensures
        views::opt(r) == remote_ref(kind, branch@, revision, there),
{
    if !there {
        return None;
    }
    match (kind, revision) {
        (ForgeKind::Phabricator, Some(id)) => Some(patch_branch(id)),
        (ForgeKind::Phabricator, None) => None,
        _ => Some(concat2("origin/", branch)),
    }
}

/// The texts of optional strings.
pub open spec fn opts(v: Seq<Option<String>>) -> Seq<Option<Seq<char>>> {
    v.map_values(|o: Option<String>| views::opt(o))
}

/// Whether the remote holds something for a submitted commit that was not pushed
/// from here: it has the branch, a push of it is on record, and the two differ.
pub open spec fn is_diverged(
    e: PatchView,
    branch: Seq<char>,
    remote: Option<Seq<char>>,
    saved: Seq<(Seq<char>, Seq<char>)>,
) -> bool {
    e.status == PatchStatus::Submitted && match (remote, strmap::lookup(saved, branch)) {
        (Some(r), Some(s)) => chars::trim(r) != s,
        _ => false,
    }
}

/// What is said of a commit whose branch has changed on the remote.
pub open spec fn divergence(e: PatchView, branch: Seq<char>) -> (Seq<char>, Seq<char>) {
    (branch, "Remote has newer changes for '"@ + e.subject + "'"@)
}

/// The branches among the first `n` that have changed on the remote, in their order,
/// each with what is said of it.
pub open spec fn diverged(
    p: Seq<PatchView>,
    branches: Seq<Seq<char>>,
    remotes: Seq<Option<Seq<char>>>,
    saved: Seq<(Seq<char>, Seq<char>)>,
    n: int,
) -> Seq<(Seq<char>, Seq<char>)>
    decreases n,
{
    if n <= 0 {
        seq![]
    } else {
        let before = diverged(p, branches, remotes, saved, n - 1);
        if is_diverged(p[n - 1], branches[n - 1], remotes[n - 1], saved) {
            before.push(divergence(p[n - 1], branches[n - 1]))
        } else {
            before
        }
    }
}

/// Check if any submitted PRs have been updated on the remote by someone else.
/// Returns a list of (branch_name, description) for diverged PRs.
/// Compares what the remote's branch points at (`remotes`, as git printed it, where the
/// branch is there) against what was last pushed. This ignores local edits — editing
/// a commit changes the stack hash but the saved hash still matches remote.
pub fn check_diverged(
    patches: &Vec<PatchEntry>,
    branches: &Vec<String>,
    remotes: &Vec<Option<String>>,
    saved: &StrMap<String>,
) -> (r: Vec<(String, String)>)
    requires
        branches@.len() == patches@.len(),
        remotes@.len() == patches@.len(),
    ensures
        views::pairs(r@) == diverged(
            stack::patches(patches@),
            views::strs(branches@),
            opts(remotes@),
            saved@,
            patches@.len() as int,
        ),
{
    let ghost p = stack::patches(patches@);
    let ghost bs = views::strs(branches@);
    let ghost rs = opts(remotes@);
    let mut found: Vec<(String, String)> = Vec::new();
    let mut i: usize = 0;
    while i < patches.len()
        invariant
            i <= patches@.len(),
            branches@.len() == patches@.len(),
            remotes@.len() == patches@.len(),
            p == stack::patches(patches@),
            bs == views::strs(branches@),
            rs == opts(remotes@),
            views::pairs(found@) == diverged(p, bs, rs, saved@, i as int),
        decreases patches.len() - i,
    {
        proof {
            assert(p[i as int] == patches@[i as int]@);
            assert(bs[i as int] == branches@[i as int]@);
            assert(rs[i as int] == views::opt(remotes@[i as int]));
        }
        if patches[i].status == PatchStatus::Submitted {
            if let Some(remote) = &remotes[i] {
                if let Some(sent) = saved.get(branches[i].as_str()) {
                    let here = trimmed(remote.as_str());
                    if !same(here.as_str(), sent.as_str()) {
                        let text = concat3(
                            "Remote has newer changes for '",
                            patches[i].subject.as_str(),
                            "'",
                        );
                        found.push((branches[i].clone(), text));
                    }
                }
            }
        }
        i += 1;
    }
    found
}

/// The state after the first `n` commits' pushes are put on record: what the remote
/// holds for each submitted one.
pub open spec fn recorded(
    p: Seq<PatchView>,
    branches: Seq<Seq<char>>,
    remotes: Seq<Option<Seq<char>>>,
    state: Seq<(Seq<char>, Seq<char>)>,
    n: int,
) -> Seq<(Seq<char>, Seq<char>)>
    decreases n,
{
    if n <= 0 {
        state
    } else {
        let before = recorded(p, branches, remotes, state, n - 1);
        match remotes[n - 1] {
            Some(r) => if p[n - 1].status == PatchStatus::Submitted {
                strmap::put(before, branches[n - 1], chars::trim(r))
            } else {
                before
            },
            None => before,
        }
    }
}

/// Save sync state after a successful push.
/// Stores the hash that the remote has for each submitted branch.
pub fn save_sync_state(
    state: StrMap<String>,
    patches: &Vec<PatchEntry>,
    branches: &Vec<String>,
    remotes: &Vec<Option<String>>,
) -> (r: StrMap<String>)
    requires
        branches@.len() == patches@.len(),
        remotes@.len() == patches@.len(),
        strmap::distinct_keys(state@),
    ensures
        r@ == recorded(
            stack::patches(patches@),
            views::strs(branches@),
            opts(remotes@),
            state@,
            patches@.len() as int,
        ),
        strmap::distinct_keys(r@),
{
    let ghost p = stack::patches(patches@);
    let ghost bs = views::strs(branches@);
    let ghost rs = opts(remotes@);
    let ghost old = state@;
    let mut state = state;
    let mut i: usize = 0;
    while i < patches.len()
        invariant
            i <= patches@.len(),
            branches@.len() == patches@.len(),
            remotes@.len() == patches@.len(),
            p == stack::patches(patches@),
            bs == views::strs(branches@),
            rs == opts(remotes@),
            state@ == recorded(p, bs, rs, old, i as int),
            strmap::distinct_keys(state@),
        decreases patches.len() - i,
    {
        proof {
            assert(p[i as int] == patches@[i as int]@);
            assert(bs[i as int] == branches@[i as int]@);
            assert(rs[i as int] == views::opt(remotes@[i as int]));
        }
        if patches[i].status == PatchStatus::Submitted {
            if let Some(remote) = &remotes[i] {
                proof {
                    strmap::law_keys_distinct(state@, bs[i as int], chars::trim(remote@));
                }
                state.insert(branches[i].clone(), trimmed(remote.as_str()));
            }
        }
        i += 1;
    }
    state
}

/// What is on record for the branch of a submitted commit.
proof fn lemma_recorded(
    p: Seq<PatchView>,
    branches: Seq<Seq<char>>,
    remotes: Seq<Option<Seq<char>>>,
    state: Seq<(Seq<char>, Seq<char>)>,
    n: int,
    i: int,
)
    requires
        0 <= i < n <= p.len(),
        branches.len() == p.len(),
        remotes.len() == p.len(),
        forall|a: int, b: int|
            0 <= a < p.len() && 0 <= b < p.len() && #[trigger] branches[a] == #[trigger] branches[b]
                ==> remotes[a] == remotes[b],
        p[i].status == PatchStatus::Submitted,
        remotes[i] is Some,
    ensures
        strmap::lookup(recorded(p, branches, remotes, state, n), branches[i]) == Some(
            chars::trim(remotes[i]->0),
        ),
    decreases n,
{
    let before = recorded(p, branches, remotes, state, n - 1);
    if i < n - 1 {
        lemma_recorded(p, branches, remotes, state, n - 1, i);
    }
    if remotes[n - 1] is Some && p[n - 1].status == PatchStatus::Submitted {
        strmap::law_put_lookup(
            before,
            branches[n - 1],
            chars::trim(remotes[n - 1]->0),
            branches[i],
        );
    }
}

/// After the pushes are put on record, no commit counts as changed by someone else, as
/// long as the remote stays as it is.
pub proof fn law_recorded_not_diverged(
    p: Seq<PatchView>,
    branches: Seq<Seq<char>>,
    remotes: Seq<Option<Seq<char>>>,
    state: Seq<(Seq<char>, Seq<char>)>,
)
    requires
        branches.len() == p.len(),
        remotes.len() == p.len(),
        forall|a: int, b: int|
            0 <= a < p.len() && 0 <= b < p.len() && #[trigger] branches[a] == #[trigger] branches[b]
                ==> remotes[a] == remotes[b],
    ensures
        diverged(
            p,
            branches,
            remotes,
            recorded(p, branches, remotes, state, p.len() as int),
            p.len() as int,
        ) == Seq::<(Seq<char>, Seq<char>)>::empty(),
{
    let saved = recorded(p, branches, remotes, state, p.len() as int);
    assert forall|i: int| 0 <= i < p.len() implies !is_diverged(
        #[trigger] p[i],
        branches[i],
        remotes[i],
        saved,
    ) by {
        if p[i].status == PatchStatus::Submitted && remotes[i] is Some {
            lemma_recorded(p, branches, remotes, state, p.len() as int, i);
        }
    }
    lemma_none_diverged(p, branches, remotes, saved, p.len() as int);
}

/// Where no commit counts as changed, none is listed.
proof fn lemma_none_diverged(
    p: Seq<PatchView>,
    branches: Seq<Seq<char>>,
    remotes: Seq<Option<Seq<char>>>,
    saved: Seq<(Seq<char>, Seq<char>)>,
    n: int,
)
    requires
        0 <= n <= p.len(),
        forall|i: int|
            0 <= i < p.len() ==> !is_diverged(#[trigger] p[i], branches[i], remotes[i], saved),
    ensures
        diverged(p, branches, remotes, saved, n) == Seq::<(Seq<char>, Seq<char>)>::empty(),
    decreases n,
{
    if n > 0 {
        assert(!is_diverged(p[n - 1], branches[n - 1], remotes[n - 1], saved));
        lemma_none_diverged(p, branches, remotes, saved, n - 1);
    }
}

/// A commit whose branch has changed on the remote since the last push on record is
/// listed.
pub proof fn law_diverged_listed(
    p: Seq<PatchView>,
    branches: Seq<Seq<char>>,
    remotes: Seq<Option<Seq<char>>>,
    saved: Seq<(Seq<char>, Seq<char>)>,
    n: int,
    i: int,
)
    requires
        0 <= i < n <= p.len(),
    ensures
        is_diverged(p[i], branches[i], remotes[i], saved) ==> diverged(
            p,
            branches,
            remotes,
            saved,
            n,
        ).contains(divergence(p[i], branches[i])),
    decreases n,
{
    let all = diverged(p, branches, remotes, saved, n);
    let before = diverged(p, branches, remotes, saved, n - 1);
    if is_diverged(p[i], branches[i], remotes[i], saved) {
        if i == n - 1 {
            assert(all[all.len() - 1] == divergence(p[i], branches[i]));
        } else {
            law_diverged_listed(p, branches, remotes, saved, n - 1, i);
            let k = choose|k: int|
                0 <= k < before.len() && before[k] == divergence(p[i], branches[i]);
            assert(all[k] == before[k]);
        }
    }
}

/// Editing commits here changes nothing of what is listed: hashes, bodies and dates do
/// not count.
pub proof fn law_local_edits_ignored(
    p: Seq<PatchView>,
    q: Seq<PatchView>,
    branches: Seq<Seq<char>>,
    remotes: Seq<Option<Seq<char>>>,
    saved: Seq<(Seq<char>, Seq<char>)>,
    n: int,
)
    requires
        0 <= n <= p.len() == q.len(),
        forall|i: int|
            0 <= i < p.len() ==> (#[trigger] p[i]).subject == q[i].subject && p[i].status
                == q[i].status,
    ensures
        diverged(p, branches, remotes, saved, n) == diverged(q, branches, remotes, saved, n),
    decreases n,
{
    if n > 0 {
        assert(p[n - 1].subject == q[n - 1].subject);
        law_local_edits_ignored(p, q, branches, remotes, saved, n - 1);
    }
}

/// What is diverged, and what is put on record, rests on the branches of the submitted
/// commits alone.
pub proof fn law_only_submitted_named(
    p: Seq<PatchView>,
    a: Seq<Seq<char>>,
    b: Seq<Seq<char>>,
    remotes: Seq<Option<Seq<char>>>,
    saved: Seq<(Seq<char>, Seq<char>)>,
    n: int,
)
    requires
        n <= p.len(),
        forall|i: int|
            0 <= i < p.len() && (#[trigger] p[i]).status == PatchStatus::Submitted ==> a[i] == b[i],
    ensures
        diverged(p, a, remotes, saved, n) == diverged(p, b, remotes, saved, n),
        recorded(p, a, remotes, saved, n) == recorded(p, b, remotes, saved, n),
    decreases n,
{
    if n > 0 {
        law_only_submitted_named(p, a, b, remotes, saved, n - 1);
        assert(p[n - 1].status == PatchStatus::Submitted ==> a[n - 1] == b[n - 1]);
    }
}

} // verus!
