//! What submitting, updating, syncing and cleaning up do around the platform.
use vstd::prelude::*;

use super::rewriting;
use crate::git::ops;
use crate::stack::PatchView;
use crate::text::chars;
use crate::text::number;
use crate::tui::app::{AppView, ReloadedView, SuspendView};
use crate::tui::run;
use crate::tui::run::TaskView;
use crate::tui::task::cleanup;
use crate::tui::task::cleanup::CleanupView;
use crate::tui::task::submit;
use crate::tui::task::submit::SubmitView;
use crate::tui::task::sync;
use crate::tui::task::sync::SyncAllView;
use crate::tui::task::{AskView, EditedView, ReplyView};

verus! {

/// A submission asks for the state of the remote's branch first. Where the branch is there and
/// is not what was pushed last, nothing is submitted; otherwise the base for the commit's place
/// in the stack is determined.
pub proof fn law_submit_begins(
    a: AppView,
    hash: Seq<char>,
    subject: Seq<char>,
    index: usize,
    there: Option<Seq<char>>,
    pushed: Option<Seq<char>>,
)
    ensures
        ({
            let t0 = run::task_for(
                SuspendView::SubmitCommit { hash, subject, cursor_index: index },
            );
            let (a1, t1, w1, k1) = run::task_step(a, t0, ReplyView::Done(Ok(())));
            let (a2, t2, w2, k2) = run::task_step(a1, t1, ReplyView::Remote { there, pushed });
            let (a3, t3, w3, k3) = run::task_step(a2, t2, ReplyView::Nothing);
            let newer = there is Some && pushed is Some && chars::trim(there->0) != pushed->0;
            &&& k1 == AskView::RemoteState(subject)
            &&& !newer ==> k2 == AskView::DetermineBase(index)
            &&& newer ==> {
                &&& k2 == AskView::Enter
                &&& k3 == AskView::End(Ok(()))
                &&& rewriting::only_told(
                    a,
                    a3,
                    "Submit aborted — remote has newer changes. Press P to pull."@,
                )
            }
            &&& a2 == a
            &&& !newer ==> match t2 {
                TaskView::Submit(s) => {
                    &&& s.stage == submit::Stage::Base
                    &&& !s.update
                    &&& s.hash == hash
                    &&& s.subject == subject
                    &&& s.index == index
                },
                _ => false,
            }
        }),
{
}

/// Once the base is known, a description is written where the platform wants one, and the
/// commit is submitted on that base with the description, without white space around it.
pub proof fn law_submit_describes(
    a: AppView,
    s: SubmitView,
    base: Seq<char>,
    draft: Seq<char>,
    editor: Seq<char>,
    text: Seq<char>,
)
    requires
        s.stage == submit::Stage::Base,
        !s.update,
        a.forge.needs_description(),
    ensures
        ({
            let (a1, s1, w1, k1) = submit::submit_step(a, s, ReplyView::Text(base));
            let (a2, s2, w2, k2) = submit::submit_step(a1, s1, ReplyView::Text(draft));
            let (a3, s3, w3, k3) = submit::submit_step(a2, s2, ReplyView::Text(editor));
            let (a4, s4, w4, k4) = submit::submit_step(
                a3,
                s3,
                ReplyView::Edited(EditedView::Saved(text)),
            );
            &&& k1 == AskView::Draft(s.subject)
            &&& k2 == AskView::Editor
            &&& match k3 {
                AskView::Edit { name, content, editor: e } => content == draft && e == editor,
                _ => false,
            }
            &&& chars::trim(text).len() > 0 ==> k4 == AskView::Submit {
                hash: s.hash,
                subject: s.subject,
                base,
                body: chars::trim(text),
            } && a4 == a
            &&& chars::trim(text).len() == 0 ==> k4 == AskView::End(Ok(()))
                && rewriting::only_told(a, a4, "Empty description — submit cancelled."@)
        }),
{
}

/// Where none is wanted, the commit is submitted at once, without one.
pub proof fn law_submit_undescribed(a: AppView, s: SubmitView, base: Seq<char>)
    requires
        s.stage == submit::Stage::Base,
        !s.update,
        !a.forge.needs_description(),
    ensures
        submit::submit_step(a, s, ReplyView::Text(base)).3 == (AskView::Submit {
            hash: s.hash,
            subject: s.subject,
            base,
            body: Seq::empty(),
        }),
{
}

/// An update asks which reviews have diverged first. Where this one has, nothing is updated;
/// otherwise the base for the commit's place is determined, and the review is updated on it.
pub proof fn law_update_begins(
    a: AppView,
    hash: Seq<char>,
    subject: Seq<char>,
    index: usize,
    told: Seq<(Seq<char>, Seq<char>)>,
)
    ensures
        ({
            let t0 = run::task_for(SuspendView::UpdatePR { hash, subject, cursor_index: index });
            let (a1, t1, w1, k1) = run::task_step(a, t0, ReplyView::Done(Ok(())));
            let (a2, t2, w2, k2) = run::task_step(a1, t1, ReplyView::Diverged(Some(told)));
            &&& k1 == AskView::Diverged
            &&& k2 == AskView::BranchName(subject)
            &&& a2 == a
            &&& match t2 {
                TaskView::Submit(s) => {
                    &&& s.stage == submit::Stage::Name
                    &&& s.update
                    &&& s.hash == hash
                    &&& s.subject == subject
                    &&& s.index == index
                    &&& s.diverged.len() == told.len()
                    &&& forall|i: int|
                        0 <= i < told.len() ==> #[trigger] s.diverged[i] == told[i].0
                },
                _ => false,
            }
        }),
{
}

/// A review that has diverged, by its branch or by its revision, is not updated; another is.
pub proof fn law_update_checks(a: AppView, s: SubmitView, branch: Seq<char>, base: Seq<char>)
    requires
        s.stage == submit::Stage::Name,
        s.update,
        s.index < a.stack.patches.len(),
    ensures
        ({
            let (a1, s1, w1, k1) = submit::submit_step(a, s, ReplyView::Text(branch));
            let (a2, s2, w2, k2) = submit::submit_step(a1, s1, ReplyView::Text(base));
            let (a3, s3, w3, k3) = submit::submit_step(a1, s1, ReplyView::Nothing);
            let newer = s.diverged.contains(branch) || match a.stack.patches[s.index as int].pr_number {
                Some(n) => s.diverged.contains("D"@ + number::dec(n as nat)),
                None => false,
            };
            &&& newer ==> {
                &&& k1 == AskView::Enter
                &&& k3 == AskView::End(Ok(()))
                &&& rewriting::only_told(
                    a,
                    a3,
                    "Update aborted — remote has newer changes. Press P to pull."@,
                )
            }
            &&& !newer ==> {
                &&& k1 == AskView::DetermineBase(s.index)
                &&& k2 == AskView::Update { hash: s.hash, subject: s.subject, base }
            }
            &&& a1 == a
        }),
{
}

/// After a submission or an update that went well, the stack is read again, the state of the
/// remote is put on record, and what came of it is told; the history is left as it is. After
/// one that failed, only that is told.
pub proof fn law_review_told(
    a: AppView,
    s: SubmitView,
    outcome: Seq<char>,
    e: Seq<char>,
    p: Seq<PatchView>,
    head: Seq<char>,
    now: i64,
)
    requires
        s.stage == submit::Stage::Review,
        p.len() <= usize::MAX,
    ensures
        ({
            let (a1, s1, w1, k1) = submit::submit_step(a, s, ReplyView::Review(Ok(outcome)));
            let r = ReloadedView { commits: Ok(p), head, now };
            let (a2, s2, w2, k2) = submit::submit_step(a1, s1, ReplyView::Stack(r));
            let (a3, s3, w3, k3) = submit::submit_step(a2, s2, ReplyView::Nothing);
            let (a4, s4, w4, k4) = submit::submit_step(a, s, ReplyView::Review(Err(e)));
            &&& k1 == AskView::Reload
            &&& k2 == AskView::SaveState
            &&& k3 == AskView::Enter
            &&& rewriting::shows(a, a3, p)
            &&& a3.history == a.history
            &&& a3.notification == Some(outcome)
            &&& k4 == AskView::Enter
            &&& rewriting::only_told(
                a,
                a4,
                (if s.update {
                    "Update failed: "@
                } else {
                    "Submit failed: "@
                }) + e,
            )
        }),
{
}

/// A sync is refused where the remote has newer changes. Otherwise the dependencies are put in
/// order first, and the stack is read again.
pub proof fn law_sync_begins(a: AppView, told: Seq<(Seq<char>, Seq<char>)>, flag: bool)
    ensures
        ({
            let t0 = run::task_for(SuspendView::SyncPRs);
            let (a1, t1, w1, k1) = run::task_step(a, t0, ReplyView::Done(Ok(())));
            let (a2, t2, w2, k2) = run::task_step(a1, t1, ReplyView::Diverged(Some(told)));
            let (a3, t3, w3, k3) = run::task_step(a2, t2, ReplyView::Nothing);
            let (a4, t4, w4, k4) = run::task_step(a2, t2, ReplyView::Flag(flag));
            &&& k1 == AskView::Diverged
            &&& told.len() > 0 ==> {
                &&& k2 == AskView::Enter
                &&& k3 == AskView::End(Ok(()))
                &&& rewriting::only_told(
                    a,
                    a3,
                    "Sync aborted — remote has newer changes. Press P to pull."@,
                )
            }
            &&& told.len() == 0 ==> {
                &&& k2 == AskView::FixDependencies
                &&& k4 == AskView::Reload
                &&& a4 == a
            }
        }),
{
}

/// Then every review is synced on the stack's base, the stack is read again, the state of the
/// remote is put on record, and the number of reviews is told.
pub proof fn law_sync_told(
    a: AppView,
    s: SyncAllView,
    base: Seq<char>,
    lines: Seq<Seq<char>>,
    p: Seq<PatchView>,
    head: Seq<char>,
    now: i64,
)
    requires
        s.stage == sync::Stage::Base,
        lines.len() <= u64::MAX,
        p.len() <= usize::MAX,
    ensures
        ({
            let (a1, s1, w1, k1) = sync::sync_step(a, s, ReplyView::Answer(Ok(base)));
            let (a2, s2, w2, k2) = sync::sync_step(a1, s1, ReplyView::Synced(Some(Ok(lines))));
            let r = ReloadedView { commits: Ok(p), head, now };
            let (a3, s3, w3, k3) = sync::sync_step(a2, s2, ReplyView::Stack(r));
            let (a4, s4, w4, k4) = sync::sync_step(a3, s3, ReplyView::Nothing);
            &&& k1 == AskView::Sync
            &&& k2 == AskView::Reload
            &&& k3 == AskView::SaveState
            &&& k4 == AskView::Cleanup
            &&& rewriting::shows(a, a4, p)
            &&& a4.history == a.history
            &&& a4.notification == Some("Synced "@ + number::dec(lines.len()) + " PRs."@)
        }),
{
}

/// A sync that fails says so, and nothing is put on record.
pub proof fn law_sync_fails(a: AppView, s: SyncAllView, e: Seq<char>)
    requires
        s.stage == sync::Stage::Sync,
    ensures
        ({
            let (b, t, w, k) = sync::sync_step(a, s, ReplyView::Synced(Some(Err(e))));
            k == AskView::Cleanup && rewriting::only_told(a, b, "Sync failed: "@ + e)
        }),
{
}

/// The branches that a cleanup asks about are those that are stale and those that have landed,
/// none of them twice over.
pub proof fn law_cleanup_lists(stale: Seq<Seq<char>>, landed: Seq<Seq<char>>, n: int, b: Seq<char>)
    requires
        0 <= n <= landed.len(),
    ensures
        cleanup::united(stale, landed, n).contains(b) <==> stale.contains(b) || landed.take(
            n,
        ).contains(b),
        stale.no_duplicates() ==> cleanup::united(stale, landed, n).no_duplicates(),
    decreases n,
{
    let all = cleanup::united(stale, landed, n);
    if n > 0 {
        law_cleanup_lists(stale, landed, n - 1, b);
        law_cleanup_lists(stale, landed, n - 1, landed[n - 1]);
        let before = cleanup::united(stale, landed, n - 1);
        let last = landed[n - 1];
        assert(landed.take(n) =~= landed.take(n - 1).push(last));
        lemma_push(landed.take(n - 1), last, b);
        lemma_push(before, last, b);
        if !before.contains(last) && stale.no_duplicates() {
            assert forall|i: int, j: int|
                0 <= i < all.len() && 0 <= j < all.len() && i != j implies all[i] != all[j] by {
                if i < before.len() && j == before.len() {
                    assert(before[i] == all[i]);
                }
                if j < before.len() && i == before.len() {
                    assert(before[j] == all[j]);
                }
            }
        }
    } else {
        assert(landed.take(n) =~= Seq::<Seq<char>>::empty());
    }
}

proof fn lemma_push(s: Seq<Seq<char>>, x: Seq<char>, b: Seq<char>)
    ensures
        s.push(x).contains(b) <==> s.contains(b) || b == x,
{
    if s.contains(b) {
        let k = choose|k: int| 0 <= k < s.len() && s[k] == b;
        assert(s.push(x)[k] == b);
    }
    if b == x {
        assert(s.push(x)[s.len() as int] == b);
    }
    if s.push(x).contains(b) {
        let k = choose|k: int| 0 <= k < s.push(x).len() && s.push(x)[k] == b;
        if k < s.len() {
            assert(s[k] == b);
        }
    }
}

/// Each branch is deleted here and at the remote, in that order, one branch after the other.
pub proof fn law_deletes_both(branches: Seq<Seq<char>>, i: int)
    requires
        0 <= i < branches.len(),
    ensures
        ops::deletions(branches).len() == 2 * branches.len(),
        ops::deletions(branches)[2 * i] == seq!["branch"@, "-D"@, branches[i]],
        ops::deletions(branches)[2 * i + 1] == seq!["push"@, "origin"@, "--delete"@, branches[i]],
    decreases branches.len(),
{
    let most = branches.drop_last();
    lemma_deletions(most);
    if i < most.len() {
        law_deletes_both(most, i);
    }
}

proof fn lemma_deletions(branches: Seq<Seq<char>>)
    ensures
        ops::deletions(branches).len() == 2 * branches.len(),
    decreases branches.len(),
{
    if branches.len() > 0 {
        lemma_deletions(branches.drop_last());
    }
}

/// Nothing is deleted unless the user says yes, and then exactly what was asked about.
pub proof fn law_cleanup_asks(
    s: CleanupView,
    stale: Seq<Seq<char>>,
    landed: Seq<Seq<char>>,
    key: char,
)
    requires
        s.stage == cleanup::Stage::Stale,
        stale.len() > 0,
    ensures
        ({
            let (s1, w1, k1) = cleanup::cleanup_step(s, ReplyView::Stale { stale, landed });
            let (s2, w2, k2) = cleanup::cleanup_step(s1, ReplyView::Key(key));
            &&& k1 == AskView::Key
            &&& key == 'y' ==> match k2 {
                AskView::GitAll(commands) => {
                    &&& commands.len() == 2 * s1.stale.len()
                    &&& forall|i: int|
                        0 <= i < s1.stale.len() ==> commands[2 * i] == seq![
                            "branch"@,
                            "-D"@,
                            #[trigger] s1.stale[i],
                        ]
                },
                _ => false,
            }
            &&& key != 'y' ==> k2 == AskView::End(Ok(()))
        }),
{
    let all = cleanup::united(stale, landed, landed.len() as int);
    law_cleanup_lists(stale, landed, landed.len() as int, stale[0]);
    assert(stale.contains(stale[0]));
    lemma_deletions(all);
    assert forall|i: int| 0 <= i < all.len() implies ops::deletions(all)[2 * i] == seq![
        "branch"@,
        "-D"@,
        #[trigger] all[i],
    ] by {
        law_deletes_both(all, i);
    }
}

/// Where nothing is stale and nothing has landed, nothing is asked.
pub proof fn law_cleanup_quiet(s: CleanupView)
    requires
        s.stage == cleanup::Stage::Stale,
    ensures
        cleanup::cleanup_step(
            s,
            ReplyView::Stale { stale: seq![], landed: seq![] },
        ).2 == AskView::End(Ok(())),
{
}

/// A branch is stale if its review is no longer among the open ones, or if the base holds all
/// of it. Without a list of open reviews only the latter counts.
pub proof fn law_stale(
    local: Seq<Seq<char>>,
    open: Seq<(Seq<char>, u32)>,
    available: bool,
    in_base: Seq<bool>,
    i: int,
)
    requires
        0 <= i < local.len(),
        in_base.len() == local.len(),
        in_base[i] || (available && open.len() > 0 && forall|k: int|
            0 <= k < open.len() ==> (#[trigger] open[k]).0 != local[i]),
    ensures
        ops::stale_branches(local, open, available, in_base).contains(local[i]),
    decreases local.len(),
{
    let all = ops::stale_branches(local, open, available, in_base);
    let rest = ops::stale_branches(local.drop_last(), open, available, in_base);
    super::syncing::lemma_is_open(open, local[i]);
    if i < local.len() - 1 {
        lemma_stale_prefix(local.drop_last(), open, available, in_base, i);
        let k = choose|k: int| 0 <= k < rest.len() && rest[k] == local[i];
        assert(all[k] == local[i]);
    } else {
        assert(all[all.len() - 1] == local[i]);
    }
}

proof fn lemma_stale_prefix(
    local: Seq<Seq<char>>,
    open: Seq<(Seq<char>, u32)>,
    available: bool,
    in_base: Seq<bool>,
    i: int,
)
    requires
        0 <= i < local.len() <= in_base.len(),
        ops::is_stale(local[i], open, available, in_base[i]) || in_base[i] || (available
            && open.len() > 0 && !super::syncing::is_open(open, local[i])),
    ensures
        ops::stale_branches(local, open, available, in_base).contains(local[i]),
    decreases local.len(),
{
    super::syncing::lemma_is_open(open, local[i]);
    let all = ops::stale_branches(local, open, available, in_base);
    let rest = ops::stale_branches(local.drop_last(), open, available, in_base);
    if i < local.len() - 1 {
        lemma_stale_prefix(local.drop_last(), open, available, in_base, i);
        let k = choose|k: int| 0 <= k < rest.len() && rest[k] == local[i];
        assert(all[k] == local[i]);
    } else {
        assert(all[all.len() - 1] == local[i]);
    }
}

/// A branch with an open review is not stale unless the base holds all of it, and no branch is
/// stale that is not there.
pub proof fn law_not_stale(
    local: Seq<Seq<char>>,
    open: Seq<(Seq<char>, u32)>,
    available: bool,
    in_base: Seq<bool>,
    b: Seq<char>,
)
    requires
        local.len() <= in_base.len(),
        ops::stale_branches(local, open, available, in_base).contains(b),
    ensures
        exists|i: int|
            0 <= i < local.len() && #[trigger] local[i] == b && (in_base[i]
                || !super::syncing::is_open(open, b)),
    decreases local.len(),
{
    let all = ops::stale_branches(local, open, available, in_base);
    super::syncing::lemma_is_open(open, b);
    if local.len() > 0 {
        let most = local.drop_last();
        let rest = ops::stale_branches(most, open, available, in_base);
        let k = choose|k: int| 0 <= k < all.len() && all[k] == b;
        if k < rest.len() {
            assert(rest[k] == b);
            law_not_stale(most, open, available, in_base, b);
            let i = choose|i: int|
                0 <= i < most.len() && #[trigger] most[i] == b && (in_base[i]
                    || !super::syncing::is_open(open, b));
            assert(local[i] == b);
        } else {
            assert(local[local.len() - 1] == b);
        }
    }
}

} // verus!
