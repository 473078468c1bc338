//! What a pull looks for, merges and leaves behind.
use vstd::prelude::*;

use crate::forge::ForgeKind;
use crate::git::call::{Console, RanView};
use crate::stack::{PatchStatus, PatchView};
use crate::strmap;
use crate::text::chars;
use crate::text::number;
use crate::text::search;
use crate::tui::app::{AppView, ReloadedView, SuspendView};
use crate::tui::run;
use crate::tui::run::TaskView;
use crate::tui::task::pull;
use crate::tui::task::pull::{PullView, Stage};
use crate::tui::task::{AskView, ReplyView};

verus! {

/// Whether the commit at a place has a review that the remote has changed: its branch, or its
/// revision, is among those that diverged.
pub open spec fn changed(
    p: Seq<PatchView>,
    diverged: Seq<Seq<char>>,
    branch: Seq<char>,
    i: int,
) -> bool {
    &&& 0 <= i < p.len()
    &&& p[i].status == PatchStatus::Submitted
    &&& diverged.contains(branch) || (p[i].pr_number matches Some(n) && diverged.contains(
        "D"@ + number::dec(n as nat),
    ))
}

/// What is merged for a commit: the branch of the remote, or for Phabricator the temporary
/// branch that holds its revision.
pub open spec fn merged_for(a: AppView, branch: Seq<char>, i: int) -> Seq<char> {
    match (a.forge.kind(), a.stack.patches[i].pr_number) {
        (ForgeKind::Phabricator, Some(n)) => "pgit-temp-patch-"@ + "D"@ + number::dec(n as nat),
        _ => "origin/"@ + branch,
    }
}

/// Whether what is to be merged for a commit can be had: the remote has its branch, or its
/// revision can be patched.
pub open spec fn wanted(
    a: AppView,
    diverged: Seq<Seq<char>>,
    names: Seq<Seq<char>>,
    there: Seq<bool>,
    i: int,
) -> bool {
    &&& changed(a.stack.patches, diverged, names[i], i)
    &&& there[i]
    &&& a.forge.kind() == ForgeKind::Phabricator ==> a.stack.patches[i].pr_number is Some
}

/// The answer that the search gets at a place, when `names` are the branches of the commits
/// and `there` tells which of them can be had.
pub open spec fn answer(s: PullView, names: Seq<Seq<char>>, there: Seq<bool>) -> ReplyView {
    let i = s.at as int;
    match s.stage {
        Stage::Name => ReplyView::Text(names[i]),
        Stage::Ref => ReplyView::Answer(
            if there[i] {
                Ok(seq![])
            } else {
                Err(seq![])
            },
        ),
        Stage::Temp => ReplyView::Answer(Ok(seq![])),
        Stage::Patch => ReplyView::Ran(
            RanView::Ended { success: there[i], stdout: seq![], stderr: seq![] },
        ),
        _ => ReplyView::Nothing,
    }
}

/// Where the search stands after so many answers, or once it is over.
pub open spec fn searched(
    a: AppView,
    s: PullView,
    names: Seq<Seq<char>>,
    there: Seq<bool>,
    steps: nat,
) -> PullView
    decreases steps,
{
    if steps == 0 || !(s.stage == Stage::Name || s.stage == Stage::Ref || s.stage == Stage::Temp
        || s.stage == Stage::Patch || s.stage == Stage::Unpatch) {
        s
    } else {
        searched(
            a,
            pull::pull_step(a, s, answer(s, names, there)).1,
            names,
            there,
            (steps - 1) as nat,
        )
    }
}

/// Whether the refs are those of the wanted commits among the first `k`, and no others.
pub open spec fn holds(
    a: AppView,
    diverged: Seq<Seq<char>>,
    names: Seq<Seq<char>>,
    there: Seq<bool>,
    refs: Seq<(Seq<char>, Seq<char>)>,
    k: int,
) -> bool {
    &&& forall|i: int|
        #![trigger a.stack.patches[i]]
        0 <= i < k && wanted(a, diverged, names, there, i) ==> strmap::lookup(
            refs,
            a.stack.patches[i].subject,
        ) is Some
    &&& forall|x: Seq<char>|
        #![trigger strmap::lookup(refs, x)]
        strmap::lookup(refs, x) is Some ==> exists|i: int|
            #![trigger a.stack.patches[i]]
            0 <= i < k && wanted(a, diverged, names, there, i) && a.stack.patches[i].subject == x
                && strmap::lookup(refs, x) == Some(merged_for(a, names[i], i))
}

proof fn lemma_next(p: Seq<PatchView>, from: int)
    requires
        0 <= from,
    ensures
        match pull::next_submitted(p, from) {
            Some(i) => {
                &&& from <= i < p.len()
                &&& p[i].status == PatchStatus::Submitted
                &&& forall|m: int|
                    from <= m < i ==> (#[trigger] p[m]).status != PatchStatus::Submitted
            },
            None => forall|m: int|
                from <= m < p.len() ==> (#[trigger] p[m]).status != PatchStatus::Submitted,
        },
    decreases p.len() - from,
{
    if from < p.len() {
        lemma_next(p, from + 1);
    }
}

/// The search goes on to the next commit with a review, and leaves for the working branch only
/// when there is none.
pub proof fn law_search_goes_on(a: AppView, s: PullView, reply: ReplyView)
    requires
        s.stage.in_part() == pull::Part::Find,
        s.at < a.stack.patches.len() <= usize::MAX,
    ensures
        ({
            let p = a.stack.patches;
            let (b, n, words, ask) = pull::pull_step(a, s, reply);
            &&& b == a
            &&& n.home == s.home
            &&& n.diverged == s.diverged
            &&& n.stage == Stage::Home ==> {
                &&& ask == AskView::Git(seq!["checkout"@, "--quiet"@, s.home])
                &&& forall|m: int|
                    s.at < m < p.len() ==> (#[trigger] p[m]).status != PatchStatus::Submitted
            }
            &&& n.stage == Stage::Name ==> {
                &&& s.at < n.at < p.len()
                &&& p[n.at as int].status == PatchStatus::Submitted
                &&& ask == AskView::BranchName(p[n.at as int].subject)
                &&& forall|m: int|
                    s.at < m < n.at ==> (#[trigger] p[m]).status != PatchStatus::Submitted
            }
            &&& n.stage != Stage::Name ==> n.at == s.at
        }),
{
    lemma_next(a.stack.patches, s.at + 1);
}

/// One more ref.
proof fn lemma_put(
    a: AppView,
    diverged: Seq<Seq<char>>,
    names: Seq<Seq<char>>,
    there: Seq<bool>,
    refs: Seq<(Seq<char>, Seq<char>)>,
    i: int,
)
    requires
        0 <= i < a.stack.patches.len(),
        holds(a, diverged, names, there, refs, i),
        wanted(a, diverged, names, there, i),
    ensures
        holds(
            a,
            diverged,
            names,
            there,
            strmap::put(refs, a.stack.patches[i].subject, merged_for(a, names[i], i)),
            i + 1,
        ),
{
    let subject = a.stack.patches[i].subject;
    let more = strmap::put(refs, subject, merged_for(a, names[i], i));
    assert forall|m: int|
        #![trigger a.stack.patches[m]]
        0 <= m < i + 1 && wanted(a, diverged, names, there, m) implies strmap::lookup(
        more,
        a.stack.patches[m].subject,
    ) is Some by {
        strmap::law_put_lookup(
            refs,
            subject,
            merged_for(a, names[i], i),
            a.stack.patches[m].subject,
        );
    }
    assert forall|x: Seq<char>|
        #![trigger strmap::lookup(more, x)]
        strmap::lookup(more, x) is Some implies exists|m: int|
        #![trigger a.stack.patches[m]]
        0 <= m < i + 1 && wanted(a, diverged, names, there, m) && a.stack.patches[m].subject == x
            && strmap::lookup(more, x) == Some(merged_for(a, names[m], m)) by {
        strmap::law_put_lookup(refs, subject, merged_for(a, names[i], i), x);
        if x == subject {
            assert(a.stack.patches[i].subject == x);
        } else {
            assert(strmap::lookup(refs, x) is Some);
        }
    }
}

/// The refs stay right over commits that are not wanted.
proof fn lemma_skip(
    a: AppView,
    diverged: Seq<Seq<char>>,
    names: Seq<Seq<char>>,
    there: Seq<bool>,
    refs: Seq<(Seq<char>, Seq<char>)>,
    i: int,
    k: int,
)
    requires
        i <= k,
        holds(a, diverged, names, there, refs, i),
        forall|m: int|
            #![trigger a.stack.patches[m]]
            i <= m < k ==> !wanted(a, diverged, names, there, m),
    ensures
        holds(a, diverged, names, there, refs, k),
{
    assert forall|x: Seq<char>|
        #![trigger strmap::lookup(refs, x)]
        strmap::lookup(refs, x) is Some implies exists|m: int|
        #![trigger a.stack.patches[m]]
        0 <= m < k && wanted(a, diverged, names, there, m) && a.stack.patches[m].subject == x
            && strmap::lookup(refs, x) == Some(merged_for(a, names[m], m)) by {
        let m = choose|m: int|
            #![trigger a.stack.patches[m]]
            0 <= m < i && wanted(a, diverged, names, there, m) && a.stack.patches[m].subject == x
                && strmap::lookup(refs, x) == Some(merged_for(a, names[m], m));
        assert(a.stack.patches[m].subject == x);
    }
}

/// Some answers first, and then others.
proof fn lemma_compose(
    a: AppView,
    s: PullView,
    names: Seq<Seq<char>>,
    there: Seq<bool>,
    first: nat,
    more: nat,
)
    ensures
        searched(a, s, names, there, first + more) == searched(
            a,
            searched(a, s, names, there, first),
            names,
            there,
            more,
        ),
    decreases first,
{
    if first > 0 && (s.stage == Stage::Name || s.stage == Stage::Ref || s.stage == Stage::Temp
        || s.stage == Stage::Patch || s.stage == Stage::Unpatch) {
        let n = pull::pull_step(a, s, answer(s, names, there)).1;
        lemma_compose(a, n, names, there, (first - 1) as nat, more);
    }
}

/// One answer.
proof fn lemma_step(
    a: AppView,
    s: PullView,
    names: Seq<Seq<char>>,
    there: Seq<bool>,
    before: nat,
)
    requires
        ({
            let n = searched(a, s, names, there, before);
            n.stage == Stage::Name || n.stage == Stage::Ref || n.stage == Stage::Temp || n.stage
                == Stage::Patch || n.stage == Stage::Unpatch
        }),
    ensures
        ({
            let n = searched(a, s, names, there, before);
            searched(a, s, names, there, before + 1) == pull::pull_step(
                a,
                n,
                answer(n, names, there),
            ).1
        }),
{
    let n = searched(a, s, names, there, before);
    lemma_compose(a, s, names, there, before, 1);
    assert(searched(a, n, names, there, 1) == searched(
        a,
        pull::pull_step(a, n, answer(n, names, there)).1,
        names,
        there,
        0,
    ));
}

/// What is known of a search that has dealt with a commit: it stands at the next one, or is
/// over.
spec fn passed(
    a: AppView,
    s: PullView,
    names: Seq<Seq<char>>,
    there: Seq<bool>,
    refs: Seq<(Seq<char>, Seq<char>)>,
    n: PullView,
) -> bool {
    &&& n.diverged == s.diverged
    &&& n.home == s.home
    &&& n.refs == refs
    &&& match pull::next_submitted(a.stack.patches, s.at + 1) {
        Some(m) => n.stage == Stage::Name && n.at == m,
        None => n.stage == Stage::Home,
    }
}

/// One commit is dealt with.
proof fn lemma_turn(
    a: AppView,
    s: PullView,
    names: Seq<Seq<char>>,
    there: Seq<bool>,
) -> (used: nat)
    requires
        s.stage == Stage::Name,
        s.at < a.stack.patches.len() <= usize::MAX,
        a.stack.patches[s.at as int].status == PatchStatus::Submitted,
    ensures
        1 <= used <= 4,
        passed(
            a,
            s,
            names,
            there,
            if wanted(a, s.diverged, names, there, s.at as int) {
                strmap::put(
                    s.refs,
                    a.stack.patches[s.at as int].subject,
                    merged_for(a, names[s.at as int], s.at as int),
                )
            } else {
                s.refs
            },
            searched(a, s, names, there, used),
        ),
{
    let i = s.at as int;
    let e = a.stack.patches[i];
    lemma_next(a.stack.patches, i + 1);
    let s1 = pull::pull_step(a, s, answer(s, names, there)).1;
    assert(searched(a, s, names, there, 0) == s);
    lemma_step(a, s, names, there, 0);
    if !changed(a.stack.patches, s.diverged, names[i], i) {
        1
    } else if a.forge.kind() == ForgeKind::Phabricator {
        if e.pr_number is None {
            1
        } else {
            let s2 = pull::pull_step(a, s1, answer(s1, names, there)).1;
            let s3 = pull::pull_step(a, s2, answer(s2, names, there)).1;
            lemma_step(a, s, names, there, 1);
            lemma_step(a, s, names, there, 2);
            if there[i] {
                3
            } else {
                lemma_step(a, s, names, there, 3);
                4
            }
        }
    } else {
        assert(s1.stage == Stage::Ref);
        lemma_step(a, s, names, there, 1);
        2
    }
}

/// One commit is dealt with, and the refs are right.
proof fn lemma_one(
    a: AppView,
    s: PullView,
    names: Seq<Seq<char>>,
    there: Seq<bool>,
) -> (used: nat)
    requires
        s.stage == Stage::Name,
        s.at < a.stack.patches.len() <= usize::MAX,
        a.stack.patches[s.at as int].status == PatchStatus::Submitted,
        holds(a, s.diverged, names, there, s.refs, s.at as int),
    ensures
        1 <= used <= 4,
        ({
            let n = searched(a, s, names, there, used);
            &&& n.diverged == s.diverged
            &&& n.home == s.home
            &&& n.stage == Stage::Home ==> holds(
                a,
                s.diverged,
                names,
                there,
                n.refs,
                a.stack.patches.len() as int,
            )
            &&& n.stage != Stage::Home ==> {
                &&& n.stage == Stage::Name
                &&& s.at < n.at < a.stack.patches.len()
                &&& a.stack.patches[n.at as int].status == PatchStatus::Submitted
                &&& holds(a, s.diverged, names, there, n.refs, n.at as int)
            }
        }),
{
    let p = a.stack.patches;
    let i = s.at as int;
    lemma_next(p, i + 1);
    let end = match pull::next_submitted(p, i + 1) {
        Some(m) => m,
        None => p.len() as int,
    };
    assert forall|m: int|
        #![trigger a.stack.patches[m]]
        i + 1 <= m < end implies !wanted(a, s.diverged, names, there, m) by {
        assert(p[m].status != PatchStatus::Submitted);
    }
    if wanted(a, s.diverged, names, there, i) {
        lemma_put(a, s.diverged, names, there, s.refs, i);
        lemma_skip(
            a,
            s.diverged,
            names,
            there,
            strmap::put(s.refs, p[i].subject, merged_for(a, names[i], i)),
            i + 1,
            end,
        );
    } else {
        lemma_skip(a, s.diverged, names, there, s.refs, i, end);
    }
    lemma_turn(a, s, names, there)
}

proof fn lemma_search(
    a: AppView,
    s: PullView,
    names: Seq<Seq<char>>,
    there: Seq<bool>,
    steps: nat,
)
    requires
        s.stage == Stage::Name,
        s.at < a.stack.patches.len() <= usize::MAX,
        a.stack.patches[s.at as int].status == PatchStatus::Submitted,
        names.len() == a.stack.patches.len(),
        there.len() == a.stack.patches.len(),
        holds(a, s.diverged, names, there, s.refs, s.at as int),
        steps >= 4 * (a.stack.patches.len() - s.at),
    ensures
        ({
            let n = searched(a, s, names, there, steps);
            &&& n.stage == Stage::Home
            &&& n.home == s.home
            &&& holds(
                a,
                s.diverged,
                names,
                there,
                n.refs,
                a.stack.patches.len() as int,
            )
        }),
    decreases a.stack.patches.len() - s.at,
{
    let used = lemma_one(a, s, names, there);
    let n = searched(a, s, names, there, used);
    let more = (steps - used) as nat;
    lemma_compose(a, s, names, there, used, more);
    if n.stage != Stage::Home {
        lemma_search(a, n, names, there, more);
    }
}

/// When the search is over, every commit whose review the remote has changed and whose ref
/// can be had has an entry under its subject, and every entry is the ref of such a commit with
/// that subject; and the working branch is gone back to.
pub proof fn law_search_finds_all(
    a: AppView,
    s: PullView,
    told: Seq<(Seq<char>, Seq<char>)>,
    names: Seq<Seq<char>>,
    there: Seq<bool>,
    steps: nat,
)
    requires
        s.stage == Stage::Diverged,
        s.refs.len() == 0,
        told.len() > 0,
        a.stack.patches.len() <= usize::MAX,
        names.len() == a.stack.patches.len(),
        there.len() == a.stack.patches.len(),
        steps >= 4 * a.stack.patches.len(),
    ensures
        ({
            let first = pull::pull_step(a, s, ReplyView::Diverged(Some(told))).1;
            let n = searched(a, first, names, there, steps);
            let keys = Seq::new(told.len(), |i: int| told[i].0);
            &&& n.stage == Stage::Home
            &&& n.home == s.home
            &&& forall|i: int|
                #![trigger a.stack.patches[i]]
                0 <= i < a.stack.patches.len() && wanted(a, keys, names, there, i)
                    ==> strmap::lookup(n.refs, a.stack.patches[i].subject) is Some
            &&& forall|x: Seq<char>|
                #![trigger strmap::lookup(n.refs, x)]
                strmap::lookup(n.refs, x) is Some ==> exists|i: int|
                    #![trigger a.stack.patches[i]]
                    0 <= i < a.stack.patches.len() && wanted(a, keys, names, there, i)
                        && a.stack.patches[i].subject == x && strmap::lookup(n.refs, x) == Some(
                        merged_for(a, names[i], i),
                    )
        }),
{
    let first = pull::pull_step(a, s, ReplyView::Diverged(Some(told))).1;
    let keys = Seq::new(told.len(), |i: int| told[i].0);
    assert(first.diverged =~= keys);
    lemma_next(a.stack.patches, 0);
    assert(holds(a, keys, names, there, s.refs, 0));
    if first.stage == Stage::Home {
        lemma_skip(a, keys, names, there, s.refs, 0, a.stack.patches.len() as int);
        assert(searched(a, first, names, there, steps) == first);
    } else {
        assert(first.stage == Stage::Name);
        lemma_skip(a, keys, names, there, s.refs, 0, first.at as int);
        lemma_search(a, first, names, there, steps);
    }
}

/// Whether git is run with these words, and what it writes is captured.
pub open spec fn runs_git(ask: AskView, words: Seq<Seq<char>>) -> bool {
    match ask {
        AskView::Run(c) => {
            &&& c.program == "git"@
            &&& c.args == words
            &&& c.env.len() == 0
            &&& c.console == Console::Captured
        },
        _ => false,
    }
}

/// A pull begins by opening the repository, noting the current branch, fetching, and asking
/// which reviews have diverged. Where none has, that is all.
pub proof fn law_pull_begins(
    a: AppView,
    home: Seq<char>,
    fetched: Result<Seq<char>, Seq<char>>,
)
    ensures
        ({
            let t0 = run::task_for(SuspendView::PullRemote);
            let (a1, t1, w1, k1) = run::task_step(a, t0, ReplyView::Done(Ok(())));
            let (a2, t2, w2, k2) = run::task_step(a1, t1, ReplyView::Answer(Ok(home)));
            let (a3, t3, w3, k3) = run::task_step(a2, t2, ReplyView::Answer(fetched));
            let (a4, t4, w4, k4) = run::task_step(a3, t3, ReplyView::Diverged(Some(seq![])));
            let (a5, t5, w5, k5) = run::task_step(a4, t4, ReplyView::Nothing);
            &&& run::first_ask(SuspendView::PullRemote) == AskView::Open
            &&& k1 == AskView::CurrentBranch
            &&& k2 == AskView::Git(seq!["fetch"@, "origin"@])
            &&& k3 == AskView::Diverged
            &&& k4 == AskView::Enter
            &&& k5 == AskView::End(Ok(()))
            &&& a3 == a
            &&& a5.stack == a.stack
            &&& a5.history == a.history
            &&& a5.cursor == a.cursor
            &&& a5.notification == Some("No remote changes to pull."@)
            &&& match t3 {
                TaskView::Pull(s) => s.stage == Stage::Diverged && s.refs.len() == 0 && s.home
                    == home && s.merged == 0,
                _ => false,
            }
        }),
{
}

/// A changed review is looked for at the remote under its branch; a revision of Phabricator is
/// patched onto a temporary branch that starts below the commit.
pub proof fn law_search_asks(
    a: AppView,
    s: PullView,
    branch: Seq<char>,
    text: Seq<char>,
    ran: RanView,
)
    requires
        s.stage == Stage::Name,
        s.at < a.stack.patches.len(),
        changed(a.stack.patches, s.diverged, branch, s.at as int),
    ensures
        ({
            let e = a.stack.patches[s.at as int];
            let (a1, s1, w1, k1) = pull::pull_step(a, s, ReplyView::Text(branch));
            let (a2, s2, w2, k2) = pull::pull_step(a1, s1, ReplyView::Answer(Ok(text)));
            let (a3, s3, w3, k3) = pull::pull_step(a2, s2, ReplyView::Ran(ran));
            if a.forge.kind() != ForgeKind::Phabricator {
                k1 == AskView::Git(seq!["rev-parse"@, "--verify"@, "origin/"@ + branch])
            } else {
                match e.pr_number {
                    Some(n) => {
                        let d = "D"@ + number::dec(n as nat);
                        let temporary = "pgit-temp-patch-"@ + "D"@ + number::dec(n as nat);
                        &&& k1 == AskView::Git(
                            seq!["checkout"@, "--quiet"@, "-B"@, temporary, e.hash + "^"@],
                        )
                        &&& match k2 {
                            AskView::Run(c) => {
                                &&& c.program == "arc"@
                                &&& c.args == seq![
                                    "patch"@,
                                    "--nobranch"@,
                                    "--skip-dependencies"@,
                                    d,
                                ]
                                &&& c.env.len() == 0
                                &&& c.console == Console::Attached
                            },
                            _ => false,
                        }
                        &&& !(ran matches RanView::Ended { success: true, .. }) ==> k3
                            == AskView::GitAll(
                            seq![
                                seq!["checkout"@, "--quiet"@, s.home],
                                seq!["branch"@, "-D"@, temporary],
                            ],
                        ) && s3.refs == s.refs
                    },
                    None => s1.refs == s.refs,
                }
            }
        }),
{
}

/// With refs to merge, the stack is replayed from its base with a pause at every commit, and
/// each time the subject of the commit is asked for. Without any, nothing is rebased.
pub proof fn law_pull_replays(
    a: AppView,
    s: PullView,
    back: Result<Seq<char>, Seq<char>>,
    base: Seq<char>,
    ran: RanView,
)
    requires
        s.stage == Stage::Home,
    ensures
        ({
            let (a1, s1, w1, k1) = pull::pull_step(a, s, ReplyView::Answer(back));
            let (a2, s2, w2, k2) = pull::pull_step(a1, s1, ReplyView::Answer(Ok(base)));
            let (a3, s3, w3, k3) = pull::pull_step(a2, s2, ReplyView::Ran(ran));
            let (a4, s4, w4, k4) = pull::pull_step(a3, s3, ReplyView::Flag(true));
            let (a5, s5, w5, k5) = pull::pull_step(a3, s3, ReplyView::Flag(false));
            if s.refs.len() == 0 {
                k1 == AskView::Enter && a1 == a && pull::pull_step(
                    a1,
                    s1,
                    ReplyView::Nothing,
                ).3 == AskView::End(Ok(()))
            } else {
                &&& k1 == AskView::Base
                &&& k2 == AskView::PauseAll(base)
                &&& k3 == AskView::InProgress
                &&& k4 == AskView::Git(seq!["log"@, "-1"@, "--format=%s"@])
                &&& s4.stage == Stage::Subject
                &&& s4.refs == s.refs
                &&& s4.home == s.home
                &&& s4.merged == s.merged
                &&& k5 == AskView::Git(seq!["checkout"@, "--quiet"@, s.home])
                &&& a4 == a
            }
        }),
{
}

/// At a pause, the ref that stands under the commit's subject is merged into it: all of its
/// changes, in the commit itself, which keeps its message. One more review is then merged. A
/// commit without a ref is passed over.
pub proof fn law_pull_merges(
    a: AppView,
    s: PullView,
    subject: Seq<char>,
    ran: RanView,
    others: (RanView, RanView),
)
    requires
        s.stage == Stage::Subject,
    ensures
        ({
            let (a1, s1, w1, k1) = pull::pull_step(a, s, ReplyView::Answer(Ok(subject)));
            let (a2, s2, w2, k2) = pull::pull_step(a1, s1, ReplyView::Ran(ran));
            let (a3, s3, w3, k3) = pull::pull_step(a2, s2, ReplyView::Ran(others.0));
            let (a4, s4, w4, k4) = pull::pull_step(a3, s3, ReplyView::Ran(others.1));
            let clean = ran matches RanView::Ended { success: true, stderr, .. }
                && !search::contains(stderr, "CONFLICT"@);
            match strmap::lookup(s.refs, chars::trim(subject)) {
                Some(name) => {
                    &&& runs_git(k1, seq!["merge"@, "--squash"@, "--no-commit"@, name])
                    &&& !clean ==> k2 == AskView::Key && s2.merged == s.merged
                    &&& clean ==> {
                        &&& runs_git(k2, seq!["add"@, "-A"@])
                        &&& runs_git(k3, seq!["commit"@, "--amend"@, "--no-edit"@])
                        &&& k4 == AskView::Continue
                        &&& s3.merged == s.merged
                        &&& s.merged < u64::MAX ==> s4.merged == s.merged + 1
                        &&& s4.refs == s.refs
                        &&& a4 == a
                    }
                },
                None => k1 == AskView::Continue && s1.merged == s.merged && s1.refs == s.refs && a1
                    == a,
            }
        }),
{
}

/// A merge with conflicts waits for the user, who goes on with what is in the working tree or
/// has the rebase aborted; any other key is asked for again.
pub proof fn law_pull_conflicts(a: AppView, s: PullView, key: char)
    requires
        s.stage == Stage::MergeKey || s.stage == Stage::ConflictKey,
    ensures
        ({
            let (a1, s1, w1, k1) = pull::pull_step(a, s, ReplyView::Key(key));
            &&& a1 == a
            &&& key == 'c' ==> runs_git(k1, seq!["add"@, "-A"@])
            &&& key == 'a' ==> k1 == AskView::Abort
            &&& key != 'c' && key != 'a' ==> k1 == AskView::Key && s1 == s
        }),
{
}

/// A replay goes on from pause to pause until git says that it is over.
pub proof fn law_pull_goes_on(a: AppView, s: PullView)
    requires
        s.stage == Stage::Continue,
    ensures
        ({
            let (a1, s1, w1, k1) = pull::pull_step(a, s, ReplyView::Rebase(Ok(false)));
            let (a2, s2, w2, k2) = pull::pull_step(a1, s1, ReplyView::Flag(true));
            let (a3, s3, w3, k3) = pull::pull_step(a2, s2, ReplyView::Texts(seq![]));
            let (a4, s4, w4, k4) = pull::pull_step(a3, s3, ReplyView::Flag(true));
            &&& k1 == AskView::InProgress
            &&& k2 == AskView::Conflicts
            &&& k3 == AskView::InProgress
            &&& k4 == AskView::Git(seq!["log"@, "-1"@, "--format=%s"@])
            &&& s4.stage == Stage::Subject
            &&& s4.refs == s.refs
            &&& s4.merged == s.merged
            &&& s4.home == s.home
        }),
{
}

/// Once the replay is over, the working branch is gone back to, the stack is read again, the
/// new state of the remote is put on record, and the number of merged reviews is told.
pub proof fn law_pull_ends(
    a: AppView,
    s: PullView,
    back: Result<Seq<char>, Seq<char>>,
    r: ReloadedView,
    p: Seq<PatchView>,
)
    requires
        s.stage == Stage::Continue,
        r.commits == Ok::<Seq<PatchView>, Seq<char>>(p),
    ensures
        ({
            let (a1, s1, w1, k1) = pull::pull_step(a, s, ReplyView::Rebase(Ok(true)));
            let (a2, s2, w2, k2) = pull::pull_step(a1, s1, ReplyView::Nothing);
            let (a3, s3, w3, k3) = pull::pull_step(a2, s2, ReplyView::Answer(back));
            let (a4, s4, w4, k4) = pull::pull_step(a3, s3, ReplyView::Stack(r));
            let (a5, s5, w5, k5) = pull::pull_step(a4, s4, ReplyView::Nothing);
            let (a6, s6, w6, k6) = pull::pull_step(a5, s5, ReplyView::Nothing);
            &&& k1 is GitAll
            &&& k2 == AskView::Git(seq!["checkout"@, "--quiet"@, s.home])
            &&& k3 == AskView::Reload
            &&& k4 == AskView::SaveState
            &&& k5 == AskView::Enter
            &&& k6 == AskView::End(Ok(()))
            &&& a3 == a
            &&& a6.stack.patches == p
            &&& a6.stack.base == a.stack.base
            &&& a6.history == a.history
            &&& a6.notification == Some(
                "Pulled remote changes for "@ + number::dec(s.merged as nat) + " PRs."@,
            )
        }),
{
}

/// The command that deletes a branch.
pub open spec fn deletes(branch: Seq<char>) -> Seq<Seq<char>> {
    seq!["branch"@, "-D"@, branch]
}

/// Whether a command deletes the ref at a place, which holds a revision.
pub open spec fn clears(
    refs: Seq<(Seq<char>, Seq<char>)>,
    i: int,
    command: Seq<Seq<char>>,
) -> bool {
    0 <= i < refs.len() && "pgit-temp-patch-"@.is_prefix_of(refs[i].1) && command == deletes(
        refs[i].1,
    )
}

/// When a pull is over, a ref that holds a revision is deleted.
pub proof fn law_pull_deletes(refs: Seq<(Seq<char>, Seq<char>)>, i: int)
    requires
        0 <= i < refs.len(),
        "pgit-temp-patch-"@.is_prefix_of(refs[i].1),
    ensures
        pull::clear_away(refs).contains(deletes(refs[i].1)),
    decreases refs.len(),
{
    let all = pull::clear_away(refs);
    let most = refs.drop_last();
    let before = pull::clear_away(most);
    let command = deletes(refs[i].1);
    if i < most.len() {
        law_pull_deletes(most, i);
        let k = choose|k: int| 0 <= k < before.len() && before[k] == command;
        assert(all[k] == command);
    } else {
        assert(all[all.len() - 1] == command);
    }
}

/// Nothing else is deleted: no branch of the remote, and none of the user's.
pub proof fn law_pull_deletes_only(refs: Seq<(Seq<char>, Seq<char>)>, k: int)
    requires
        0 <= k < pull::clear_away(refs).len(),
    ensures
        exists|i: int| #[trigger] clears(refs, i, pull::clear_away(refs)[k]),
    decreases refs.len(),
{
    let all = pull::clear_away(refs);
    let most = refs.drop_last();
    let before = pull::clear_away(most);
    if k < before.len() {
        law_pull_deletes_only(most, k);
        let i = choose|i: int| #[trigger] clears(most, i, before[k]);
        assert(clears(refs, i, all[k]));
    } else {
        assert(clears(refs, refs.len() - 1, all[k]));
    }
}

/// After a conflict that the user resolved, the rebase is continued; it is then asked whether
/// one is in progress: at the next commit the work goes on, after the last one it is over. A
/// replay that cannot be continued is aborted.
pub proof fn law_pull_resumes(a: AppView, s: PullView, ran: RanView, e: Seq<char>)
    requires
        s.stage == Stage::AddResolved,
    ensures
        ({
            let (a1, s1, w1, k1) = pull::pull_step(a, s, ReplyView::Ran(ran));
            let (a2, s2, w2, k2) = pull::pull_step(a1, s1, ReplyView::Rebase(Ok(true)));
            let (a3, s3, w3, k3) = pull::pull_step(a2, s2, ReplyView::Flag(true));
            let (b2, t2, v2, l2) = pull::pull_step(a1, s1, ReplyView::Rebase(Ok(false)));
            let (b3, t3, v3, l3) = pull::pull_step(b2, t2, ReplyView::Flag(true));
            let (c2, u2, x2, m2) = pull::pull_step(a1, s1, ReplyView::Rebase(Err(e)));
            &&& k1 == AskView::Continue
            &&& k2 == AskView::InProgress
            &&& k3 == AskView::Git(seq!["log"@, "-1"@, "--format=%s"@])
            &&& s3.merged == s.merged
            &&& s3.refs == s.refs
            &&& l2 == AskView::InProgress
            &&& l3 == AskView::Key
            &&& m2 == AskView::Abort
        }),
{
}

/// Files with conflicts at a pause wait for the user.
pub proof fn law_pull_stops(a: AppView, s: PullView, files: Seq<Seq<char>>)
    requires
        s.stage == Stage::Conflicts,
        files.len() > 0,
    ensures
        pull::pull_step(a, s, ReplyView::Texts(files)).3 == AskView::Key,
        pull::pull_step(a, s, ReplyView::Texts(files)).1.stage == Stage::ConflictKey,
{
}

/// A replay that git cannot continue is aborted, and then ends as one that is over.
pub proof fn law_pull_fails(a: AppView, s: PullView, e: Seq<char>, r: Result<(), Seq<char>>)
    requires
        s.stage == Stage::Continue,
    ensures
        ({
            let (a1, s1, w1, k1) = pull::pull_step(a, s, ReplyView::Rebase(Err(e)));
            let (a2, s2, w2, k2) = pull::pull_step(a1, s1, ReplyView::Done(r));
            let (a3, s3, w3, k3) = pull::pull_step(a2, s2, ReplyView::Nothing);
            &&& k1 == AskView::Abort
            &&& k2 == AskView::GitAll(pull::clear_away(s.refs))
            &&& k3 == AskView::Git(seq!["checkout"@, "--quiet"@, s.home])
            &&& s3.merged == s.merged
        }),
{
}

/// A user who gives up at a merge has the rebase aborted and the temporary branches deleted.
pub proof fn law_pull_given_up(a: AppView, s: PullView, r: Result<(), Seq<char>>)
    requires
        s.stage == Stage::MergeKey,
    ensures
        ({
            let (a1, s1, w1, k1) = pull::pull_step(a, s, ReplyView::Key('a'));
            let (a2, s2, w2, k2) = pull::pull_step(a1, s1, ReplyView::Done(r));
            let (a3, s3, w3, k3) = pull::pull_step(a2, s2, ReplyView::Nothing);
            let (a4, s4, w4, k4) = pull::pull_step(a3, s3, ReplyView::Nothing);
            &&& k1 == AskView::Abort
            &&& k2 == AskView::GitAll(pull::clear_away(s.refs))
            &&& k3 == AskView::Enter
            &&& k4 == AskView::Reload
            &&& a4 == a
        }),
{
}

} // verus!
