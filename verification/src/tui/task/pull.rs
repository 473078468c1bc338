//! Pulling what others changed in reviews.
use vstd::prelude::*;

use super::super::app;
use super::super::app::{App, AppView};
use super::super::term;
use super::super::term::{each_text, firsts, good_text, heading_text, seconds, yellow_text};
use super::edit;
use super::edit::{add_all, amend_commit};
use super::rebase;
use super::rebase::reload_if_read;
use super::submit;
use super::submit::was_changed;
use super::{ended, Ask, AskView, Reply, ReplyView};
use crate::forge::sync_state;
use crate::forge::sync_state::{get_remote_ref, patch_branch, remote_exists_args};
use crate::forge::ForgeKind;
use crate::git::call;
use crate::git::call::{capture, Call, CallView, Console, Ran, RanView};
use crate::stack::{PatchEntry, PatchStatus, PatchView};
use crate::stack;
use crate::strmap;
use crate::strmap::StrMap;
use crate::text::args::args;
use crate::text::chars;
use crate::text::chars::{concat2, concat3, concat4, trimmed};
use crate::text::number;
use crate::text::number::decimal;
use crate::text::search;
use crate::text::search::{occurs, starts};
use crate::text::views;

verus! {

broadcast use views::group_views;

/// Which answer a pull waits for.
#[derive(Debug, Clone, Copy, PartialEq, Eq, Structural)]
pub enum Stage {
    /// The repository.
    Open,
    /// The current branch.
    Branch,
    /// The fetch.
    Fetch,
    /// The reviews that were changed by someone else.
    Diverged,
    /// Enter, where there are none.
    InSync,
    /// The branch of a commit.
    Name,
    /// Whether the ref to merge for a commit is there.
    Ref,
    /// The temporary branch onto which its revision is to be patched.
    Temp,
    /// The patch.
    Patch,
    /// The deletion of the temporary branch, where the patch failed.
    Unpatch,
    /// The way back to the branch that was current.
    Home,
    /// The base.
    Base,
    /// The rebase.
    Pause,
    /// Whether the rebase has started.
    Started,
    /// The way back, where it has not.
    NoStart,
    /// Enter, before all is left as it is.
    Leave,
    /// The subject of the commit at which the rebase has paused.
    Subject,
    /// The merge.
    Merge,
    /// The user's choice, where the merge has conflicts.
    MergeKey,
    /// The staging of what was merged.
    Add,
    /// The amendment of the commit.
    Amend,
    /// The rest of the rebase.
    Continue,
    /// Whether the rebase has paused.
    Paused,
    /// The files with conflicts.
    Conflicts,
    /// The user's choice, where there are any.
    ConflictKey,
    /// The staging of what was resolved.
    AddResolved,
    /// The rest of the rebase, once conflicts are resolved.
    Resume,
    /// Whether the rebase has paused once more.
    Resumed,
    /// The abort of a rebase that cannot go on.
    GiveUp,
    /// Whether a rebase is in progress.
    Check,
    /// The abort of a rebase that failed.
    Failed,
    /// The deletion of temporary branches.
    Delete,
    /// The way back, in the end.
    Restore,
    /// The stack.
    Reload,
    /// The record of what was pushed.
    Save,
    /// Enter.
    Enter,
    /// The abort of the rebase, where the user gives up on a merge.
    AbortMerge,
    /// The deletion of temporary branches, where the user gives up on a merge.
    DeleteAborted,
    /// The abort of the rebase, where the user gives up on a commit.
    AbortReplay,
    /// Enter, where the user gave up.
    Aborted,
    /// The stack, where the user gave up.
    AbortedReload,
    /// Nothing more.
    Over,
}

/// A pull under way.
pub struct Pull {
    /// The branch that was current.
    pub home: String,
    /// The branches of the reviews that were changed by someone else.
    pub diverged: Vec<String>,
    /// The place of the commit that is looked at.
    pub at: usize,
    /// Its branch.
    pub branch: String,
    /// What to merge, by subject.
    pub refs: StrMap<String>,
    /// The subject of the commit at which the rebase has paused.
    pub subject: String,
    /// Why the rebase did not start, if it did not.
    pub reason: String,
    /// How many commits took something in.
    pub merged: u64,
    pub stage: Stage,
}

/// A pull as it is seen in contracts.
#[verifier::ext_equal]
pub struct PullView {
    pub home: Seq<char>,
    pub diverged: Seq<Seq<char>>,
    pub at: usize,
    pub branch: Seq<char>,
    pub refs: Seq<(Seq<char>, Seq<char>)>,
    pub subject: Seq<char>,
    pub reason: Seq<char>,
    pub merged: u64,
    pub stage: Stage,
}

impl View for Pull {
    type V = PullView;

    open spec fn view(&self) -> PullView {
        PullView {
            home: self.home@,
            diverged: views::strs(self.diverged@),
            at: self.at,
            branch: self.branch@,
            refs: self.refs@,
            subject: self.subject@,
            reason: self.reason@,
            merged: self.merged,
            stage: self.stage,
        }
    }
}

/// What follows an answer: the front end, the pull, what is said and what is asked.
pub type Out = (AppView, PullView, Seq<char>, AskView);

/// The place of the first submitted commit from `from` on.
pub open spec fn next_submitted(p: Seq<PatchView>, from: int) -> Option<int>
    decreases p.len() - from,
{
    if from < 0 || from >= p.len() {
        None
    } else if p[from].status == PatchStatus::Submitted {
        Some(from)
    } else {
        next_submitted(p, from + 1)
    }
}

/// The place of the first submitted commit from `from` on.
pub fn find_submitted(patches: &Vec<PatchEntry>, from: usize) -> (r: Option<usize>)
    ensures
        match r {
            Some(i) => i < patches@.len() && next_submitted(
                stack::patches(patches@),
                from as int,
            ) == Some(i as int),
            None => next_submitted(stack::patches(patches@), from as int) is None,
        },
{
    let ghost p = stack::patches(patches@);
    let mut i: usize = from;
    while i < patches.len()
        invariant
            p == stack::patches(patches@),
            next_submitted(p, from as int) == next_submitted(p, i as int),
        decreases patches.len() - i,
    {
        proof {
            assert(p[i as int] == patches@[i as int]@);
        }
        if patches[i].status == PatchStatus::Submitted {
            return Some(i);
        }
        i += 1;
    }
    None
}

/// The way back to the branch that was current.
pub open spec fn go_home(home: Seq<char>) -> AskView {
    AskView::Git(seq!["checkout"@, "--quiet"@, home])
}

/// Goes on with the first submitted commit from `from` on; after the last, goes back to
/// the branch that was current.
pub open spec fn seek(a: AppView, s: PullView, from: int, say: Seq<char>) -> Out {
    match next_submitted(a.stack.patches, from) {
        Some(i) => (
            a,
            PullView { at: i as usize, stage: Stage::Name, ..s },
            say,
            AskView::BranchName(a.stack.patches[i].subject),
        ),
        None => (a, PullView { stage: Stage::Home, ..s }, say, go_home(s.home)),
    }
}

/// Why a rebase did not start.
pub open spec fn why(ran: RanView) -> Seq<char> {
    match ran {
        RanView::Lost(e) => "git rebase failed: "@ + e,
        RanView::Ended { success, stdout, stderr } => if chars::trim(stderr).len() > 0 {
            chars::trim(stderr)
        } else if chars::trim(stdout).len() > 0 {
            chars::trim(stdout)
        } else {
            "No commits to rebase."@
        },
    }
}

/// Whether a merge has conflicts.
pub open spec fn clashes(ran: RanView) -> bool {
    match ran {
        RanView::Lost(e) => true,
        RanView::Ended { success, stdout, stderr } => !success || search::contains(
            stderr,
            "CONFLICT"@,
        ),
    }
}

/// What is said of the reviews that were changed by someone else.
pub open spec fn found(v: Seq<(Seq<char>, Seq<char>)>) -> Seq<char> {
    "  \x1b[33m▸ Found "@ + number::dec(v.len()) + (" diverged PRs:\x1b[0m\n"@ + term::each(
        "    \x1b[33m"@,
        term::second_of(v),
        "\x1b[0m\n"@,
    ) + "\n"@)
}

/// What is said where there is nothing to merge.
pub const NO_REFS: &'static str =
    "  \x1b[31m⚠ Could not get remote refs for any diverged PRs.\x1b[0m\n";

/// What is said where a merge has conflicts.
pub const MERGE_CONFLICT: &'static str =
    "\n    \x1b[1;33m⚠ Merge conflict while pulling remote changes.\x1b[0m\n    Resolve conflicts, then stage: \x1b[1;33mgit add <files>\x1b[0m\n\n    Press \x1b[1;32mc\x1b[0m to continue  or  \x1b[1;31ma\x1b[0m to abort\n";

/// What is said where a commit has conflicts.
pub const REPLAY_CONFLICT: &'static str =
    "    \x1b[1;33m⚠ Conflict during rebase.\x1b[0m\n    Resolve conflicts, stage, then press \x1b[1;32mc\x1b[0m or \x1b[1;31ma\x1b[0m\n";

/// What is said where the user gave up.
pub const ABORTED: &'static str = "    \x1b[31mAborted.\x1b[0m\n";

/// What is said once all is pulled.
pub const NEXT: &'static str =
    "\n  You can now review, make more changes, and press \x1b[1;32ms\x1b[0m to sync.\n";

/// The subject of the commit at which the rebase has paused.
pub open spec fn ask_subject() -> AskView {
    AskView::Git(seq!["log"@, "-1"@, "--format=%s"@])
}

/// Merges a ref into the working tree.
pub open spec fn ask_merge(name: Seq<char>) -> AskView {
    AskView::Run(
        call::captured("git"@, seq!["merge"@, "--squash"@, "--no-commit"@, name]),
    )
}

/// The commands that delete the temporary branches among what is merged.
pub open spec fn clear_away(refs: Seq<(Seq<char>, Seq<char>)>) -> Seq<Seq<Seq<char>>>
    decreases refs.len(),
{
    if refs.len() == 0 {
        seq![]
    } else {
        let before = clear_away(refs.drop_last());
        if sync_state::TEMPORARY@.is_prefix_of(refs.last().1) {
            before.push(seq!["branch"@, "-D"@, refs.last().1])
        } else {
            before
        }
    }
}

/// The commands that delete the temporary branches among what is merged.
fn clearing(refs: &StrMap<String>) -> (r: Vec<Vec<String>>)
    ensures
        views::lists(r@) == clear_away(refs@),
{
    let ghost all = refs@;
    let mut r: Vec<Vec<String>> = Vec::new();
    let mut i: usize = 0;
    proof {
        assert(all.take(0) =~= Seq::<(Seq<char>, Seq<char>)>::empty());
    }
    while i < refs.entries.len()
        invariant
            i <= refs.entries@.len() == all.len(),
            all == refs@,
            views::lists(r@) == clear_away(all.take(i as int)),
        decreases refs.entries.len() - i,
    {
        proof {
            assert(all.take(i + 1).drop_last() =~= all.take(i as int));
            assert(all.take(i + 1).last() == all[i as int]);
            assert(all[i as int].1 == refs.entries@[i as int].1@);
        }
        if starts(refs.entries[i].1.as_str(), sync_state::TEMPORARY) {
            let command = args(&["branch", "-D", refs.entries[i].1.as_str()]);
            proof {
                assert(views::strs(command@) =~= seq!["branch"@, "-D"@, all[i as int].1]);
            }
            r.push(command);
        }
        i += 1;
    }
    proof {
        assert(all.take(i as int) =~= all);
    }
    r
}

/// The rebase is over: temporary branches go first.
pub open spec fn finish(a: AppView, s: PullView) -> Out {
    (
        a,
        PullView { stage: Stage::Delete, ..s },
        super::silence(),
        AskView::GitAll(clear_away(s.refs)),
    )
}

/// Pull remote changes into local stack: the first step.
pub fn handle_pull_remote() -> (r: (Pull, String, Ask))
    ensures
        r.0@ == (PullView {
            home: seq![],
            diverged: seq![],
            at: 0,
            branch: seq![],
            refs: seq![],
            subject: seq![],
            reason: seq![],
            merged: 0,
            stage: Stage::Open,
        }),
        r.1@ == term::CLEAR@ + term::heading("Pulling remote changes..."@),
        r.2@ == AskView::Open,
{
    let head = heading_text("Pulling remote changes...");
    (
        Pull {
            home: String::new(),
            diverged: Vec::new(),
            at: 0,
            branch: String::new(),
            refs: StrMap::new(),
            subject: String::new(),
            reason: String::new(),
            merged: 0,
            stage: Stage::Open,
        },
        concat2(term::CLEAR, head.as_str()),
        Ask::Open,
    )
}

/// Makes the temporary branch for a revision: on the commit below the one at hand.
pub open spec fn ask_temporary(id: u32, hash: Seq<char>) -> AskView {
    AskView::Git(
        seq!["checkout"@, "--quiet"@, "-B"@, sync_state::patched_ref(id), hash + "^"@],
    )
}

/// Patches a revision onto the current branch.
pub open spec fn ask_patch(id: u32) -> AskView {
    AskView::Run(
        (CallView {
            program: "arc"@,
            args: seq![
                "patch"@,
                "--nobranch"@,
                "--skip-dependencies"@,
                "D"@ + number::dec(id as nat),
            ],
            env: seq![],
            console: Console::Attached,
        }),
    )
}

/// Leaves the temporary branch of a revision, and deletes it.
pub open spec fn ask_unpatch(home: Seq<char>, id: u32) -> AskView {
    AskView::GitAll(
        seq![
            seq!["checkout"@, "--quiet"@, home],
            seq!["branch"@, "-D"@, sync_state::patched_ref(id)],
        ],
    )
}

/// The ref of the commit at hand is known, if there is one: on to the next commit.
pub open spec fn take(a: AppView, s: PullView, there: bool) -> Out {
    let e = a.stack.patches[s.at as int];
    match sync_state::remote_ref(a.forge.kind(), s.branch, e.pr_number, there) {
        Some(name) => seek(
            a,
            PullView { refs: strmap::put(s.refs, e.subject, name), ..s },
            s.at + 1,
            super::silence(),
        ),
        None => seek(a, s, s.at + 1, super::silence()),
    }
}

/// What follows an answer while the refs to merge are looked for: for Phabricator the
/// revision of a commit is patched onto a temporary branch.
pub open spec fn find_step(a: AppView, s: PullView, reply: ReplyView) -> Out {
    let over = PullView { stage: Stage::Over, ..s };
    let quiet = super::silence();
    if s.at >= a.len() {
        (a, over, quiet, super::end())
    } else {
        let e = a.stack.patches[s.at as int];
        match (s.stage, reply) {
            (Stage::Name, ReplyView::Text(branch)) => if submit::is_changed(
                s.diverged,
                branch,
                a.stack.patches,
                s.at as int,
            ) {
                match (a.forge.kind(), e.pr_number) {
                    (ForgeKind::Phabricator, Some(id)) => (
                        a,
                        PullView { branch, stage: Stage::Temp, ..s },
                        quiet,
                        ask_temporary(id, e.hash),
                    ),
                    (ForgeKind::Phabricator, None) => seek(a, s, s.at + 1, quiet),
                    _ => (
                        a,
                        PullView { branch, stage: Stage::Ref, ..s },
                        quiet,
                        AskView::Git(
                            seq!["rev-parse"@, "--verify"@, sync_state::remote_of(branch)],
                        ),
                    ),
                }
            } else {
                seek(a, s, s.at + 1, quiet)
            },
            (Stage::Ref, ReplyView::Answer(r)) => take(a, s, r is Ok),
            (Stage::Temp, ReplyView::Answer(r)) => match (r, e.pr_number) {
                (Ok(t), Some(id)) => (
                    a,
                    PullView { stage: Stage::Patch, ..s },
                    quiet,
                    ask_patch(id),
                ),
                _ => seek(a, s, s.at + 1, quiet),
            },
            (Stage::Patch, ReplyView::Ran(ran)) => match e.pr_number {
                Some(id) => if ran.good() {
                    take(a, s, true)
                } else {
                    (
                        a,
                        PullView { stage: Stage::Unpatch, ..s },
                        quiet,
                        ask_unpatch(s.home, id),
                    )
                },
                None => seek(a, s, s.at + 1, quiet),
            },
            (Stage::Unpatch, ReplyView::Nothing) => seek(a, s, s.at + 1, quiet),
            _ => (a, over, quiet, super::end()),
        }
    }
}

/// What follows an answer before there is a rebase.
pub open spec fn start_step(a: AppView, s: PullView, reply: ReplyView) -> Out {
    let over = PullView { stage: Stage::Over, ..s };
    let quiet = super::silence();
    match (s.stage, reply) {
        (Stage::Open, ReplyView::Done(r)) => match r {
            Ok(u) => (a, PullView { stage: Stage::Branch, ..s }, quiet, AskView::CurrentBranch),
            Err(e) => (a, over, quiet, super::fail(e)),
        },
        (Stage::Branch, ReplyView::Answer(r)) => match r {
            Ok(home) => (
                a,
                PullView { home, stage: Stage::Fetch, ..s },
                term::yellow_line("Fetching origin..."@),
                AskView::Git(seq!["fetch"@, "origin"@]),
            ),
            Err(e) => (a, over, quiet, super::fail(e)),
        },
        (Stage::Fetch, ReplyView::Answer(r)) => (
            a,
            PullView { stage: Stage::Diverged, ..s },
            quiet,
            AskView::Diverged,
        ),
        (Stage::Diverged, ReplyView::Diverged(Some(v))) => if v.len() == 0 {
            (
                a,
                PullView { stage: Stage::InSync, ..s },
                "\n"@ + term::good_line("All PRs are in sync with remote."@) + term::PRESS_ENTER@,
                AskView::Enter,
            )
        } else {
            seek(a, PullView { diverged: term::first_of(v), ..s }, 0, found(v))
        },
        (Stage::InSync, ReplyView::Nothing) => (
            a.notified("No remote changes to pull."@),
            over,
            quiet,
            super::end(),
        ),
        (Stage::Home, ReplyView::Answer(r)) => if s.refs.len() == 0 {
            (
                a,
                PullView { stage: Stage::Leave, ..s },
                NO_REFS@ + term::PRESS_ENTER@,
                AskView::Enter,
            )
        } else {
            (a, PullView { stage: Stage::Base, ..s }, quiet, AskView::Base)
        },
        (Stage::Base, ReplyView::Answer(r)) => match r {
            Ok(base) => (
                a,
                PullView { stage: Stage::Pause, ..s },
                term::yellow_line("Rebasing to merge remote changes..."@),
                AskView::PauseAll(base),
            ),
            Err(e) => (a, over, quiet, super::fail(e)),
        },
        (Stage::Pause, ReplyView::Ran(ran)) => (
            a,
            PullView { reason: why(ran), stage: Stage::Started, ..s },
            quiet,
            AskView::InProgress,
        ),
        (Stage::Started, ReplyView::Flag(going)) => if going {
            (a, PullView { stage: Stage::Subject, ..s }, quiet, ask_subject())
        } else {
            (
                a,
                PullView { stage: Stage::NoStart, ..s },
                "  \x1b[31m⚠ Rebase could not start: "@ + s.reason + "\x1b[0m\n"@,
                go_home(s.home),
            )
        },
        (Stage::NoStart, ReplyView::Answer(r)) => (
            a,
            PullView { stage: Stage::Leave, ..s },
            term::PRESS_ENTER@,
            AskView::Enter,
        ),
        _ => (a, over, quiet, super::end()),
    }
}

/// What follows an answer while the rebase goes from commit to commit.
pub open spec fn walk_step(a: AppView, s: PullView, reply: ReplyView) -> Out {
    let over = PullView { stage: Stage::Over, ..s };
    let quiet = super::silence();
    match (s.stage, reply) {
        (Stage::Subject, ReplyView::Answer(r)) => {
            let subject = match r {
                Ok(t) => chars::trim(t),
                Err(e) => seq![],
            };
            match strmap::lookup(s.refs, subject) {
                Some(name) => (
                    a,
                    PullView { subject, stage: Stage::Merge, ..s },
                    "    \x1b[36mMerging remote changes for: "@ + subject + "\x1b[0m\n"@,
                    ask_merge(name),
                ),
                None => (
                    a,
                    PullView { subject, stage: Stage::Continue, ..s },
                    quiet,
                    AskView::Continue,
                ),
            }
        },
        (Stage::Merge, ReplyView::Ran(ran)) => if clashes(ran) {
            (a, PullView { stage: Stage::MergeKey, ..s }, MERGE_CONFLICT@, AskView::Key)
        } else {
            (a, PullView { stage: Stage::Add, ..s }, quiet, edit::ask_add())
        },
        (Stage::MergeKey, ReplyView::Key(c)) => if c == 'c' {
            (a, PullView { stage: Stage::Add, ..s }, quiet, edit::ask_add())
        } else if c == 'a' {
            (a, PullView { stage: Stage::AbortMerge, ..s }, quiet, AskView::Abort)
        } else {
            (a, s, quiet, AskView::Key)
        },
        (Stage::Add, ReplyView::Ran(ran)) => (
            a,
            PullView { stage: Stage::Amend, ..s },
            quiet,
            edit::ask_amend(),
        ),
        (Stage::Amend, ReplyView::Ran(ran)) => (
            a,
            PullView {
                merged: if s.merged < u64::MAX {
                    (s.merged + 1) as u64
                } else {
                    s.merged
                },
                stage: Stage::Continue,
                ..s
            },
            quiet,
            AskView::Continue,
        ),
        (Stage::Continue, ReplyView::Rebase(r)) => match r {
            Ok(complete) => if complete {
                finish(a, s)
            } else {
                (a, PullView { stage: Stage::Paused, ..s }, quiet, AskView::InProgress)
            },
            Err(e) => (a, PullView { stage: Stage::Failed, ..s }, quiet, AskView::Abort),
        },
        (Stage::Paused, ReplyView::Flag(going)) => if going {
            (a, PullView { stage: Stage::Conflicts, ..s }, quiet, AskView::Conflicts)
        } else {
            finish(a, s)
        },
        (Stage::Conflicts, ReplyView::Texts(files)) => if files.len() == 0 {
            (a, PullView { stage: Stage::Check, ..s }, quiet, AskView::InProgress)
        } else {
            (a, PullView { stage: Stage::ConflictKey, ..s }, REPLAY_CONFLICT@, AskView::Key)
        },
        (Stage::ConflictKey, ReplyView::Key(c)) => if c == 'c' {
            (a, PullView { stage: Stage::AddResolved, ..s }, quiet, edit::ask_add())
        } else if c == 'a' {
            (a, PullView { stage: Stage::AbortReplay, ..s }, quiet, AskView::Abort)
        } else {
            (a, s, quiet, AskView::Key)
        },
        (Stage::AddResolved, ReplyView::Ran(ran)) => (
            a,
            PullView { stage: Stage::Resume, ..s },
            quiet,
            AskView::Continue,
        ),
        (Stage::Resume, ReplyView::Rebase(r)) => match r {
            Ok(complete) => if complete {
                (a, PullView { stage: Stage::Check, ..s }, quiet, AskView::InProgress)
            } else {
                (a, PullView { stage: Stage::Resumed, ..s }, quiet, AskView::InProgress)
            },
            Err(e) => (a, PullView { stage: Stage::GiveUp, ..s }, quiet, AskView::Abort),
        },
        (Stage::Resumed, ReplyView::Flag(going)) => if going {
            (a, PullView { stage: Stage::ConflictKey, ..s }, quiet, AskView::Key)
        } else {
            finish(a, s)
        },
        (Stage::GiveUp, ReplyView::Done(r)) => (
            a,
            PullView { stage: Stage::Check, ..s },
            quiet,
            AskView::InProgress,
        ),
        (Stage::Check, ReplyView::Flag(going)) => if going {
            (a, PullView { stage: Stage::Subject, ..s }, quiet, ask_subject())
        } else {
            finish(a, s)
        },
        (Stage::Failed, ReplyView::Done(r)) => finish(a, s),
        _ => (a, over, quiet, super::end()),
    }
}

/// What follows an answer once the rebase is over.
pub open spec fn end_step(a: AppView, s: PullView, reply: ReplyView) -> Out {
    let over = PullView { stage: Stage::Over, ..s };
    let quiet = super::silence();
    let count = "Pulled remote changes for "@ + number::dec(s.merged as nat) + " PRs."@;
    match (s.stage, reply) {
        (Stage::Delete, ReplyView::Nothing) => (
            a,
            PullView { stage: Stage::Restore, ..s },
            quiet,
            go_home(s.home),
        ),
        (Stage::Restore, ReplyView::Answer(r)) => (
            a,
            PullView { stage: Stage::Reload, ..s },
            quiet,
            AskView::Reload,
        ),
        (Stage::Reload, ReplyView::Stack(r)) => (
            rebase::maybe_reloaded(a, r.commits),
            PullView { stage: Stage::Save, ..s },
            term::CLEAR@ + "\n"@ + term::good_line(count) + NEXT@,
            AskView::SaveState,
        ),
        (Stage::Save, ReplyView::Nothing) => (
            a,
            PullView { stage: Stage::Enter, ..s },
            term::PRESS_ENTER@,
            AskView::Enter,
        ),
        (Stage::Enter, ReplyView::Nothing) => (a.notified(count), over, quiet, super::end()),
        (Stage::AbortMerge, ReplyView::Done(r)) => (
            a,
            PullView { stage: Stage::DeleteAborted, ..s },
            quiet,
            AskView::GitAll(clear_away(s.refs)),
        ),
        (Stage::DeleteAborted, ReplyView::Nothing) => (
            a,
            PullView { stage: Stage::Aborted, ..s },
            ABORTED@ + term::PRESS_ENTER@,
            AskView::Enter,
        ),
        (Stage::AbortReplay, ReplyView::Done(r)) => (
            a,
            PullView { stage: Stage::Aborted, ..s },
            ABORTED@ + term::PRESS_ENTER@,
            AskView::Enter,
        ),
        (Stage::Aborted, ReplyView::Nothing) => (
            a,
            PullView { stage: Stage::AbortedReload, ..s },
            quiet,
            AskView::Reload,
        ),
        (Stage::AbortedReload, ReplyView::Stack(r)) => (
            rebase::maybe_reloaded(a, r.commits),
            over,
            quiet,
            super::end(),
        ),
        _ => (a, over, quiet, super::end()),
    }
}

/// A part of a pull.
#[derive(Debug, Clone, Copy, PartialEq, Eq, Structural)]
pub enum Part {
    /// Before there is a rebase.
    Start,
    /// While the refs to merge are looked for.
    Find,
    /// While the rebase goes from commit to commit.
    Walk,
    /// Once the rebase is over.
    End,
}

impl Stage {
    /// The part that a stage belongs to.
    pub open spec fn in_part(self) -> Part {
        match self {
            Stage::Open | Stage::Branch | Stage::Fetch | Stage::Diverged | Stage::InSync
            | Stage::Home | Stage::Base | Stage::Pause | Stage::Started | Stage::NoStart
            | Stage::Leave => Part::Start,
            Stage::Name | Stage::Ref | Stage::Temp | Stage::Patch | Stage::Unpatch => Part::Find,
            Stage::Subject | Stage::Merge | Stage::MergeKey | Stage::Add | Stage::Amend
            | Stage::Continue | Stage::Paused | Stage::Conflicts | Stage::ConflictKey
            | Stage::AddResolved | Stage::Resume | Stage::Resumed | Stage::GiveUp
            | Stage::Check | Stage::Failed => Part::Walk,
            _ => Part::End,
        }
    }

    /// The part that a stage belongs to.
    pub fn part(self) -> (r: Part)
        ensures
            r == self.in_part(),
    {
        match self {
            Stage::Open | Stage::Branch | Stage::Fetch | Stage::Diverged | Stage::InSync
            | Stage::Home | Stage::Base | Stage::Pause | Stage::Started | Stage::NoStart
            | Stage::Leave => Part::Start,
            Stage::Name | Stage::Ref | Stage::Temp | Stage::Patch | Stage::Unpatch => Part::Find,
            Stage::Subject | Stage::Merge | Stage::MergeKey | Stage::Add | Stage::Amend
            | Stage::Continue | Stage::Paused | Stage::Conflicts | Stage::ConflictKey
            | Stage::AddResolved | Stage::Resume | Stage::Resumed | Stage::GiveUp
            | Stage::Check | Stage::Failed => Part::Walk,
            _ => Part::End,
        }
    }
}

/// What follows an answer.
pub open spec fn pull_step(a: AppView, s: PullView, reply: ReplyView) -> Out {
    match s.stage.in_part() {
        Part::Start => start_step(a, s, reply),
        Part::Find => find_step(a, s, reply),
        Part::Walk => walk_step(a, s, reply),
        Part::End => end_step(a, s, reply),
    }
}

/// What is said of the reviews that were changed by someone else.
fn found_text(v: &Vec<(String, String)>) -> (r: String)
    ensures
        r@ == found(views::pairs(v@)),
{
    proof {
        assert(views::pairs(v@).len() == v@.len());
    }
    let n = decimal(v.len() as u64);
    let list = seconds(v);
    let list = each_text("    \x1b[33m", &list, "\x1b[0m\n");
    let tail = concat3(" diverged PRs:\x1b[0m\n", list.as_str(), "\n");
    concat3("  \x1b[33m▸ Found ", n.as_str(), tail.as_str())
}

/// Why a rebase did not start.
pub fn why_not(ran: &Ran) -> (r: String)
    ensures
        r@ == why(ran@),
{
    match ran {
        Ran::Lost(e) => concat2("git rebase failed: ", e.as_str()),
        Ran::Ended { success, stdout, stderr } => {
            let bad = trimmed(stderr.as_str());
            let good = trimmed(stdout.as_str());
            if !bad.as_str().is_empty() {
                bad
            } else if !good.as_str().is_empty() {
                good
            } else {
                "No commits to rebase.".to_owned()
            }
        },
    }
}

/// Whether a merge has conflicts.
pub fn has_conflict(ran: &Ran) -> (r: bool)
    ensures
        r == clashes(ran@),
{
    match ran {
        Ran::Lost(e) => true,
        Ran::Ended { success, stdout, stderr } => !*success || occurs(stderr.as_str(), "CONFLICT"),
    }
}

impl Pull {
    /// The same pull, which waits for another answer.
    fn at(self, stage: Stage) -> (r: Pull)
        ensures
            r@ == (PullView { stage, ..self@ }),
    {
        Pull { stage, ..self }
    }

    /// The way back to the branch that was current.
    fn homeward(&self) -> (r: Ask)
        ensures
            r@ == go_home(self@.home),
    {
        Ask::Git(args(&["checkout", "--quiet", self.home.as_str()]))
    }

    /// Asks for the subject of the commit at which the rebase has paused.
    fn ask_subject() -> (r: Ask)
        ensures
            r@ == ask_subject(),
    {
        Ask::Git(args(&["log", "-1", "--format=%s"]))
    }

    /// Goes on with the first submitted commit from `from` on.
    fn seek(self, app: &App, from: usize, say: String) -> (r: (Pull, String, Ask))
        ensures
            r.0@ == seek(app@, self@, from as int, say@).1,
            r.1@ == seek(app@, self@, from as int, say@).2,
            r.2@ == seek(app@, self@, from as int, say@).3,
    {
        match find_submitted(&app.stack.patches, from) {
            Some(i) => {
                proof {
                    assert(app@.stack.patches[i as int] == app.stack.patches@[i as int]@);
                }
                let ask = Ask::BranchName(app.stack.patches[i].subject.clone());
                (Pull { at: i, stage: Stage::Name, ..self }, say, ask)
            },
            None => {
                let ask = self.homeward();
                (self.at(Stage::Home), say, ask)
            },
        }
    }

    /// The rebase is over.
    fn finish(self, app: &App) -> (r: (Pull, String, Ask))
        ensures
            r.0@ == finish(app@, self@).1,
            r.1@ == finish(app@, self@).2,
            r.2@ == finish(app@, self@).3,
    {
        let ask = Ask::GitAll(clearing(&self.refs));
        (self.at(Stage::Delete), String::new(), ask)
    }

    /// What follows an answer before there is a rebase.
    fn start(self, app: &mut App, reply: Reply) -> (r: (Pull, String, Ask))
        requires
            old(app)@.wf(),
            !old(app)@.selecting(),
        ensures
            final(app)@ == start_step(old(app)@, self@, reply@).0,
            r.0@ == start_step(old(app)@, self@, reply@).1,
            r.1@ == start_step(old(app)@, self@, reply@).2,
            r.2@ == start_step(old(app)@, self@, reply@).3,
            final(app)@.wf(),
            !final(app)@.selecting(),
    {
        let quiet = String::new();
        match (self.stage, reply) {
            (Stage::Open, Reply::Done(r)) => match r {
                Ok(u) => (self.at(Stage::Branch), quiet, Ask::CurrentBranch),
                Err(e) => (self.at(Stage::Over), quiet, Ask::End(Err(e))),
            },
            (Stage::Branch, Reply::Answer(r)) => match r {
                Ok(home) => (
                    Pull { home, stage: Stage::Fetch, ..self },
                    yellow_text("Fetching origin..."),
                    Ask::Git(args(&["fetch", "origin"])),
                ),
                Err(e) => (self.at(Stage::Over), quiet, Ask::End(Err(e))),
            },
            (Stage::Fetch, Reply::Answer(r)) => (self.at(Stage::Diverged), quiet, Ask::Diverged),
            (Stage::Diverged, Reply::Diverged(Some(v))) => {
                proof {
                    assert(views::pairs(v@).len() == v@.len());
                }
                if v.len() == 0 {
                    let line = good_text("All PRs are in sync with remote.");
                    let say = concat3("\n", line.as_str(), term::PRESS_ENTER);
                    (self.at(Stage::InSync), say, Ask::Enter)
                } else {
                    let say = found_text(&v);
                    let next = Pull { diverged: firsts(&v), ..self };
                    next.seek(&*app, 0, say)
                }
            },
            (Stage::InSync, Reply::Nothing) => {
                app.tell("No remote changes to pull.");
                (self.at(Stage::Over), quiet, ended())
            },
            (Stage::Home, Reply::Answer(r)) => {
                if self.refs.is_empty() {
                    (self.at(Stage::Leave), concat2(NO_REFS, term::PRESS_ENTER), Ask::Enter)
                } else {
                    (self.at(Stage::Base), quiet, Ask::Base)
                }
            },
            (Stage::Base, Reply::Answer(r)) => match r {
                Ok(base) => (
                    self.at(Stage::Pause),
                    yellow_text("Rebasing to merge remote changes..."),
                    Ask::PauseAll(base),
                ),
                Err(e) => (self.at(Stage::Over), quiet, Ask::End(Err(e))),
            },
            (Stage::Pause, Reply::Ran(ran)) => (
                Pull { reason: why_not(&ran), stage: Stage::Started, ..self },
                quiet,
                Ask::InProgress,
            ),
            (Stage::Started, Reply::Flag(going)) => {
                if going {
                    (self.at(Stage::Subject), quiet, Self::ask_subject())
                } else {
                    let say = concat3(
                        "  \x1b[31m⚠ Rebase could not start: ",
                        self.reason.as_str(),
                        "\x1b[0m\n",
                    );
                    let ask = self.homeward();
                    (self.at(Stage::NoStart), say, ask)
                }
            },
            (Stage::NoStart, Reply::Answer(r)) => (
                self.at(Stage::Leave),
                term::PRESS_ENTER.to_owned(),
                Ask::Enter,
            ),
            _ => (self.at(Stage::Over), quiet, ended()),
        }
    }

    /// The ref of the commit at hand is known, if there is one.
    fn take(self, app: &App, there: bool) -> (r: (Pull, String, Ask))
        requires
            self@.at < app@.len(),
        ensures
            r.0@ == take(app@, self@, there).1,
            r.1@ == take(app@, self@, there).2,
            r.2@ == take(app@, self@, there).3,
    {
        proof {
            assert(app@.len() == app.stack.patches.len());
            assert(app@.stack.patches[self.at as int] == app.stack.patches@[self.at as int]@);
        }
        let from: usize = self.at + 1;
        let e = &app.stack.patches[self.at];
        match get_remote_ref(app.forge.kind(), self.branch.as_str(), e.pr_number, there) {
            Some(name) => {
                let subject = e.subject.clone();
                let mut next = self;
                next.refs.insert(subject, name);
                next.seek(app, from, String::new())
            },
            None => self.seek(app, from, String::new()),
        }
    }

    /// What follows an answer while the refs to merge are looked for.
    fn find(self, app: &App, reply: Reply) -> (r: (Pull, String, Ask))
        ensures
            app@ == find_step(app@, self@, reply@).0,
            r.0@ == find_step(app@, self@, reply@).1,
            r.1@ == find_step(app@, self@, reply@).2,
            r.2@ == find_step(app@, self@, reply@).3,
    {
        let quiet = String::new();
        if self.at >= app.stack.len() {
            return (self.at(Stage::Over), quiet, ended());
        }
        proof {
            assert(app@.len() == app.stack.patches.len());
            assert(app@.stack.patches[self.at as int] == app.stack.patches@[self.at as int]@);
        }
        let from: usize = self.at + 1;
        let revision = app.stack.patches[self.at].pr_number;
        match (self.stage, reply) {
            (Stage::Name, Reply::Text(branch)) => {
                if was_changed(&self.diverged, branch.as_str(), app, self.at) {
                    match (app.forge.kind(), revision) {
                        (ForgeKind::Phabricator, Some(id)) => {
                            let temporary = patch_branch(id);
                            let below = concat2(app.stack.patches[self.at].hash.as_str(), "^");
                            let ask = Ask::Git(
                                args(
                                    &[
                                        "checkout",
                                        "--quiet",
                                        "-B",
                                        temporary.as_str(),
                                        below.as_str(),
                                    ],
                                ),
                            );
                            (Pull { branch, stage: Stage::Temp, ..self }, quiet, ask)
                        },
                        (ForgeKind::Phabricator, None) => self.seek(app, from, quiet),
                        _ => {
                            let ask = Ask::Git(remote_exists_args(branch.as_str()));
                            (Pull { branch, stage: Stage::Ref, ..self }, quiet, ask)
                        },
                    }
                } else {
                    self.seek(app, from, quiet)
                }
            },
            (Stage::Ref, Reply::Answer(r)) => self.take(app, r.is_ok()),
            (Stage::Temp, Reply::Answer(r)) => match (r, revision) {
                (Ok(t), Some(id)) => {
                    let n = decimal(id as u64);
                    let name = concat2("D", n.as_str());
                    let call = Call {
                        program: "arc".to_owned(),
                        args: args(
                            &["patch", "--nobranch", "--skip-dependencies", name.as_str()],
                        ),
                        env: Vec::new(),
                        console: Console::Attached,
                    };
                    (self.at(Stage::Patch), quiet, Ask::Run(call))
                },
                _ => self.seek(app, from, quiet),
            },
            (Stage::Patch, Reply::Ran(ran)) => match revision {
                Some(id) => {
                    if ran.good() {
                        self.take(app, true)
                    } else {
                        let temporary = patch_branch(id);
                        let back = args(&["checkout", "--quiet", self.home.as_str()]);
                        let delete = args(&["branch", "-D", temporary.as_str()]);
                        let ghost one = seq!["checkout"@, "--quiet"@, self@.home];
                        let ghost two = seq!["branch"@, "-D"@, sync_state::patched_ref(id)];
                        proof {
                            assert(views::strs(back@) =~= one);
                            assert(views::strs(delete@) =~= two);
                        }
                        let mut commands: Vec<Vec<String>> = Vec::new();
                        commands.push(back);
                        commands.push(delete);
                        proof {
                            assert(views::lists(commands@) =~= seq![one, two]);
                        }
                        (self.at(Stage::Unpatch), quiet, Ask::GitAll(commands))
                    }
                },
                None => self.seek(app, from, quiet),
            },
            (Stage::Unpatch, Reply::Nothing) => self.seek(app, from, quiet),
            _ => (self.at(Stage::Over), quiet, ended()),
        }
    }

    /// What follows an answer while the rebase goes from commit to commit.
    fn walk(self, app: &App, reply: Reply) -> (r: (Pull, String, Ask))
        ensures
            app@ == walk_step(app@, self@, reply@).0,
            r.0@ == walk_step(app@, self@, reply@).1,
            r.1@ == walk_step(app@, self@, reply@).2,
            r.2@ == walk_step(app@, self@, reply@).3,
    {
        let quiet = String::new();
        match (self.stage, reply) {
            (Stage::Subject, Reply::Answer(r)) => {
                let subject = match r {
                    Ok(t) => trimmed(t.as_str()),
                    Err(e) => String::new(),
                };
                match self.refs.get(subject.as_str()) {
                    Some(name) => {
                        let ask = Ask::Run(
                            capture(
                                "git",
                                args(&["merge", "--squash", "--no-commit", name.as_str()]),
                            ),
                        );
                        let say = concat3(
                            "    \x1b[36mMerging remote changes for: ",
                            subject.as_str(),
                            "\x1b[0m\n",
                        );
                        (Pull { subject, stage: Stage::Merge, ..self }, say, ask)
                    },
                    None => (
                        Pull { subject, stage: Stage::Continue, ..self },
                        quiet,
                        Ask::Continue,
                    ),
                }
            },
            (Stage::Merge, Reply::Ran(ran)) => {
                if has_conflict(&ran) {
                    (self.at(Stage::MergeKey), MERGE_CONFLICT.to_owned(), Ask::Key)
                } else {
                    (self.at(Stage::Add), quiet, add_all())
                }
            },
            (Stage::MergeKey, Reply::Key(c)) => {
                if c == 'c' {
                    (self.at(Stage::Add), quiet, add_all())
                } else if c == 'a' {
                    (self.at(Stage::AbortMerge), quiet, Ask::Abort)
                } else {
                    (self, quiet, Ask::Key)
                }
            },
            (Stage::Add, Reply::Ran(ran)) => (self.at(Stage::Amend), quiet, amend_commit()),
            (Stage::Amend, Reply::Ran(ran)) => {
                let merged: u64 = if self.merged < u64::MAX {
                    self.merged + 1
                } else {
                    self.merged
                };
                (Pull { merged, stage: Stage::Continue, ..self }, quiet, Ask::Continue)
            },
            (Stage::Continue, Reply::Rebase(r)) => match r {
                Ok(complete) => {
                    if complete {
                        self.finish(app)
                    } else {
                        (self.at(Stage::Paused), quiet, Ask::InProgress)
                    }
                },
                Err(e) => (self.at(Stage::Failed), quiet, Ask::Abort),
            },
            (Stage::Paused, Reply::Flag(going)) => {
                if going {
                    (self.at(Stage::Conflicts), quiet, Ask::Conflicts)
                } else {
                    self.finish(app)
                }
            },
            (Stage::Conflicts, Reply::Texts(files)) => {
                proof {
                    assert(views::strs(files@).len() == files@.len());
                }
                if files.len() == 0 {
                    (self.at(Stage::Check), quiet, Ask::InProgress)
                } else {
                    (self.at(Stage::ConflictKey), REPLAY_CONFLICT.to_owned(), Ask::Key)
                }
            },
            (Stage::ConflictKey, Reply::Key(c)) => {
                if c == 'c' {
                    (self.at(Stage::AddResolved), quiet, add_all())
                } else if c == 'a' {
                    (self.at(Stage::AbortReplay), quiet, Ask::Abort)
                } else {
                    (self, quiet, Ask::Key)
                }
            },
            (Stage::AddResolved, Reply::Ran(ran)) => (
                self.at(Stage::Resume),
                quiet,
                Ask::Continue,
            ),
            (Stage::Resume, Reply::Rebase(r)) => match r {
                Ok(complete) => {
                    if complete {
                        (self.at(Stage::Check), quiet, Ask::InProgress)
                    } else {
                        (self.at(Stage::Resumed), quiet, Ask::InProgress)
                    }
                },
                Err(e) => (self.at(Stage::GiveUp), quiet, Ask::Abort),
            },
            (Stage::Resumed, Reply::Flag(going)) => {
                if going {
                    (self.at(Stage::ConflictKey), quiet, Ask::Key)
                } else {
                    self.finish(app)
                }
            },
            (Stage::GiveUp, Reply::Done(r)) => (self.at(Stage::Check), quiet, Ask::InProgress),
            (Stage::Check, Reply::Flag(going)) => {
                if going {
                    (self.at(Stage::Subject), quiet, Self::ask_subject())
                } else {
                    self.finish(app)
                }
            },
            (Stage::Failed, Reply::Done(r)) => self.finish(app),
            _ => (self.at(Stage::Over), quiet, ended()),
        }
    }

    /// What follows an answer once the rebase is over.
    fn end(self, app: &mut App, reply: Reply) -> (r: (Pull, String, Ask))
        requires
            old(app)@.wf(),
            !old(app)@.selecting(),
        ensures
            final(app)@ == end_step(old(app)@, self@, reply@).0,
            r.0@ == end_step(old(app)@, self@, reply@).1,
            r.1@ == end_step(old(app)@, self@, reply@).2,
            r.2@ == end_step(old(app)@, self@, reply@).3,
            final(app)@.wf(),
            !final(app)@.selecting(),
    {
        let quiet = String::new();
        let n = decimal(self.merged);
        let count = concat3("Pulled remote changes for ", n.as_str(), " PRs.");
        match (self.stage, reply) {
            (Stage::Delete, Reply::Nothing) => {
                let ask = self.homeward();
                (self.at(Stage::Restore), quiet, ask)
            },
            (Stage::Restore, Reply::Answer(r)) => (self.at(Stage::Reload), quiet, Ask::Reload),
            (Stage::Reload, Reply::Stack(r)) => {
                reload_if_read(app, r.commits);
                let line = good_text(count.as_str());
                let say = concat4(term::CLEAR, "\n", line.as_str(), NEXT);
                (self.at(Stage::Save), say, Ask::SaveState)
            },
            (Stage::Save, Reply::Nothing) => (
                self.at(Stage::Enter),
                term::PRESS_ENTER.to_owned(),
                Ask::Enter,
            ),
            (Stage::Enter, Reply::Nothing) => {
                app.notify(count);
                (self.at(Stage::Over), quiet, ended())
            },
            (Stage::AbortMerge, Reply::Done(r)) => {
                let ask = Ask::GitAll(clearing(&self.refs));
                (self.at(Stage::DeleteAborted), quiet, ask)
            },
            (Stage::DeleteAborted, Reply::Nothing) => (
                self.at(Stage::Aborted),
                concat2(ABORTED, term::PRESS_ENTER),
                Ask::Enter,
            ),
            (Stage::AbortReplay, Reply::Done(r)) => (
                self.at(Stage::Aborted),
                concat2(ABORTED, term::PRESS_ENTER),
                Ask::Enter,
            ),
            (Stage::Aborted, Reply::Nothing) => (
                self.at(Stage::AbortedReload),
                quiet,
                Ask::Reload,
            ),
            (Stage::AbortedReload, Reply::Stack(r)) => {
                reload_if_read(app, r.commits);
                (self.at(Stage::Over), quiet, ended())
            },
            _ => (self.at(Stage::Over), quiet, ended()),
        }
    }

    /// What follows an answer.
    pub fn step(self, app: &mut App, reply: Reply) -> (r: (Pull, String, Ask))
        requires
            old(app)@.wf(),
            !old(app)@.selecting(),
        ensures
            final(app)@ == pull_step(old(app)@, self@, reply@).0,
            r.0@ == pull_step(old(app)@, self@, reply@).1,
            r.1@ == pull_step(old(app)@, self@, reply@).2,
            r.2@ == pull_step(old(app)@, self@, reply@).3,
            final(app)@.wf(),
            !final(app)@.selecting(),
    {
        match self.stage.part() {
            Part::Start => self.start(app, reply),
            Part::Find => self.find(&*app, reply),
            Part::Walk => self.walk(&*app, reply),
            Part::End => self.end(app, reply),
        }
    }
}

/// Where no review was changed by someone else nothing is rebased: the user is told so,
/// and the pull is over.
pub proof fn law_nothing_to_pull(a: AppView, s: PullView, reply: ReplyView)
    requires
        s.stage == Stage::Diverged,
    ensures
        ({
            let one = pull_step(a, s, ReplyView::Diverged(Some(seq![])));
            let two = pull_step(one.0, one.1, reply);
            one.0 == a && one.3 == AskView::Enter && two.3 == super::end()
        }),
{
}

/// A user who gives up has the rebase aborted, and nothing is put on record as pushed.
pub proof fn law_giving_up(
    a: AppView,
    s: PullView,
    aborted: Result<(), Seq<char>>,
    r: super::super::app::ReloadedView,
)
    requires
        s.stage == Stage::MergeKey || s.stage == Stage::ConflictKey,
    ensures
        ({
            let one = pull_step(a, s, ReplyView::Key('a'));
            let two = pull_step(one.0, one.1, ReplyView::Done(aborted));
            let three = pull_step(two.0, two.1, ReplyView::Nothing);
            let four = pull_step(three.0, three.1, ReplyView::Nothing);
            let last = if s.stage == Stage::MergeKey {
                pull_step(four.0, four.1, ReplyView::Stack(r))
            } else {
                pull_step(three.0, three.1, ReplyView::Stack(r))
            };
            &&& one.3 == AskView::Abort
            &&& !(two.3 is SaveState)
            &&& !(three.3 is SaveState)
            &&& !(four.3 is SaveState)
            &&& last.3 == super::end()
            &&& last.0 == rebase::maybe_reloaded(a, r.commits)
        }),
{
}

/// Once the rebase is over, the branch that was current before it is current again before
/// the stack is read.
pub proof fn law_back_home(a: AppView, s: PullView, went: Result<Seq<char>, Seq<char>>)
    ensures
        ({
            let one = finish(a, s);
            let two = pull_step(one.0, one.1, ReplyView::Nothing);
            let three = pull_step(two.0, two.1, ReplyView::Answer(went));
            two.3 == go_home(s.home) && three.3 == AskView::Reload
        }),
{
}

/// For Phabricator nothing is merged but what arc patched: a ref is taken up only once a
/// patch of the commit's revision has succeeded, and it is the temporary branch of that
/// revision.
pub proof fn law_merges_patches(a: AppView, s: PullView, reply: ReplyView)
    requires
        s.stage.in_part() == Part::Find,
        a.forge.kind() == ForgeKind::Phabricator,
        s.stage != Stage::Ref,
    ensures
        pull_step(a, s, reply).1.stage != Stage::Ref,
        ({
            let t = pull_step(a, s, reply).1;
            t.refs != s.refs ==> {
                &&& s.stage == Stage::Patch
                &&& reply matches ReplyView::Ran(ran) && ran.good()
                &&& a.stack.patches[s.at as int].pr_number matches Some(id) && t.refs
                    == strmap::put(
                    s.refs,
                    a.stack.patches[s.at as int].subject,
                    sync_state::patched_ref(id),
                )
            }
        }),
{
}

/// The temporary branch of a revision that was taken up is among those that are deleted
/// when the rebase is over.
pub proof fn law_temporary_cleared(refs: Seq<(Seq<char>, Seq<char>)>, i: int, id: u32)
    requires
        0 <= i < refs.len(),
        refs[i].1 == sync_state::patched_ref(id),
    ensures
        clear_away(refs).contains(seq!["branch"@, "-D"@, sync_state::patched_ref(id)]),
    decreases refs.len(),
{
    let name = sync_state::patched_ref(id);
    let command = seq!["branch"@, "-D"@, name];
    let all = clear_away(refs);
    if i == refs.len() - 1 {
        let start = sync_state::TEMPORARY@;
        assert(name.subrange(0, start.len() as int) =~= start);
        assert(start.is_prefix_of(name));
        assert(all[all.len() - 1] == command);
    } else {
        let before = clear_away(refs.drop_last());
        law_temporary_cleared(refs.drop_last(), i, id);
        let k = choose|k: int| 0 <= k < before.len() && before[k] == command;
        assert(all[k] == command);
    }
}

/// A ref is merged only into the commit whose subject it was found for.
pub proof fn law_merged_by_subject(a: AppView, s: PullView, subject: Seq<char>)
    requires
        s.stage == Stage::Subject,
    ensures
        ({
            let out = pull_step(a, s, ReplyView::Answer(Ok(subject)));
            let name = strmap::lookup(s.refs, chars::trim(subject));
            out.3 == if name is Some {
                ask_merge(name->0)
            } else {
                AskView::Continue
            }
        }),
{
}

} // verus!
