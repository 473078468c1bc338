//! What is asked of git and of arc for the revisions of Phabricator.
use vstd::prelude::*;

use crate::forge::machine::{AskView, ReplyView};
use crate::forge::operation;
use crate::forge::operation::OperationView;
use crate::forge::phabricator::depend;
use crate::forge::phabricator::depend::FixView;
use crate::forge::phabricator::message;
use crate::forge::phabricator::sync;
use crate::forge::phabricator::sync::SyncView;
use crate::forge::phabricator::upload;
use crate::forge::phabricator::upload::UploadView;
use crate::forge::ForgeView;
use crate::git::call::{Console, RanView};
use crate::stack::{PatchStatus, PatchView};
use crate::text::bytes;
use crate::text::chars;
use crate::text::number;
use crate::text::pieces;

verus! {

/// The name of a revision.
pub open spec fn named(id: u32) -> Seq<char> {
    "D"@ + number::dec(id as nat)
}

/// Whether arc is run with these words, in the terminal or without input.
pub open spec fn runs_arc(ask: AskView, words: Seq<Seq<char>>, console: Console) -> bool {
    match ask {
        AskView::Run(c) => {
            &&& c.program == "arc"@
            &&& c.args == words
            &&& c.env.len() == 0
            &&& c.console == console
        },
        _ => false,
    }
}

/// Whether the current commit is given another message.
pub open spec fn amends(ask: AskView, text: Seq<char>) -> bool {
    match ask {
        AskView::Run(c) => {
            &&& c.program == "git"@
            &&& c.args == seq!["commit"@, "--amend"@, "--message"@, text]
            &&& c.env.len() == 0
            &&& c.console == Console::Captured
        },
        _ => false,
    }
}

/// Uploading pauses at the commit: a new one at once, a revision after its message was read for
/// the number.
pub proof fn law_upload_begins(
    update: bool,
    hash: Seq<char>,
    subject: Seq<char>,
    branch: Seq<char>,
    base: Seq<char>,
    body: Seq<char>,
    text: Seq<char>,
)
    ensures
        ({
            let (o, ask) = operation::submitting(
                ForgeView::Phabricator,
                update,
                hash,
                subject,
                branch,
                base,
                body,
            );
            let (n, next) = operation::operation_step(o, ReplyView::Answer(Ok(text)));
            &&& !update ==> ask == AskView::EditCommit(bytes::cut(hash, 7))
            &&& update ==> {
                &&& ask == AskView::Git(seq!["log"@, "-1"@, "--format=%B"@, hash])
                &&& next == AskView::EditCommit(bytes::cut(hash, 7))
                &&& match n {
                    OperationView::Upload(u) => u.known == message::revision_id(text) && u.branch
                        == branch && u.update,
                    _ => false,
                }
            }
        }),
{
}

/// At the commit the message below it is read, for the revision that it depends on; the
/// commit's own message is changed only where it does not state that dependency yet; and then
/// the commit is uploaded, as an update where the revision is known.
pub proof fn law_upload_depends(
    u: UploadView,
    below: Seq<char>,
    text: Seq<char>,
    ran: RanView,
)
    requires
        u.stage == upload::Stage::Pause,
        u.update || message::revision_id(below) is Some,
    ensures
        ({
            let (u1, k1) = upload::upload_step(u, ReplyView::Rebase(Ok(false)));
            let (u2, k2) = upload::upload_step(u1, ReplyView::Answer(Ok(below)));
            let (u3, k3) = upload::upload_step(u2, ReplyView::Answer(Ok(text)));
            let (u4, k4) = upload::upload_step(u3, ReplyView::Ran(ran));
            let current = chars::trim(text);
            let wanted = message::depending(current, message::revision_id(below));
            let words = if u.update && u.known is Some {
                seq!["diff"@, "HEAD^"@, "--update"@, named(u.known->0)]
            } else {
                seq!["diff"@, "HEAD^"@]
            };
            &&& k1 == AskView::Git(seq!["log"@, "-1"@, "--format=%B"@, "HEAD^"@])
            &&& k2 == AskView::Git(seq!["log"@, "-1"@, "--format=%B"@])
            &&& wanted != current ==> amends(k3, wanted) && runs_arc(k4, words, Console::Attached)
            &&& wanted == current ==> runs_arc(k3, words, Console::Attached)
        }),
{
}

/// The first of a stack depends on nothing: it is uploaded as it is.
pub proof fn law_upload_first(u: UploadView, below: Seq<char>)
    requires
        u.stage == upload::Stage::Pause,
        !u.update,
        message::revision_id(below) is None,
    ensures
        ({
            let (u1, k1) = upload::upload_step(u, ReplyView::Rebase(Ok(false)));
            let (u2, k2) = upload::upload_step(u1, ReplyView::Answer(Ok(below)));
            runs_arc(k2, seq!["diff"@, "HEAD^"@], Console::Attached)
        }),
{
}

/// A commit that is not found, or a rebase that does not start, ends the upload.
pub proof fn law_upload_not_found(u: UploadView, e: Seq<char>)
    requires
        u.stage == upload::Stage::Pause,
    ensures
        upload::upload_step(u, ReplyView::Rebase(Ok(true))).1 == AskView::Done(
            Err("Commit "@ + u.short + " not found in stack"@),
        ),
        upload::upload_step(u, ReplyView::Rebase(Err(e))).1 == AskView::Done(
            Err("Failed to start rebase: "@ + e),
        ),
{
}

/// After arc, the message is read for the revision's number and the commit for its hash, and
/// the rest of the stack is rebased.
pub proof fn law_upload_reads(u: UploadView, ran: RanView, text: Seq<char>, head: Seq<char>)
    requires
        u.stage == upload::Stage::Arc,
    ensures
        ({
            let (u1, k1) = upload::upload_step(u, ReplyView::Ran(ran));
            let (u2, k2) = upload::upload_step(u1, ReplyView::Answer(Ok(text)));
            let (u3, k3) = upload::upload_step(u2, ReplyView::Answer(Ok(head)));
            &&& k1 == AskView::Git(seq!["log"@, "-1"@, "--format=%B"@])
            &&& k2 == AskView::Git(seq!["rev-parse"@, "HEAD"@])
            &&& k3 == AskView::Continue
            &&& u3.amended == chars::trim(head)
            &&& message::revision_id(text) is Some ==> u3.revision == message::revision_id(text)
            &&& message::revision_id(text) is None ==> u3.revision == u.known
            &&& u3.arc_ok == (ran matches RanView::Ended { success: true, .. })
        }),
{
}

/// Once the rest is rebased, the branch is made to point at the commit that holds the revision,
/// it is pushed, and the revision is told.
pub proof fn law_upload_ends(
    u: UploadView,
    id: u32,
    base: Seq<char>,
    log: Seq<char>,
    hash: Seq<char>,
    done: (Result<Seq<char>, Seq<char>>, Result<Seq<char>, Seq<char>>),
)
    requires
        u.stage == upload::Stage::Continue,
        u.revision == Some(id),
        message::commit_of(pieces::lines(log), None, id) == Some(hash),
    ensures
        ({
            let (u1, k1) = upload::upload_step(u, ReplyView::Rebase(Ok(true)));
            let (u2, k2) = upload::upload_step(u1, ReplyView::Answer(Ok(base)));
            let (u3, k3) = upload::upload_step(u2, ReplyView::Answer(Ok(log)));
            let (u4, k4) = upload::upload_step(u3, ReplyView::Answer(done.0));
            let (u5, k5) = upload::upload_step(u4, ReplyView::Answer(done.1));
            &&& k1 == AskView::Detect
            &&& k2 == AskView::Git(seq!["log"@, "--format=%H %B"@, base + "..HEAD"@])
            &&& k3 == AskView::Git(seq!["branch"@, "-f"@, u.branch, hash])
            &&& k4 == AskView::Git(seq!["push"@, "-f"@, "origin"@, u.branch])
            &&& match k5 {
                AskView::Done(Ok(told)) => {
                    &&& told.len() == 1
                    &&& told[0] =~= (if u.update {
                        "Revision updated: "@
                    } else {
                        "Revision created: "@
                    }) + named(id)
                },
                _ => false,
            }
        }),
{
    reveal_strlit("");
    assert(""@ =~= Seq::<char>::empty());
}

/// Where the rest does not apply, the branch is made to point at the uploaded commit itself,
/// and the user is told to resolve the conflict.
pub proof fn law_upload_conflict(
    u: UploadView,
    id: u32,
    r: Result<bool, Seq<char>>,
    done: (Result<Seq<char>, Seq<char>>, Result<Seq<char>, Seq<char>>),
)
    requires
        u.stage == upload::Stage::Continue,
        u.revision == Some(id),
        u.amended.len() > 0,
        r != Ok::<bool, Seq<char>>(true),
    ensures
        ({
            let (u1, k1) = upload::upload_step(u, ReplyView::Rebase(r));
            let (u2, k2) = upload::upload_step(u1, ReplyView::Answer(done.0));
            let (u3, k3) = upload::upload_step(u2, ReplyView::Answer(done.1));
            &&& k1 == AskView::Git(seq!["branch"@, "-f"@, u.branch, u.amended])
            &&& k2 == AskView::Git(seq!["push"@, "-f"@, "origin"@, u.branch])
            &&& k3 == AskView::Done(
                Ok(
                    seq![
                        (if u.update {
                            "Revision updated: "@
                        } else {
                            "Revision created: "@
                        }) + named(id)
                            + " (rebase has conflicts — resolve and run `git rebase --continue`)"@,
                    ],
                ),
            )
        }),
{
}

/// Where arc failed and no revision is known, what was rewritten is undone, and the failure is
/// told.
pub proof fn law_upload_fails(
    u: UploadView,
    r: Result<bool, Seq<char>>,
    a: Result<Seq<char>, Seq<char>>,
)
    requires
        u.stage == upload::Stage::Continue,
        u.revision is None,
        !u.arc_ok,
    ensures
        ({
            let (u1, k1) = upload::upload_step(u, ReplyView::Rebase(r));
            let (u2, k2) = upload::upload_step(u1, ReplyView::Answer(a));
            &&& k1 == AskView::Git(seq!["rebase"@, "--abort"@])
            &&& k2 == AskView::Done(
                Err(
                    if u.arc_ran {
                        "arc diff failed"@
                    } else {
                        "arc not found — install arcanist"@
                    },
                ),
            )
        }),
{
}

/// Every commit of the stack that has a revision is updated in a sync, with its own number,
/// hash and branch, in the order of the stack; no other is.
pub proof fn law_sync_items(p: Seq<PatchView>, branches: Seq<Seq<char>>, n: int, i: int, id: u32)
    requires
        0 <= i < n <= p.len(),
        p[i].status == PatchStatus::Submitted,
        p[i].pr_number == Some(id),
    ensures
        exists|k: int|
            0 <= k < sync::submitted(p, branches, n).len() && ({
                let item = #[trigger] sync::submitted(p, branches, n)[k];
                &&& item.id == id
                &&& item.subject == p[i].subject
                &&& item.hash == p[i].hash
                &&& item.branch == branches[i]
                &&& item.parent == message::parent_revision(p, i)
            }),
    decreases n,
{
    let all = sync::submitted(p, branches, n);
    let before = sync::submitted(p, branches, n - 1);
    if i < n - 1 {
        law_sync_items(p, branches, n - 1, i, id);
        let k = choose|k: int|
            0 <= k < before.len() && ({
                let item = #[trigger] before[k];
                &&& item.id == id
                &&& item.subject == p[i].subject
                &&& item.hash == p[i].hash
                &&& item.branch == branches[i]
                &&& item.parent == message::parent_revision(p, i)
            });
        assert(all[k] == before[k]);
    } else {
        assert(all[all.len() - 1].id == id);
    }
}

/// A sync notes the current branch, deals with the revisions one after the other, and goes back
/// to the branch whether there was anything to do or not.
pub proof fn law_sync_home(patches: Seq<PatchView>, branches: Seq<Seq<char>>, home: Seq<char>)
    ensures
        ({
            let (o, ask) = operation::syncing_all(ForgeView::Phabricator, patches, branches);
            let (n, next) = operation::operation_step(o, ReplyView::Answer(Ok(home)));
            let items = sync::submitted(patches, branches, patches.len() as int);
            &&& ask == AskView::Git(seq!["rev-parse"@, "--abbrev-ref"@, "HEAD"@])
            &&& items.len() == 0 ==> next == AskView::Git(
                seq!["checkout"@, "--quiet"@, chars::trim(home)],
            )
            &&& items.len() > 0 ==> match next {
                AskView::Progress(words, args) => args == seq![
                    "checkout"@,
                    "--quiet"@,
                    items[0].hash,
                ],
                _ => false,
            }
            &&& match n {
                OperationView::Revisions(s) => s.items == items && s.at == 0 && s.home
                    == chars::trim(home) && s.updates.len() == 0,
                _ => false,
            }
        }),
{
}

/// One revision in a sync: its commit is checked out, its message is changed only where it does
/// not state what it depends on, arc updates that revision without asking, and the branch is
/// made to point at the result and pushed.
pub proof fn law_sync_revision(
    s: SyncView,
    text: Seq<char>,
    amended: RanView,
    ran: RanView,
    done: Result<Seq<char>, Seq<char>>,
)
    requires
        s.stage == sync::Stage::Checkout,
        s.at < s.items.len(),
    ensures
        ({
            let item = s.items[s.at as int];
            let (s1, k1) = sync::sync_step(s, ReplyView::Answer(Ok(seq![])));
            let (s2, k2) = sync::sync_step(s1, ReplyView::Answer(Ok(text)));
            let current = chars::trim(text);
            let wanted = message::depending(current, item.parent);
            let (s3, k3) = if wanted != current {
                sync::sync_step(s2, ReplyView::Ran(amended))
            } else {
                (s2, k2)
            };
            let (s4, k4) = sync::sync_step(s3, ReplyView::Ran(ran));
            let (s5, k5) = sync::sync_step(s4, ReplyView::Answer(done));
            &&& k1 == AskView::Git(seq!["log"@, "-1"@, "--format=%B"@])
            &&& wanted != current ==> amends(k2, wanted)
            &&& runs_arc(
                k3,
                seq![
                    "diff"@,
                    "HEAD^"@,
                    "--update"@,
                    named(item.id),
                    "--message"@,
                    "Updated diff"@,
                ],
                Console::NoInput,
            )
            &&& k4 == AskView::Git(seq!["branch"@, "-f"@, item.branch, "HEAD"@])
            &&& k5 == AskView::Git(seq!["push"@, "-f"@, "origin"@, item.branch])
            &&& s5.at == s.at
            &&& s5.updates == s.updates.push(
                if ran matches RanView::Ended { success: true, .. } {
                    "✓ "@ + named(item.id) + " updated"@
                } else {
                    "⚠ "@ + named(item.id) + " update failed"@
                },
            )
        }),
{
}

/// After a push, or after a commit that could not be checked out, the next revision is taken
/// up, and after the last the branch that was current is gone back to and everything is told.
pub proof fn law_sync_next(
    s: SyncView,
    done: Result<Seq<char>, Seq<char>>,
    e: Seq<char>,
    back: Result<Seq<char>, Seq<char>>,
)
    requires
        s.at < s.items.len(),
        s.stage == sync::Stage::Push || s.stage == sync::Stage::Checkout,
    ensures
        ({
            let (s1, k1) = if s.stage == sync::Stage::Push {
                sync::sync_step(s, ReplyView::Answer(done))
            } else {
                sync::sync_step(s, ReplyView::Answer(Err(e)))
            };
            let (s2, k2) = sync::sync_step(s1, ReplyView::Answer(back));
            &&& s.at + 1 < s.items.len() ==> {
                &&& s1.at == s.at + 1
                &&& s1.stage == sync::Stage::Checkout
                &&& match k1 {
                    AskView::Progress(words, args) => args == seq![
                        "checkout"@,
                        "--quiet"@,
                        s.items[s.at as int + 1].hash,
                    ],
                    _ => false,
                }
            }
            &&& s.at + 1 == s.items.len() ==> {
                &&& k1 == AskView::Git(seq!["checkout"@, "--quiet"@, s.home])
                &&& k2 == AskView::Done(Ok(s1.updates))
            }
            &&& s.stage == sync::Stage::Push ==> s1.updates == s.updates
            &&& s.stage == sync::Stage::Checkout ==> s1.updates == s.updates.push(
                "⚠ "@ + named(s.items[s.at as int].id) + " checkout failed, skipping"@,
            )
        }),
{
}

/// Looking for stale dependencies, the messages of the commits are read in the order of the
/// stack; a commit without a revision is passed over; and the message of the one below tells
/// what the dependency has to be.
pub proof fn law_scan(f: FixView, text: Seq<char>, below: Seq<char>)
    requires
        f.stage == depend::Stage::Scan,
        f.at < f.hashes.len(),
    ensures
        ({
            let (f1, k1) = depend::fix_step(f, ReplyView::Answer(Ok(text)));
            let (f2, k2) = depend::fix_step(f1, ReplyView::Answer(Ok(below)));
            let stated = message::stated_lines(pieces::lines(text));
            &&& message::revision_id(text) is None ==> {
                &&& f.at + 1 < f.hashes.len() ==> k1 == AskView::Git(
                    seq!["log"@, "-1"@, "--format=%B"@, f.hashes[f.at as int + 1]],
                )
                &&& f.at + 1 == f.hashes.len() ==> k1 == AskView::Done(
                    Ok(Seq::<Seq<char>>::empty()),
                )
            }
            &&& message::revision_id(text) is Some && f.at > 0 ==> {
                &&& k1 == AskView::Git(
                    seq!["log"@, "-1"@, "--format=%B"@, f.hashes[f.at as int - 1]],
                )
                &&& stated == message::revision_id(below) ==> f.at + 1 < f.hashes.len() ==> k2
                    == AskView::Git(seq!["log"@, "-1"@, "--format=%B"@, f.hashes[f.at as int + 1]])
                &&& stated != message::revision_id(below) ==> replays(k2, f.base)
            }
            &&& message::revision_id(text) is Some && f.at == 0 && stated is Some ==> replays(
                k1,
                f.base,
            )
        }),
{
}

/// Whether the commits above a base are replayed with an editor of the todo list.
pub open spec fn replays(ask: AskView, base: Seq<char>) -> bool {
    match ask {
        AskView::Run(c) => {
            &&& c.program == "git"@
            &&& c.args == seq!["rebase"@, "-i"@, base]
            &&& c.env.len() == 1
            &&& c.env[0].0 == "GIT_SEQUENCE_EDITOR"@
            &&& c.console == Console::Captured
        },
        _ => false,
    }
}

/// At each pause of the replay, a commit with a revision is made to state the revision of the
/// commit below it, and the others are left as they are.
pub proof fn law_fix(f: FixView, text: Seq<char>, below: Seq<char>, ran: RanView)
    requires
        f.stage == depend::Stage::Current,
    ensures
        ({
            let (f1, k1) = depend::fix_step(f, ReplyView::Answer(Ok(text)));
            let (f2, k2) = depend::fix_step(f1, ReplyView::Answer(Ok(below)));
            let (f3, k3) = depend::fix_step(f2, ReplyView::Ran(ran));
            let current = chars::trim(text);
            let wanted = message::depending(current, message::revision_id(below));
            &&& message::revision_id(current) is None ==> k1 == AskView::Continue
            &&& message::revision_id(current) is Some ==> {
                &&& k1 == AskView::Git(seq!["log"@, "-1"@, "--format=%B"@, "HEAD^"@])
                &&& wanted != current ==> amends(k2, wanted) && k3 == AskView::Continue
                &&& wanted == current ==> k2 == AskView::Continue
            }
        }),
{
}

/// The replay goes on until git says that it is over, and is aborted where git fails.
pub proof fn law_fix_goes_on(f: FixView, e: Seq<char>, a: Result<Seq<char>, Seq<char>>)
    requires
        f.stage == depend::Stage::Continue,
    ensures
        ({
            let whole = depend::fix_step(f, ReplyView::Rebase(Ok(true)));
            let (f1, k1) = depend::fix_step(f, ReplyView::Rebase(Ok(false)));
            let (f2, k2) = depend::fix_step(f1, ReplyView::Flag(true));
            let (f3, k3) = depend::fix_step(f, ReplyView::Rebase(Err(e)));
            let (f4, k4) = depend::fix_step(f3, ReplyView::Answer(a));
            &&& whole.1 == AskView::Done(Ok(Seq::<Seq<char>>::empty()))
            &&& k1 == AskView::InProgress
            &&& k2 == AskView::Git(seq!["log"@, "-1"@, "--format=%B"@])
            &&& f2.stage == depend::Stage::Current
            &&& k3 == AskView::Git(seq!["rebase"@, "--abort"@])
            &&& k4 == AskView::Done(Ok(Seq::<Seq<char>>::empty()))
        }),
{
}

} // verus!
