//! What is asked of git and of the platform when a commit is submitted or updated.
use vstd::prelude::*;

use super::command;
use crate::forge::base_edit;
use crate::forge::operation;
use crate::forge::operation::OperationView;
use crate::forge::machine::{AskView, ReplyView};
use crate::forge::submission;
use crate::forge::submission::{Stage, SubmissionView};
use crate::forge::{gitea, github, gitlab, ForgeKind, ForgeView};
use crate::git::call::{CallView, Console, RanView};
use crate::text::chars;
use crate::text::search;

verus! {

/// Whether a command asks the platform for a new review of a branch against a base, with a
/// title and a text.
pub open spec fn asks_review(
    kind: ForgeKind,
    c: CallView,
    branch: Seq<char>,
    base: Seq<char>,
    title: Seq<char>,
    text: Seq<char>,
) -> bool {
    match kind {
        ForgeKind::GitHub => {
            &&& command::runs(c, "gh"@, "pr"@, "create"@)
            &&& command::gives(c, "--head"@, branch)
            &&& command::gives(c, "--base"@, base)
            &&& command::gives(c, "--title"@, title)
            &&& command::gives(c, "--body"@, text)
        },
        ForgeKind::GitLab => {
            &&& command::runs(c, "glab"@, "mr"@, "create"@)
            &&& command::gives(c, "--source-branch"@, branch)
            &&& command::gives(c, "--target-branch"@, base)
            &&& command::gives(c, "--title"@, title)
            &&& command::gives(c, "--description"@, text)
            &&& c.args.last() == "--yes"@
        },
        _ => {
            &&& command::runs(c, "tea"@, "pr"@, "create"@)
            &&& command::gives(c, "--head"@, branch)
            &&& command::gives(c, "--base"@, base)
            &&& command::gives(c, "--title"@, title)
            &&& command::gives(c, "--description"@, text)
        },
    }
}

/// The options have different names.
proof fn lemma_names()
    ensures
        "--head"@ != "--base"@,
        "--head"@ != "--title"@,
        "--head"@ != "--body"@,
        "--head"@ != "--description"@,
        "--head"@ != "--repo"@,
        "--base"@ != "--title"@,
        "--base"@ != "--body"@,
        "--base"@ != "--description"@,
        "--base"@ != "--repo"@,
        "--title"@ != "--body"@,
        "--title"@ != "--description"@,
        "--title"@ != "--repo"@,
        "--title"@ != "--source-branch"@,
        "--title"@ != "--target-branch"@,
        "--description"@ != "--repo"@,
        "--description"@ != "--source-branch"@,
        "--description"@ != "--target-branch"@,
        "--source-branch"@ != "--target-branch"@,
{
    reveal_strlit("--head");
    reveal_strlit("--base");
    reveal_strlit("--title");
    reveal_strlit("--body");
    reveal_strlit("--description");
    reveal_strlit("--repo");
    reveal_strlit("--source-branch");
    reveal_strlit("--target-branch");
    assert("--head"@[2] == 'h' && "--base"@[2] == 'b' && "--body"@[2] == 'b' && "--repo"@[2]
        == 'r');
    assert("--source-branch"@[2] == 's' && "--target-branch"@[2] == 't');
    assert("--base"@[3] == 'a' && "--body"@[3] == 'o');
    assert("--title"@[2] == 't' && "--title"@[3] == 'i' && "--target-branch"@[3] == 'a');
    assert("--description"@[2] == 'd');
}

/// A new review on GitHub is asked for the branch, against the base, with the subject as its
/// title and the body as its text: the argument after each option is the right one.
pub proof fn law_github_creation(
    branch: Seq<char>,
    base: Seq<char>,
    subject: Seq<char>,
    body: Seq<char>,
)
    ensures
        asks_review(
            ForgeKind::GitHub,
            github::creation(branch, base, subject, body),
            branch,
            base,
            subject,
            body,
        ),
{
    lemma_names();
    let c = github::creation(branch, base, subject, body);
    command::lemma_gives(c, "--head"@, branch, 2);
    command::lemma_gives(c, "--base"@, base, 4);
    command::lemma_gives(c, "--title"@, subject, 6);
    command::lemma_gives(c, "--body"@, body, 8);
}

/// So it is on GitLab, without a question to the user.
pub proof fn law_gitlab_creation(
    branch: Seq<char>,
    base: Seq<char>,
    subject: Seq<char>,
    body: Seq<char>,
)
    ensures
        asks_review(
            ForgeKind::GitLab,
            gitlab::creation(branch, base, subject, body),
            branch,
            base,
            subject,
            body,
        ),
{
    lemma_names();
    let c = gitlab::creation(branch, base, subject, body);
    command::lemma_gives(c, "--source-branch"@, branch, 2);
    command::lemma_gives(c, "--target-branch"@, base, 4);
    command::lemma_gives(c, "--title"@, subject, 6);
    command::lemma_gives(c, "--description"@, body, 8);
}

/// So it is on Gitea, in the repository that the remote's address names.
pub proof fn law_gitea_creation(
    slug: Seq<char>,
    branch: Seq<char>,
    base: Seq<char>,
    subject: Seq<char>,
    body: Seq<char>,
)
    ensures
        asks_review(
            ForgeKind::Gitea,
            gitea::creation(slug, branch, base, subject, body),
            branch,
            base,
            subject,
            body,
        ),
        command::gives(gitea::creation(slug, branch, base, subject, body), "--repo"@, slug),
{
    lemma_names();
    let c = gitea::creation(slug, branch, base, subject, body);
    command::lemma_gives(c, "--repo"@, slug, 2);
    command::lemma_gives(c, "--head"@, branch, 4);
    command::lemma_gives(c, "--base"@, base, 6);
    command::lemma_gives(c, "--title"@, subject, 8);
    command::lemma_gives(c, "--description"@, body, 10);
}

/// What a submission is about stays as it was told at its start, whatever the answers are.
pub proof fn law_submission_keeps(s: SubmissionView, reply: ReplyView)
    ensures
        ({
            let n = submission::submission_step(s, reply).0;
            &&& n.kind == s.kind
            &&& n.template == s.template
            &&& n.update == s.update
            &&& n.hash == s.hash
            &&& n.subject == s.subject
            &&& n.branch == s.branch
            &&& n.base == s.base
            &&& n.body == s.body
        }),
{
}

/// Whenever a submission comes to its push, it asks for the branch to be pushed, with force;
/// and once that is done, the platform is asked for a review of that same branch, against the
/// base and with the texts that the submission is about.
pub proof fn law_pushed_is_head(s: SubmissionView, reply: ReplyView, done: Seq<char>)
    requires
        s.kind == ForgeKind::GitHub || s.kind == ForgeKind::GitLab || s.kind == ForgeKind::Gitea,
        submission::submission_step(s, reply).0.stage == Stage::Push,
    ensures
        ({
            let (n, ask) = submission::submission_step(s, reply);
            let (m, next) = submission::submission_step(n, ReplyView::Answer(Ok(done)));
            &&& ask matches AskView::Git(pushed)
            &&& pushed == seq!["push"@, "-f"@, "origin"@, s.branch]
            &&& !s.update ==> match next {
                AskView::Run(c) => asks_review(
                    s.kind,
                    c,
                    pushed[3],
                    s.base,
                    s.subject,
                    s.body,
                ) && (s.kind == ForgeKind::Gitea ==> command::gives(c, "--repo"@, n.slug)),
                _ => false,
            }
        }),
{
    law_github_creation(s.branch, s.base, s.subject, s.body);
    law_gitlab_creation(s.branch, s.base, s.subject, s.body);
    let n = submission::submission_step(s, reply).0;
    law_gitea_creation(n.slug, s.branch, s.base, s.subject, s.body);
}

/// Submitting a commit on GitHub or GitLab, when nothing fails: the branch is made to point at
/// the commit unless it is the current one, it is pushed with force, a review of it is asked
/// for, the branch that was current is checked out again, and the address of the review is
/// told.
pub proof fn law_submit(
    f: ForgeView,
    hash: Seq<char>,
    subject: Seq<char>,
    branch: Seq<char>,
    base: Seq<char>,
    body: Seq<char>,
    home: Seq<char>,
    texts: (Seq<char>, Seq<char>),
    out: (Seq<char>, Seq<char>),
    back: Result<Seq<char>, Seq<char>>,
)
    requires
        f is GitHub || f is GitLab,
    ensures
        ({
            let (o0, a0) = operation::submitting(f, false, hash, subject, branch, base, body);
            let (o1, a1) = operation::operation_step(o0, ReplyView::Answer(Ok(home)));
            let (o2, a2) = if chars::trim(home) == branch {
                (o1, a1)
            } else {
                operation::operation_step(o1, ReplyView::Answer(Ok(texts.0)))
            };
            let (o3, a3) = operation::operation_step(o2, ReplyView::Answer(Ok(texts.1)));
            let ran = RanView::Ended { success: true, stdout: out.0, stderr: out.1 };
            let (o4, a4) = operation::operation_step(o3, ReplyView::Ran(ran));
            let (o5, a5) = operation::operation_step(o4, ReplyView::Answer(back));
            &&& a0 == AskView::Git(seq!["rev-parse"@, "--abbrev-ref"@, "HEAD"@])
            &&& chars::trim(home) != branch ==> a1 == AskView::Git(
                seq!["branch"@, "-f"@, branch, hash],
            )
            &&& a2 == AskView::Git(seq!["push"@, "-f"@, "origin"@, branch])
            &&& match a3 {
                AskView::Run(c) => asks_review(
                    if f is GitHub {
                        ForgeKind::GitHub
                    } else {
                        ForgeKind::GitLab
                    },
                    c,
                    branch,
                    base,
                    subject,
                    body,
                ),
                _ => false,
            }
            &&& a4 == AskView::Git(seq!["checkout"@, "--quiet"@, chars::trim(home)])
            &&& a5 == AskView::Done(
                Ok(
                    seq![
                        if f is GitHub {
                            "PR created: "@ + chars::trim(out.0) + " → "@ + base
                        } else {
                            "MR created: "@ + chars::trim(out.0)
                        },
                    ],
                ),
            )
        }),
{
    law_github_creation(branch, base, subject, body);
    law_gitlab_creation(branch, base, subject, body);
}

/// Submitting a commit on Gitea, when nothing fails: the repository is read off the remote's
/// address, the branch is made to point at the commit and pushed with force, and a review of
/// it is asked for in that repository.
pub proof fn law_gitea_submit(
    hash: Seq<char>,
    subject: Seq<char>,
    branch: Seq<char>,
    base: Seq<char>,
    body: Seq<char>,
    remote: Seq<char>,
    texts: (Seq<char>, Seq<char>),
    out: (Seq<char>, Seq<char>),
)
    requires
        gitea::slug_of(remote) is Some,
        chars::trim(out.0).len() > 0,
    ensures
        ({
            let (o0, a0) = operation::submitting(
                ForgeView::Gitea,
                false,
                hash,
                subject,
                branch,
                base,
                body,
            );
            let (o1, a1) = operation::operation_step(o0, ReplyView::Answer(Ok(remote)));
            let (o2, a2) = operation::operation_step(o1, ReplyView::Answer(Ok(texts.0)));
            let (o3, a3) = operation::operation_step(o2, ReplyView::Answer(Ok(texts.1)));
            let ran = RanView::Ended { success: true, stdout: out.0, stderr: out.1 };
            let (o4, a4) = operation::operation_step(o3, ReplyView::Ran(ran));
            &&& a0 == AskView::Git(seq!["remote"@, "get-url"@, "origin"@])
            &&& a1 == AskView::Git(seq!["branch"@, "-f"@, branch, hash])
            &&& a2 == AskView::Git(seq!["push"@, "-f"@, "origin"@, branch])
            &&& match a3 {
                AskView::Run(c) => asks_review(
                    ForgeKind::Gitea,
                    c,
                    branch,
                    base,
                    subject,
                    body,
                ) && command::gives(c, "--repo"@, gitea::slug_of(remote)->0),
                _ => false,
            }
            &&& a4 == AskView::Done(Ok(seq!["PR created: "@ + chars::trim(out.0)]))
        }),
{
    law_gitea_creation(gitea::slug_of(remote)->0, branch, base, subject, body);
}

/// A submission that is refused by git ends at once, with what git said; so does one that the
/// platform refuses, unless the review is there already.
pub proof fn law_submit_refused(s: SubmissionView, e: Seq<char>, out: Seq<char>)
    requires
        !s.update,
        s.kind == ForgeKind::GitHub || s.kind == ForgeKind::GitLab || s.kind == ForgeKind::Gitea,
    ensures
        s.stage == Stage::Home || s.stage == Stage::Branch || s.stage == Stage::Push
            ==> submission::submission_step(s, ReplyView::Answer(Err(e))).1 == AskView::Done(
            Err(e),
        ),
        s.stage == Stage::Create && s.kind != ForgeKind::Gitea && !search::contains(
            e,
            "already exists"@,
        ) ==> ({
            let ran = RanView::Ended { success: false, stdout: out, stderr: e };
            let (n, ask) = submission::submission_step(s, ReplyView::Ran(ran));
            let (m, end) = submission::submission_step(n, ReplyView::Answer(Ok(out)));
            &&& ask == AskView::Git(seq!["checkout"@, "--quiet"@, s.home])
            &&& end == AskView::Done(
                Err(
                    (if s.kind == ForgeKind::GitHub {
                        "gh pr create failed: "@
                    } else {
                        "glab mr create failed: "@
                    }) + e,
                ),
            )
        }),
        s.stage == Stage::Create && s.kind == ForgeKind::Gitea ==> submission::submission_step(
            s,
            ReplyView::Ran(RanView::Ended { success: false, stdout: out, stderr: e }),
        ).1 == AskView::Done(Err("tea pr create failed: "@ + e)),
{
}

/// Whether GitHub is asked to put a review on another base.
pub open spec fn asks_base(c: CallView, review: Seq<char>, base: Seq<char>) -> bool {
    &&& c.program == "gh"@
    &&& c.args == seq!["pr"@, "edit"@, review, "--base"@, base]
    &&& c.env.len() == 0
    &&& c.console == Console::Captured
}

/// Whether GitHub is asked for the number of the review of a branch.
pub open spec fn asks_number(c: CallView, branch: Seq<char>) -> bool {
    &&& c.program == "gh"@
    &&& c.args == seq!["pr"@, "view"@, branch, "--json"@, "number"@, "-q"@, ".number"@]
    &&& c.env.len() == 0
    &&& c.console == Console::Captured
}

/// Once the base of a review on GitHub is to be set, it is set, and what was to be told is.
proof fn lemma_base_set(s: SubmissionView, told: Seq<char>, last: Seq<char>)
    requires
        s.stage == Stage::Edit,
        s.kind == ForgeKind::GitHub,
        s.edit.kind == ForgeKind::GitHub,
        s.edit.stage == base_edit::Stage::Number,
    ensures
        ({
            let number = RanView::Ended { success: true, stdout: told, stderr: seq![] };
            let (s3, a3) = submission::submission_step(s, ReplyView::Ran(number));
            let good = RanView::Ended { success: true, stdout: last, stderr: seq![] };
            let (s4, a4) = submission::submission_step(s3, ReplyView::Ran(good));
            &&& match a3 {
                AskView::Run(c) => asks_base(
                    c,
                    if chars::trim(told).len() > 0 {
                        chars::trim(told)
                    } else {
                        s.edit.branch
                    },
                    s.edit.base,
                ),
                _ => false,
            }
            &&& a4 == (match s.outcome {
                Ok(t) => AskView::Done(Ok(seq![t])),
                Err(e) => AskView::Done(Err(e)),
            })
        }),
{
    let number = RanView::Ended { success: true, stdout: told, stderr: seq![] };
    let (s3, a3) = submission::submission_step(s, ReplyView::Ran(number));
    let review = if chars::trim(told).len() > 0 {
        chars::trim(told)
    } else {
        s.edit.branch
    };
    assert(a3 matches AskView::Run(c) && c.args =~= seq![
        "pr"@,
        "edit"@,
        review,
        "--base"@,
        s.edit.base,
    ]);
    assert(s3.outcome == s.outcome);
}

/// A review that is there already is put on the base: by its number where GitHub tells it, and
/// by its branch where it does not. What is told in the end names the branch and the base.
pub proof fn law_existing_review(
    s: SubmissionView,
    refusal: (Seq<char>, Seq<char>),
    back: Result<Seq<char>, Seq<char>>,
    told: Seq<char>,
    last: Seq<char>,
)
    requires
        s.stage == Stage::Create,
        s.kind == ForgeKind::GitHub,
        search::contains(refusal.1, "already exists"@),
    ensures
        ({
            let ran = RanView::Ended { success: false, stdout: refusal.0, stderr: refusal.1 };
            let (s1, a1) = submission::submission_step(s, ReplyView::Ran(ran));
            let (s2, a2) = submission::submission_step(s1, ReplyView::Answer(back));
            let number = RanView::Ended { success: true, stdout: told, stderr: seq![] };
            let (s3, a3) = submission::submission_step(s2, ReplyView::Ran(number));
            let good = RanView::Ended { success: true, stdout: last, stderr: seq![] };
            let (s4, a4) = submission::submission_step(s3, ReplyView::Ran(good));
            &&& a1 == AskView::Git(seq!["checkout"@, "--quiet"@, s.home])
            &&& match a2 {
                AskView::Run(c) => asks_number(c, s.branch),
                _ => false,
            }
            &&& match a3 {
                AskView::Run(c) => asks_base(
                    c,
                    if chars::trim(told).len() > 0 {
                        chars::trim(told)
                    } else {
                        s.branch
                    },
                    s.base,
                ),
                _ => false,
            }
            &&& a4 == AskView::Done(Ok(seq!["PR updated: "@ + s.branch + " → "@ + s.base]))
        }),
{
    let ran = RanView::Ended { success: false, stdout: refusal.0, stderr: refusal.1 };
    let s1 = submission::submission_step(s, ReplyView::Ran(ran)).0;
    assert(s1.outcome == Ok::<Seq<char>, Seq<char>>("PR updated: "@ + s.branch + " → "@ + s.base));
    let s2 = submission::submission_step(s1, ReplyView::Answer(back)).0;
    assert(s2.edit.branch == s.branch && s2.edit.base == s.base);
    lemma_base_set(s2, told, last);
}

/// Updating a review on GitHub: what is on the remote is fetched, the branch is made to point
/// at the commit unless it is the current one, it is pushed with force, and the review is put
/// on the base.
pub proof fn law_github_update(
    hash: Seq<char>,
    subject: Seq<char>,
    branch: Seq<char>,
    base: Seq<char>,
    body: Seq<char>,
    fetched: Result<Seq<char>, Seq<char>>,
    home: Seq<char>,
    texts: (Seq<char>, Seq<char>),
    told: Seq<char>,
    good: Seq<char>,
)
    ensures
        ({
            let (o0, a0) = operation::submitting(
                ForgeView::GitHub,
                true,
                hash,
                subject,
                branch,
                base,
                body,
            );
            let (o1, a1) = operation::operation_step(o0, ReplyView::Answer(fetched));
            let (o2, a2) = operation::operation_step(o1, ReplyView::Answer(Ok(home)));
            let (o3, a3) = if chars::trim(home) == branch {
                (o2, a2)
            } else {
                operation::operation_step(o2, ReplyView::Answer(Ok(texts.0)))
            };
            let (o4, a4) = operation::operation_step(o3, ReplyView::Answer(Ok(texts.1)));
            let number = RanView::Ended { success: true, stdout: told, stderr: seq![] };
            let (o5, a5) = operation::operation_step(o4, ReplyView::Ran(number));
            let last = RanView::Ended { success: true, stdout: good, stderr: seq![] };
            let (o6, a6) = operation::operation_step(o5, ReplyView::Ran(last));
            &&& a0 == AskView::Git(seq!["fetch"@, "origin"@])
            &&& a1 == AskView::Git(seq!["rev-parse"@, "--abbrev-ref"@, "HEAD"@])
            &&& chars::trim(home) != branch ==> a2 == AskView::Git(
                seq!["branch"@, "-f"@, branch, hash],
            )
            &&& a3 == AskView::Git(seq!["push"@, "-f"@, "origin"@, branch])
            &&& match a4 {
                AskView::Run(c) => asks_number(c, branch),
                _ => false,
            }
            &&& match a5 {
                AskView::Run(c) => asks_base(
                    c,
                    if chars::trim(told).len() > 0 {
                        chars::trim(told)
                    } else {
                        branch
                    },
                    base,
                ),
                _ => false,
            }
            &&& a6 == AskView::Done(Ok(seq!["PR updated: "@ + branch + " → "@ + base]))
        }),
{
    let (o0, a0) = operation::submitting(
        ForgeView::GitHub,
        true,
        hash,
        subject,
        branch,
        base,
        body,
    );
    let (o1, a1) = operation::operation_step(o0, ReplyView::Answer(fetched));
    let (o2, a2) = operation::operation_step(o1, ReplyView::Answer(Ok(home)));
    let (o3, a3) = if chars::trim(home) == branch {
        (o2, a2)
    } else {
        operation::operation_step(o2, ReplyView::Answer(Ok(texts.0)))
    };
    assert(o3 matches OperationView::Submission(s) && s.stage == Stage::Push && s.branch == branch
        && s.base == base && s.kind == ForgeKind::GitHub && s.update && s.outcome == Ok::<
        Seq<char>,
        Seq<char>,
    >("PR updated: "@ + branch + " → "@ + base));
    let (o4, a4) = operation::operation_step(o3, ReplyView::Answer(Ok(texts.1)));
    assert(o4 matches OperationView::Submission(s) && s.stage == Stage::Edit && s.edit.branch
        == branch && s.edit.base == base && s.outcome == Ok::<Seq<char>, Seq<char>>(
        "PR updated: "@ + branch + " → "@ + base,
    ));
    lemma_base_set(o4->Submission_0, told, good);
}

/// Where GitHub does not put a numbered review on its base at once, the base is set through
/// its interface, for that number.
pub proof fn law_github_base_again(s: SubmissionView, n: Seq<char>, out: Seq<char>, e: Seq<char>)
    requires
        s.stage == Stage::Edit,
        s.kind == ForgeKind::GitHub,
        s.edit.kind == ForgeKind::GitHub,
        s.edit.number == Some(n),
        s.edit.stage == base_edit::Stage::Edit,
    ensures
        ({
            let ran = RanView::Ended { success: false, stdout: out, stderr: e };
            match submission::submission_step(s, ReplyView::Ran(ran)).1 {
                AskView::Run(c) => {
                    &&& c.program == "gh"@
                    &&& c.args == seq![
                        "api"@,
                        "-X"@,
                        "PATCH"@,
                        "repos/{owner}/{repo}/pulls/"@ + n,
                        "-f"@,
                        "base="@ + s.edit.base,
                    ]
                    &&& c.env.len() == 0
                    &&& c.console == Console::Captured
                },
                _ => false,
            }
        }),
{
}

/// Updating a review on Gitea: what is on the remote is fetched, and the branch is made to
/// point at the commit and pushed with force.
pub proof fn law_gitea_update(
    hash: Seq<char>,
    subject: Seq<char>,
    branch: Seq<char>,
    base: Seq<char>,
    body: Seq<char>,
    fetched: Result<Seq<char>, Seq<char>>,
    texts: (Seq<char>, Seq<char>),
)
    ensures
        ({
            let (o0, a0) = operation::submitting(
                ForgeView::Gitea,
                true,
                hash,
                subject,
                branch,
                base,
                body,
            );
            let (o1, a1) = operation::operation_step(o0, ReplyView::Answer(fetched));
            let (o2, a2) = operation::operation_step(o1, ReplyView::Answer(Ok(texts.0)));
            let (o3, a3) = operation::operation_step(o2, ReplyView::Answer(Ok(texts.1)));
            &&& a0 == AskView::Git(seq!["fetch"@, "origin"@])
            &&& a1 == AskView::Git(seq!["branch"@, "-f"@, branch, hash])
            &&& a2 == AskView::Git(seq!["push"@, "-f"@, "origin"@, branch])
            &&& a3 == AskView::Done(Ok(seq!["PR pushed: "@ + branch]))
        }),
{
}

/// Submitting and updating with a command of the user's: the text is kept in a file, the
/// commit is checked out, the command is run by the shell with its places filled in, the
/// branch that was current is checked out again, and the file is removed.
pub proof fn law_custom_submit(
    template: Seq<char>,
    update: bool,
    hash: Seq<char>,
    subject: Seq<char>,
    branch: Seq<char>,
    base: Seq<char>,
    body: Seq<char>,
    file: Seq<char>,
    home: Seq<char>,
    text: Seq<char>,
    success: bool,
    out: (Seq<char>, Seq<char>),
    back: Result<Seq<char>, Seq<char>>,
)
    ensures
        ({
            let (o0, a0) = operation::submitting(
                ForgeView::Custom(template),
                update,
                hash,
                subject,
                branch,
                base,
                body,
            );
            let (o1, a1) = operation::operation_step(o0, ReplyView::Answer(Ok(file)));
            let (o2, a2) = operation::operation_step(o1, ReplyView::Answer(Ok(home)));
            let (o3, a3) = operation::operation_step(o2, ReplyView::Answer(Ok(text)));
            let ran = RanView::Ended { success, stdout: out.0, stderr: out.1 };
            let (o4, a4) = operation::operation_step(o3, ReplyView::Ran(ran));
            let (o5, a5) = operation::operation_step(o4, ReplyView::Answer(back));
            let (o6, a6) = operation::operation_step(o5, ReplyView::Nothing);
            let hashed = search::replace(template, "{hash}"@, hash);
            let titled = search::replace(hashed, "{subject}"@, subject);
            let worded = search::replace(titled, "{message}"@, body);
            &&& a0 == AskView::Keep(body)
            &&& a1 == AskView::Git(seq!["rev-parse"@, "--abbrev-ref"@, "HEAD"@])
            &&& a2 == AskView::Git(seq!["checkout"@, "--quiet"@, hash])
            &&& match a3 {
                AskView::Run(c) => {
                    &&& c.program == "sh"@
                    &&& c.args == seq!["-c"@, search::replace(worded, "{message_file}"@, file)]
                    &&& c.env.len() == 0
                    &&& c.console == Console::Attached
                },
                _ => false,
            }
            &&& a4 == AskView::Git(seq!["checkout"@, "--quiet"@, chars::trim(home)])
            &&& a5 == AskView::Remove(file)
            &&& a6 == AskView::Done(
                Ok(
                    seq![
                        if success {
                            "Custom command completed successfully."@
                        } else {
                            "Custom command exited with error."@
                        },
                    ],
                ),
            )
        }),
{
}

/// An update goes on to the review's base even where the branch could not be moved or pushed,
/// on GitHub and GitLab; and where the current branch is not known, the branch is moved all the
/// same. On Gitea it ends with what git said.
pub proof fn law_update_goes_on(s: SubmissionView, e: Seq<char>)
    requires
        s.update,
        s.kind == ForgeKind::GitHub || s.kind == ForgeKind::GitLab || s.kind == ForgeKind::Gitea,
    ensures
        ({
            let (n, ask) = submission::submission_step(s, ReplyView::Answer(Err(e)));
            &&& s.stage == Stage::Home ==> ask == AskView::Git(
                seq!["branch"@, "-f"@, s.branch, s.hash],
            )
            &&& s.stage == Stage::Branch || s.stage == Stage::Push ==> {
                &&& s.kind == ForgeKind::GitHub ==> n.stage == Stage::Edit && match ask {
                    AskView::Run(c) => asks_number(c, s.branch),
                    _ => false,
                }
                &&& s.kind == ForgeKind::GitLab ==> n.stage == Stage::Edit && match ask {
                    AskView::Run(c) => c.program == "glab"@ && c.args.len() > 1 && c.args[0]
                        == "mr"@ && c.args[1] == "list"@,
                    _ => false,
                }
                &&& s.kind == ForgeKind::Gitea ==> ask == AskView::Done(Err(e))
            }
        }),
{
}

/// An update on GitLab that is pushed asks for the open reviews, to put the review on its base,
/// and tells of the branch and the base.
pub proof fn law_gitlab_update(s: SubmissionView, text: Seq<char>)
    requires
        s.update,
        s.kind == ForgeKind::GitLab,
        s.stage == Stage::Push,
    ensures
        ({
            let (n, ask) = submission::submission_step(s, ReplyView::Answer(Ok(text)));
            &&& n.stage == Stage::Edit
            &&& n.edit.branch == s.branch
            &&& n.edit.base == s.base
            &&& n.outcome == s.outcome
            &&& match ask {
                AskView::Run(c) => c.program == "glab"@ && c.args.len() > 1 && c.args[0] == "mr"@
                    && c.args[1] == "list"@,
                _ => false,
            }
        }),
{
}

} // verus!
