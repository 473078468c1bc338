use pilegit::forge::github::GitHub;
use pilegit::forge::phabricator::Phabricator;
use pilegit::forge::Forge;
use pilegit::git::call::Ran;
use pilegit::git::ops::Repo;
use pilegit::stack::{PatchEntry, PatchStatus, Stack};
use pilegit::tui::app::{App, Reloaded, SuspendReason};
use pilegit::tui::run::Task;
use pilegit::tui::task::cleanup::{prompt_cleanup_stale_branches, unite};
use pilegit::tui::task::pull::{find_submitted, has_conflict, why_not};
use pilegit::tui::task::squash::{squash_draft, squash_message};
use pilegit::tui::task::sync::sync_report;
use pilegit::tui::task::{Ask, Edited, Reply};

fn patch(i: usize) -> PatchEntry {
    PatchEntry::new(&format!("{}123456789abcdef", i), &format!("commit {}", i))
}

fn app(n: usize) -> App {
    let stack = Stack::new("origin/main".to_string(), (0..n).map(patch).collect());
    App::new(stack, Forge::GitHub(GitHub), "head", 0)
}

fn loaded(n: usize) -> Reply {
    Reply::Stack(Reloaded {
        commits: Ok((0..n).map(patch).collect()),
        head: "new".to_string(),
        now: 60,
    })
}

fn unread(why: &str) -> Reply {
    Reply::Stack(Reloaded { commits: Err(why.to_string()), head: String::new(), now: 0 })
}

fn begin(reason: SuspendReason) -> (Task, String, Ask) {
    match Task::begin(reason) {
        Some(t) => t,
        None => panic!("the operation begins"),
    }
}

fn ended(success: bool, stdout: &str, stderr: &str) -> Reply {
    Reply::Ran(Ran::Ended { success, stdout: stdout.to_string(), stderr: stderr.to_string() })
}

fn strings(v: &[&str]) -> Vec<String> {
    v.iter().map(|s| s.to_string()).collect()
}

fn good() -> Reply {
    Reply::Done(Ok(()))
}

fn pair(a: &str, b: &str) -> (String, String) {
    (a.to_string(), b.to_string())
}

#[test]
fn a_commit_at_the_top() {
    let mut a = app(1);
    let (t, say, ask) = begin(SuspendReason::InsertAtHead);
    assert!(say.contains("insert commit at top"));
    assert!(matches!(ask, Ask::Enter));
    let (t, _, ask) = t.step(&mut a, Reply::Nothing);
    assert!(matches!(ask, Ask::Reload));
    let (t, _, ask) = t.step(&mut a, loaded(2));
    assert!(matches!(ask, Ask::End(Ok(()))));
    assert_eq!(a.stack.len(), 2);
    assert_eq!(a.history.current().unwrap().description, "insert commit at top");
    let (_, say, ask) = t.step(&mut a, Reply::Key('x'));
    assert!(matches!(ask, Ask::End(Ok(()))) && say.is_empty());
}

#[test]
fn a_commit_after_the_cursor() {
    let mut a = app(2);
    let (t, _, ask) = begin(SuspendReason::InsertAfterCursor { hash: "0123456".to_string() });
    assert!(matches!(ask, Ask::Open));
    let (t, _, ask) = t.step(&mut a, good());
    match ask {
        Ask::BreakAfter(h) => assert_eq!(h, "0123456"),
        _ => panic!("the rebase is to pause"),
    }
    let (t, _, _) = t.step(&mut a, Reply::Rebase(Ok(false)));
    let (t, _, ask) = t.step(&mut a, Reply::Nothing);
    assert!(matches!(ask, Ask::Continue));
    let (t, _, ask) = t.step(&mut a, Reply::Rebase(Ok(true)));
    assert!(matches!(ask, Ask::Reload));
    let (_, _, ask) = t.step(&mut a, unread("broken"));
    assert!(matches!(ask, Ask::End(_)));
}

#[test]
fn an_edit_with_conflicts() {
    let mut a = app(2);
    let (t, _, _) = begin(SuspendReason::EditCommit { hash: "0123456".to_string() });
    let (t, _, ask) = t.step(&mut a, good());
    assert!(matches!(ask, Ask::EditCommit(_)));
    let (t, say, ask) = t.step(&mut a, Reply::Rebase(Ok(false)));
    assert!(say.contains("0123456") && matches!(ask, Ask::Enter));
    let (t, _, ask) = t.step(&mut a, Reply::Nothing);
    match ask {
        Ask::Run(c) => assert_eq!(c.args, strings(&["add", "-A"])),
        _ => panic!("the changes are to be staged"),
    }
    let (t, _, ask) = t.step(&mut a, ended(true, "", ""));
    match ask {
        Ask::Run(c) => assert_eq!(c.args, strings(&["commit", "--amend", "--no-edit"])),
        _ => panic!("the commit is to be amended"),
    }
    let (t, _, ask) = t.step(&mut a, ended(false, "", " odd \n"));
    assert!(matches!(ask, Ask::Continue));
    assert_eq!(a.notification.as_deref(), Some("Amend warning: odd"));
    let (_, _, ask) = t.step(&mut a, Reply::Rebase(Ok(false)));
    assert!(matches!(ask, Ask::End(Ok(()))));
    assert!(matches!(a.next(), Some(SuspendReason::RebaseConflict)));
}

#[test]
fn an_edit_that_fails() {
    let mut a = app(1);
    let hash = "0123456".to_string();
    let (t, _, _) = begin(SuspendReason::EditCommit { hash: hash.clone() });
    match t.step(&mut a, Reply::Done(Err("no repository".to_string()))).2 {
        Ask::End(Err(e)) => assert_eq!(e, "no repository"),
        _ => panic!("the program fails"),
    }
    let (t, _, _) = begin(SuspendReason::EditCommit { hash });
    let (t, _, _) = t.step(&mut a, good());
    t.step(&mut a, Reply::Rebase(Ok(true)));
    assert_eq!(a.notification.as_deref(), Some("Commit not found in stack range."));
}

#[test]
fn a_squash_keeps_trailers() {
    let mut a = app(2);
    let trailers = strings(&["Differential Revision: https://p/D7"]);
    let draft = squash_draft("one\ntwo", &trailers);
    assert_eq!(
        draft,
        "# Pick or combine the commit messages below.\n# The first line becomes the commit subject.\n# Lines starting with # are ignored.\n\none\ntwo\n\nDifferential Revision: https://p/D7\n"
    );
    let message = squash_message("# a comment\nall in one\n", &trailers).unwrap();
    assert!(message.contains("all in one") && message.contains("D7"));
    assert!(!message.contains("comment"));
    assert_eq!(squash_message("# only\n\n", &vec![]), None);
    let (t, _, ask) = begin(SuspendReason::SquashCommits {
        hashes: strings(&["0123456", "1123456"]),
        default_body: "one\ntwo".to_string(),
        trailers: vec![],
    });
    assert!(matches!(ask, Ask::Editor));
    let (t, _, ask) = t.step(&mut a, Reply::Text("vi".to_string()));
    match ask {
        Ask::Edit { name, content, editor } => {
            assert_eq!((name.as_str(), editor.as_str()), ("pgit-squash-msg-", "vi"));
            assert!(content.ends_with("\n\none\ntwo\n"));
        }
        _ => panic!("the message is to be edited"),
    }
    let (t, _, _) = t.step(&mut a, Reply::Edited(Edited::Saved("both\n".to_string())));
    let (t, _, ask) = t.step(&mut a, good());
    match ask {
        Ask::Squash { hashes, message } => {
            assert_eq!(hashes, strings(&["0123456", "1123456"]));
            assert_eq!(message, "both");
        }
        _ => panic!("the commits are to be squashed"),
    }
    let (t, _, _) = t.step(&mut a, Reply::Rebase(Ok(true)));
    t.step(&mut a, loaded(1));
    assert_eq!(a.stack.len(), 1);
    assert_eq!(a.history.current().unwrap().description, "squash 2 commits");
}

#[test]
fn a_submission_never_overwrites() {
    let mut a = app(1);
    let reason = || SuspendReason::SubmitCommit {
        hash: "0123456789".to_string(),
        subject: "commit 0".to_string(),
        cursor_index: 0,
    };
    let (t, _, _) = begin(reason());
    let (t, _, ask) = t.step(&mut a, good());
    assert!(matches!(ask, Ask::RemoteState(_)));
    let changed = Reply::Remote { there: Some("b\n".to_string()), pushed: Some("a".to_string()) };
    let (t, say, ask) = t.step(&mut a, changed);
    assert!(say.contains("overwritten") && matches!(ask, Ask::Enter));
    let (_, _, ask) = t.step(&mut a, Reply::Nothing);
    assert!(matches!(ask, Ask::End(Ok(()))));
    assert_eq!(
        a.notification.as_deref(),
        Some("Submit aborted — remote has newer changes. Press P to pull.")
    );

    let (t, _, _) = begin(reason());
    let (t, _, _) = t.step(&mut a, good());
    let same = Reply::Remote { there: Some("a\n".to_string()), pushed: Some("a".to_string()) };
    let (t, _, ask) = t.step(&mut a, same);
    assert!(matches!(ask, Ask::DetermineBase(0)));
    let (t, _, ask) = t.step(&mut a, Reply::Text("main".to_string()));
    assert!(matches!(ask, Ask::Draft(_)));
    let (t, _, ask) = t.step(&mut a, Reply::Text("draft".to_string()));
    assert!(matches!(ask, Ask::Editor));
    let (t, _, _) = t.step(&mut a, Reply::Text("vi".to_string()));
    let (t, _, ask) = t.step(&mut a, Reply::Edited(Edited::Saved("text\n".to_string())));
    match ask {
        Ask::Submit { hash, base, body, .. } => {
            assert_eq!((hash.as_str(), base.as_str()), ("0123456789", "main"));
            assert_eq!(body.trim(), "text");
        }
        _ => panic!("the review is to be made"),
    }
    let (_, _, ask) = t.step(&mut a, Reply::Review(Ok("PR created".to_string())));
    assert!(matches!(ask, Ask::Reload));
}

#[test]
fn an_update_never_overwrites() {
    let mut a = app(1);
    a.stack.patches[0].pr_number = Some(7);
    let reason = || SuspendReason::UpdatePR {
        hash: "0123456789".to_string(),
        subject: "commit 0".to_string(),
        cursor_index: 0,
    };
    for (key, blocked) in [("pgit/u/commit-0", true), ("D7", true), ("pgit/u/other", false)] {
        let (t, _, _) = begin(reason());
        let (t, _, ask) = t.step(&mut a, good());
        assert!(matches!(ask, Ask::Diverged));
        let (t, _, ask) = t.step(&mut a, Reply::Diverged(Some(vec![pair(key, "changed")])));
        assert!(matches!(ask, Ask::BranchName(_)));
        let (_, _, ask) = t.step(&mut a, Reply::Text("pgit/u/commit-0".to_string()));
        assert_eq!(matches!(ask, Ask::Enter), blocked, "{}", key);
        assert_eq!(matches!(ask, Ask::DetermineBase(0)), !blocked, "{}", key);
    }
    let odd = SuspendReason::UpdatePR {
        hash: "日本語".to_string(),
        subject: String::new(),
        cursor_index: 0,
    };
    assert!(Task::begin(odd).is_none());
}

#[test]
fn a_rebase_syncs_reviews() {
    let mut a = app(1);
    let (t, say, _) = begin(SuspendReason::Rebase);
    assert!(say.contains("Rebasing stack..."));
    let (t, _, ask) = t.step(&mut a, good());
    assert!(matches!(ask, Ask::RebaseOntoBase));
    let (t, _, _) = t.step(&mut a, Reply::Rebase(Ok(true)));
    let mut commits = vec![patch(0)];
    commits[0].status = PatchStatus::Submitted;
    let r = Reloaded { commits: Ok(commits), head: "new".to_string(), now: 60 };
    let (t, _, ask) = t.step(&mut a, Reply::Stack(r));
    assert!(matches!(ask, Ask::FixDependencies));
    assert_eq!(a.history.current().unwrap().description, "rebase onto base");
    let (t, say, ask) = t.step(&mut a, Reply::Flag(false));
    assert!(say.contains("Rebase completed. Stack: 1 commits."));
    assert!(matches!(ask, Ask::Diverged));
    let (t, say, ask) = t.step(&mut a, Reply::Diverged(Some(vec![])));
    assert!(say.contains("Syncing 1 submitted PRs...") && matches!(ask, Ask::Sync));
    let updates = strings(&["✓ pgit/u/a → main"]);
    let (t, say, ask) = t.step(&mut a, Reply::Synced(Some(Ok(updates))));
    assert!(say.contains("Synced 1 PRs:") && matches!(ask, Ask::SaveState));
    let (t, _, ask) = t.step(&mut a, Reply::Nothing);
    assert!(matches!(ask, Ask::Reload));
    let (t, _, ask) = t.step(&mut a, unread("broken"));
    assert!(matches!(ask, Ask::Cleanup));
    let (t, _, ask) = t.step(&mut a, Reply::Nothing);
    assert!(matches!(ask, Ask::Enter));
    assert_eq!(a.notification.as_deref(), Some("Rebase completed."));
    assert!(matches!(t.step(&mut a, Reply::Nothing).2, Ask::End(Ok(()))));
}

#[test]
fn a_rebase_never_overwrites() {
    let mut a = app(1);
    let (t, _, _) = begin(SuspendReason::Rebase);
    let (t, _, _) = t.step(&mut a, good());
    let (t, _, _) = t.step(&mut a, Reply::Rebase(Ok(true)));
    let mut commits = vec![patch(0)];
    commits[0].status = PatchStatus::Submitted;
    let r = Reloaded { commits: Ok(commits), head: "new".to_string(), now: 60 };
    let (t, _, _) = t.step(&mut a, Reply::Stack(r));
    let (t, _, _) = t.step(&mut a, Reply::Flag(false));
    let (t, say, ask) = t.step(&mut a, Reply::Diverged(Some(vec![pair("x", "x was changed")])));
    assert!(say.contains("x was changed") && matches!(ask, Ask::Reload));
    let (t, _, ask) = t.step(&mut a, loaded(1));
    assert!(matches!(ask, Ask::Cleanup));
    let (_, _, ask) = t.step(&mut a, Reply::Nothing);
    assert!(matches!(ask, Ask::Enter));
}

#[test]
fn a_rebase_stops_or_fails() {
    let mut a = app(1);
    let (t, _, _) = begin(SuspendReason::Rebase);
    let (t, _, _) = t.step(&mut a, good());
    let (_, _, ask) = t.step(&mut a, Reply::Rebase(Ok(false)));
    assert!(matches!(ask, Ask::End(Ok(()))));
    assert!(matches!(a.next(), Some(SuspendReason::RebaseConflict)));
    let (t, _, _) = begin(SuspendReason::Rebase);
    let (t, _, _) = t.step(&mut a, good());
    let (_, say, ask) = t.step(&mut a, Reply::Rebase(Err("boom".to_string())));
    assert!(say.contains("Rebase failed: boom") && matches!(ask, Ask::Enter));
    assert_eq!(a.notification.as_deref(), Some("Rebase failed: boom"));
}

#[test]
fn conflicts_are_resolved() {
    let mut a = app(1);
    let (t, _, _) = begin(SuspendReason::RebaseConflict);
    let (t, _, ask) = t.step(&mut a, good());
    assert!(matches!(ask, Ask::Conflicts));
    let (t, say, ask) = t.step(&mut a, Reply::Texts(strings(&["a.txt"])));
    assert!(say.contains("a.txt") && matches!(ask, Ask::Key));
    let (t, say, ask) = t.step(&mut a, Reply::Key('?'));
    assert!(say.contains("'c' to continue") && matches!(ask, Ask::Open));
    let (t, _, _) = t.step(&mut a, good());
    let (t, _, _) = t.step(&mut a, Reply::Texts(vec![]));
    let (t, _, ask) = t.step(&mut a, good());
    assert!(matches!(ask, Ask::Continue));
    let (t, _, ask) = t.step(&mut a, Reply::Rebase(Ok(false)));
    assert!(matches!(ask, Ask::Conflicts));
    let (t, _, ask) = t.step(&mut a, Reply::Texts(strings(&["b.txt", "c.txt"])));
    assert!(matches!(ask, Ask::Open));
    assert_eq!(a.notification.as_deref(), Some("CONFLICT: b.txt, c.txt"));
    let (t, _, _) = t.step(&mut a, good());
    let (t, _, _) = t.step(&mut a, Reply::Texts(strings(&["b.txt"])));
    let (t, _, ask) = t.step(&mut a, Reply::Key('a'));
    assert!(matches!(ask, Ask::Open));
    let (t, _, ask) = t.step(&mut a, good());
    assert!(matches!(ask, Ask::Abort));
    let (t, _, _) = t.step(&mut a, good());
    let (_, _, ask) = t.step(&mut a, loaded(1));
    assert!(matches!(ask, Ask::End(Ok(()))));
    assert_eq!(a.history.current().unwrap().description, "rebase aborted");
}

#[test]
fn a_sync_is_reported() {
    let lines = strings(&["✓ pgit/u/a → main", "✓ pgit/u/b → pgit/u/a", "⚠ pgit/u/c failed"]);
    let report = sync_report(&lines, "main");
    assert!(report.contains("Synced 3 PRs:"));
    assert!(report.contains("Ready to merge into main:"));
    assert!(report.contains("\x1b[1;33mpgit/u/a\x1b[0m\n"));
    assert!(!report.contains("\x1b[1;33mpgit/u/b"));
    assert!(report.contains("⚠ Failed:\x1b[0m\n    ⚠ pgit/u/c failed\n"));
    assert!(sync_report(&vec![], "main").contains("No open PRs to sync."));
}

#[test]
fn a_sync_never_overwrites() {
    let mut a = app(1);
    let (t, _, _) = begin(SuspendReason::SyncPRs);
    let (t, _, ask) = t.step(&mut a, good());
    assert!(matches!(ask, Ask::Diverged));
    let (t, say, ask) = t.step(&mut a, Reply::Diverged(Some(vec![pair("x", "x was changed")])));
    assert!(say.contains("x was changed") && matches!(ask, Ask::Enter));
    let (_, _, ask) = t.step(&mut a, Reply::Nothing);
    assert!(matches!(ask, Ask::End(Ok(()))));
    assert_eq!(
        a.notification.as_deref(),
        Some("Sync aborted — remote has newer changes. Press P to pull.")
    );
}

#[test]
fn a_sync_to_its_end() {
    let mut a = app(1);
    let (t, _, _) = begin(SuspendReason::SyncPRs);
    let (t, _, _) = t.step(&mut a, good());
    let (t, _, ask) = t.step(&mut a, Reply::Diverged(Some(vec![])));
    assert!(matches!(ask, Ask::FixDependencies));
    let (t, _, _) = t.step(&mut a, Reply::Flag(true));
    let (t, _, ask) = t.step(&mut a, loaded(1));
    assert!(matches!(ask, Ask::Open));
    let (t, _, ask) = t.step(&mut a, good());
    assert!(matches!(ask, Ask::Base));
    let (t, _, ask) = t.step(&mut a, Reply::Answer(Ok("origin/main".to_string())));
    assert!(matches!(ask, Ask::Sync));
    let lines = strings(&["✓ pgit/u/a → main"]);
    let (t, say, ask) = t.step(&mut a, Reply::Synced(Some(Ok(lines))));
    assert!(say.contains("Ready to merge into main:") && matches!(ask, Ask::Reload));
    let (t, _, ask) = t.step(&mut a, loaded(1));
    assert!(matches!(ask, Ask::SaveState));
    let (t, _, ask) = t.step(&mut a, Reply::Nothing);
    assert!(matches!(ask, Ask::Cleanup));
    assert_eq!(a.notification.as_deref(), Some("Synced 1 PRs."));
    let (t, _, ask) = t.step(&mut a, Reply::Nothing);
    assert!(matches!(ask, Ask::Enter));
    assert!(matches!(t.step(&mut a, Reply::Nothing).2, Ask::End(Ok(()))));
}

#[test]
fn a_pull_with_nothing_to_pull() {
    let mut a = app(1);
    let (t, _, _) = begin(SuspendReason::PullRemote);
    let (t, _, ask) = t.step(&mut a, good());
    assert!(matches!(ask, Ask::CurrentBranch));
    let (t, _, ask) = t.step(&mut a, Reply::Answer(Ok("work".to_string())));
    assert!(matches!(ask, Ask::Git(_)));
    let (t, _, ask) = t.step(&mut a, Reply::Answer(Err("offline".to_string())));
    assert!(matches!(ask, Ask::Diverged));
    let (t, say, ask) = t.step(&mut a, Reply::Diverged(Some(vec![])));
    assert!(say.contains("All PRs are in sync") && matches!(ask, Ask::Enter));
    let (_, _, ask) = t.step(&mut a, Reply::Nothing);
    assert!(matches!(ask, Ask::End(Ok(()))));
    assert_eq!(a.notification.as_deref(), Some("No remote changes to pull."));
}

fn pull_to_the_rebase(a: &mut App) -> Task {
    a.stack.patches[1].status = PatchStatus::Submitted;
    let (t, _, _) = begin(SuspendReason::PullRemote);
    let (t, _, _) = t.step(a, good());
    let (t, _, _) = t.step(a, Reply::Answer(Ok("work".to_string())));
    let (t, _, _) = t.step(a, Reply::Answer(Ok(String::new())));
    let diverged = vec![pair("pgit/u/commit-1", "commit-1 was changed")];
    let (t, say, ask) = t.step(a, Reply::Diverged(Some(diverged)));
    assert!(say.contains("Found 1 diverged PRs:"));
    match ask {
        Ask::BranchName(s) => assert_eq!(s, "commit 1"),
        _ => panic!("the branch is asked for"),
    }
    let (t, _, ask) = t.step(a, Reply::Text("pgit/u/commit-1".to_string()));
    match ask {
        Ask::Git(g) => {
            assert_eq!(g, strings(&["rev-parse", "--verify", "origin/pgit/u/commit-1"]))
        }
        _ => panic!("the ref is looked for"),
    }
    let (t, _, ask) = t.step(a, Reply::Answer(Ok("0123".to_string())));
    match ask {
        Ask::Git(g) => assert_eq!(g, strings(&["checkout", "--quiet", "work"])),
        _ => panic!("the branch is to be current again"),
    }
    let (t, _, ask) = t.step(a, Reply::Answer(Ok(String::new())));
    assert!(matches!(ask, Ask::Base));
    let (t, _, ask) = t.step(a, Reply::Answer(Ok("origin/main".to_string())));
    match ask {
        Ask::PauseAll(b) => assert_eq!(b, "origin/main"),
        _ => panic!("the rebase is to start"),
    }
    let (t, _, ask) = t.step(a, ended(true, "", ""));
    assert!(matches!(ask, Ask::InProgress));
    t
}

#[test]
fn a_pull_from_phabricator_patches() {
    let mut a = app(2);
    a.forge = Forge::Phabricator(Phabricator);
    a.stack.patches[1].status = PatchStatus::Submitted;
    a.stack.patches[1].pr_number = Some(42);
    let hash = a.stack.patches[1].hash.clone();
    for works in [true, false] {
        let (t, _, _) = begin(SuspendReason::PullRemote);
        let (t, _, _) = t.step(&mut a, good());
        let (t, _, _) = t.step(&mut a, Reply::Answer(Ok("work".to_string())));
        let (t, _, _) = t.step(&mut a, Reply::Answer(Ok(String::new())));
        let diverged = vec![pair("pgit/u/commit-1", "commit-1 was changed")];
        let (t, _, _) = t.step(&mut a, Reply::Diverged(Some(diverged)));
        let (t, _, ask) = t.step(&mut a, Reply::Text("pgit/u/commit-1".to_string()));
        let below = format!("{}^", hash);
        match ask {
            Ask::Git(g) => assert_eq!(
                g,
                strings(&["checkout", "--quiet", "-B", "pgit-temp-patch-D42", &below])
            ),
            _ => panic!("the temporary branch is to be made"),
        }
        let (t, _, ask) = t.step(&mut a, Reply::Answer(Ok(String::new())));
        match ask {
            Ask::Run(c) => {
                assert_eq!(c.program, "arc");
                let want = ["patch", "--nobranch", "--skip-dependencies", "D42"];
                assert_eq!(c.args, strings(&want));
            }
            _ => panic!("the revision is to be patched"),
        }
        let (t, _, ask) = t.step(&mut a, ended(works, "", ""));
        if works {
            assert!(matches!(ask, Ask::Git(_)));
            let (_, _, ask) = t.step(&mut a, Reply::Answer(Ok(String::new())));
            assert!(matches!(ask, Ask::Base));
        } else {
            match ask {
                Ask::GitAll(g) => assert_eq!(
                    g,
                    vec![
                        strings(&["checkout", "--quiet", "work"]),
                        strings(&["branch", "-D", "pgit-temp-patch-D42"]),
                    ]
                ),
                _ => panic!("the temporary branch is to go"),
            }
            let (t, _, ask) = t.step(&mut a, Reply::Nothing);
            assert!(matches!(ask, Ask::Git(_)));
            let (_, say, ask) = t.step(&mut a, Reply::Answer(Ok(String::new())));
            assert!(say.contains("Could not get remote refs") && matches!(ask, Ask::Enter));
        }
    }
}

#[test]
fn a_pull_merges_by_subject() {
    let mut a = app(2);
    let t = pull_to_the_rebase(&mut a);
    let (t, _, ask) = t.step(&mut a, Reply::Flag(true));
    assert!(matches!(ask, Ask::Git(_)));
    let (t, _, ask) = t.step(&mut a, Reply::Answer(Ok("commit 0\n".to_string())));
    assert!(matches!(ask, Ask::Continue));
    let (t, _, _) = t.step(&mut a, Reply::Rebase(Ok(false)));
    let (t, _, ask) = t.step(&mut a, Reply::Flag(true));
    assert!(matches!(ask, Ask::Conflicts));
    let (t, _, _) = t.step(&mut a, Reply::Texts(vec![]));
    let (t, _, _) = t.step(&mut a, Reply::Flag(true));
    let (t, _, ask) = t.step(&mut a, Reply::Answer(Ok("commit 1\n".to_string())));
    match ask {
        Ask::Run(c) => {
            let want = ["merge", "--squash", "--no-commit", "origin/pgit/u/commit-1"];
            assert_eq!(c.args, strings(&want));
        }
        _ => panic!("the ref is to be merged"),
    }
    let (t, _, ask) = t.step(&mut a, ended(true, "", ""));
    assert!(matches!(ask, Ask::Run(_)));
    let (t, _, _) = t.step(&mut a, ended(true, "", ""));
    let (t, _, ask) = t.step(&mut a, ended(true, "", ""));
    assert!(matches!(ask, Ask::Continue));
    let (t, _, ask) = t.step(&mut a, Reply::Rebase(Ok(true)));
    match ask {
        Ask::GitAll(v) => assert!(v.is_empty()),
        _ => panic!("temporary branches are to be deleted"),
    }
    let (t, _, ask) = t.step(&mut a, Reply::Nothing);
    assert!(matches!(ask, Ask::Git(_)));
    let (t, _, _) = t.step(&mut a, Reply::Answer(Ok(String::new())));
    let (t, say, ask) = t.step(&mut a, loaded(2));
    assert!(say.contains("Pulled remote changes for 1 PRs."));
    assert!(matches!(ask, Ask::SaveState));
    let (t, _, _) = t.step(&mut a, Reply::Nothing);
    t.step(&mut a, Reply::Nothing);
    assert_eq!(a.notification.as_deref(), Some("Pulled remote changes for 1 PRs."));
}

#[test]
fn a_pull_that_is_given_up() {
    let mut a = app(2);
    let t = pull_to_the_rebase(&mut a);
    let (t, _, _) = t.step(&mut a, Reply::Flag(true));
    let (t, _, _) = t.step(&mut a, Reply::Answer(Ok("commit 1".to_string())));
    let (t, say, ask) = t.step(&mut a, ended(true, "", "CONFLICT (content)"));
    assert!(say.contains("Merge conflict") && matches!(ask, Ask::Key));
    let (t, _, ask) = t.step(&mut a, Reply::Key('x'));
    assert!(matches!(ask, Ask::Key));
    let (t, _, ask) = t.step(&mut a, Reply::Key('a'));
    assert!(matches!(ask, Ask::Abort));
    let (t, _, ask) = t.step(&mut a, good());
    assert!(matches!(ask, Ask::GitAll(_)));
    let (t, say, _) = t.step(&mut a, Reply::Nothing);
    assert!(say.contains("Aborted."));
    let (t, _, ask) = t.step(&mut a, Reply::Nothing);
    assert!(matches!(ask, Ask::Reload));
    assert!(matches!(t.step(&mut a, loaded(2)).2, Ask::End(Ok(()))));
}

#[test]
fn a_pull_that_cannot_start() {
    let mut a = app(2);
    let t = pull_to_the_rebase(&mut a);
    let (t, say, ask) = t.step(&mut a, Reply::Flag(false));
    assert!(say.contains("Rebase could not start: No commits to rebase."));
    assert!(matches!(ask, Ask::Git(_)));
    let (t, _, ask) = t.step(&mut a, Reply::Answer(Ok(String::new())));
    assert!(matches!(ask, Ask::Enter));
    assert!(matches!(t.step(&mut a, Reply::Nothing).2, Ask::End(Ok(()))));
    let ran = |out: &str, err: &str| Ran::Ended {
        success: false,
        stdout: out.to_string(),
        stderr: err.to_string(),
    };
    assert_eq!(why_not(&ran("out", " err\n")), "err");
    assert_eq!(why_not(&ran(" out\n", "\n")), "out");
    assert_eq!(why_not(&Ran::Lost("gone".to_string())), "git rebase failed: gone");
    assert!(has_conflict(&Ran::Lost("gone".to_string())));
    assert!(has_conflict(&ran("", "")));
    assert_eq!(find_submitted(&a.stack.patches, 0), Some(1));
    assert_eq!(find_submitted(&a.stack.patches, 2), None);
}

#[test]
fn stale_branches_are_deleted_on_request() {
    let repo = Repo::at_dir("/repo".to_string());
    let all = unite(strings(&["a", "b"]), &strings(&["b", "c", "c"]));
    assert_eq!(all, strings(&["a", "b", "c"]));
    let (c, ask) = prompt_cleanup_stale_branches();
    assert!(matches!(ask, Ask::Open));
    let (c, _, ask) = c.step(&repo, good());
    assert!(matches!(ask, Ask::Stale));
    let found = Reply::Stale { stale: strings(&["a"]), landed: strings(&["a", "b"]) };
    let (c, say, ask) = c.step(&repo, found);
    assert!(say.contains("Found 2 stale branches") && matches!(ask, Ask::Key));
    let (c, _, ask) = c.step(&repo, Reply::Key('y'));
    match ask {
        Ask::GitAll(v) => assert_eq!(v.len(), 4),
        _ => panic!("the branches are to be deleted"),
    }
    let (_, say, ask) = c.step(&repo, Reply::Nothing);
    assert!(say.contains("Deleted 2 stale branches.") && matches!(ask, Ask::End(Ok(()))));
}

#[test]
fn stale_branches_are_kept_otherwise() {
    let repo = Repo::at_dir("/repo".to_string());
    let (c, _) = prompt_cleanup_stale_branches();
    let (c, _, _) = c.step(&repo, good());
    let (c, _, _) = c.step(&repo, Reply::Stale { stale: strings(&["a"]), landed: vec![] });
    let (_, say, ask) = c.step(&repo, Reply::Key('n'));
    assert!(say.contains("Skipped.") && matches!(ask, Ask::End(Ok(()))));
    let (c, _) = prompt_cleanup_stale_branches();
    let (c, _, _) = c.step(&repo, good());
    let (_, say, ask) = c.step(&repo, Reply::Stale { stale: vec![], landed: vec![] });
    assert!(say.is_empty() && matches!(ask, Ask::End(Ok(()))));
}
