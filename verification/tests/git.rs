use pilegit::git::branch::{can_slug, get_pgit_username, slug_text, user_name, Wanted};
use pilegit::git::call::{
    git_in, pause_result, rebase_result, sed_inplace_shell_prefix, Console, Ran,
};
use pilegit::git::ops::{closest_base, BaseChoice, BaseSearch, BaseStep, Repo, NO_BASE};
use pilegit::stack::{PatchEntry, PatchStatus};
use pilegit::strmap::StrMap;

fn repo() -> Repo {
    Repo::at_dir("/repo".to_string())
}

fn ended(success: bool, stdout: &str, stderr: &str) -> Ran {
    Ran::Ended { success, stdout: stdout.to_string(), stderr: stderr.to_string() }
}

fn strings(v: &[&str]) -> Vec<String> {
    v.iter().map(|s| s.to_string()).collect()
}

fn open_prs(names: &[&str]) -> StrMap<u32> {
    let mut m = StrMap::new();
    for (i, n) in names.iter().enumerate() {
        m.insert(n.to_string(), i as u32 + 1);
    }
    m
}

fn stack(subjects: &[&str]) -> Vec<PatchEntry> {
    subjects
        .iter()
        .enumerate()
        .map(|(i, s)| PatchEntry::new(&format!("{}000000000", i), s))
        .collect()
}

#[test]
fn list_stack_commits_count_and_order() {
    let output = "1111111\x1ffeat: add a\x1f\x1fTest User\x1f2026-01-01 10:00:00 +0000\x1e\n2222222\x1ffeat: add b\x1fbody\nof two lines\n\x1fTest User\x1f2026-01-02 10:00:00 +0000\x1e\n3333333\x1ffeat: add c\x1f\x1fTest User\x1f2026-01-03 10:00:00 +0000\x1e\n";
    let commits = repo().list_stack_commits(output);

    assert_eq!(commits.len(), 3);
    assert_eq!(commits[0].subject, "feat: add a");
    assert_eq!(commits[1].subject, "feat: add b");
    assert_eq!(commits[2].subject, "feat: add c");
    assert_eq!(commits[0].hash, "1111111");
    assert_eq!(commits[1].body, "body\nof two lines");
    assert_eq!(commits[2].author, "Test User");
    assert_eq!(commits[2].timestamp, "2026-01-03 10:00:00 +0000");
    assert_eq!(commits[0].status, PatchStatus::Clean);
}

#[test]
fn a_log_with_broken_records() {
    assert!(repo().list_stack_commits("").is_empty());
    assert!(repo().list_stack_commits("\n \x1e\n").is_empty());
    assert!(repo().list_stack_commits("a\x1fb\x1fc\x1fd\x1e").is_empty());
    let odd = repo().list_stack_commits("a\x1fb\x1fc\x1fd\x1fe\x1ff\x1e");
    assert_eq!(odd[0].timestamp, "e\x1ff");
}

#[test]
fn branch_name_sanitized() {
    let user = get_pgit_username(None, Some("Test User".to_string()), None).unwrap();
    let name = repo().make_pgit_branch_name(&user, "feat: add login page!");
    assert!(name.starts_with("pgit/"));
    assert!(name.contains("test-user"));
    assert!(!name.contains(' '));
    assert!(!name.contains('!'));
    assert!(!name.contains(':'));
    assert_eq!(name, name.to_lowercase());
    assert_eq!(name, "pgit/test-user/feat--add-login-page");
}

#[test]
fn branch_name_truncated() {
    let long = "a".repeat(100);
    let name = repo().make_pgit_branch_name("test-user", &long);
    let slug = name.rsplit('/').next().unwrap();
    assert!(slug.len() <= 50);
    assert_eq!(slug.len(), 50);
}

#[test]
fn branch_name_stable() {
    let a = repo().make_pgit_branch_name("test-user", "feat: something");
    let b = repo().make_pgit_branch_name("test-user", "feat: something");
    assert_eq!(a, b);
}

#[test]
fn letters_of_other_scripts_stay() {
    assert_eq!(slug_text("Größe ändern", 50), "größe-ändern");
    assert_eq!(slug_text("日本語", 50), "日本語");
    assert_eq!(slug_text("½ ok ★", 50), "½-ok");
    for c in ['a', 'Z', '0', '_', '-', ' ', 'é', 'Σ', '中', '★', '½', '\u{0660}'] {
        let s = slug_text(&format!("x{}x", c), 50);
        let keeps = c.is_alphanumeric() || c == '-';
        assert_eq!(s == format!("x{}x", c.to_ascii_lowercase()), keeps, "{}", c);
    }
}

#[test]
fn names_that_cannot_be_cut() {
    let subject = "日".repeat(20);
    assert!(!can_slug(&subject, 50));
    assert_eq!(repo().branch_name("u", &subject), None);
    let mut p = stack(&["fine"]);
    p.push(PatchEntry::new("b", &subject));
    assert_eq!(repo().branch_names("u", &p, Wanted::All), None);
    assert_eq!(repo().branch_names("u", &p, Wanted::Nobody).unwrap(), vec!["", ""]);
    assert_eq!(repo().branch_names("u", &p, Wanted::Submitted).unwrap(), vec!["", ""]);
    p[1].status = PatchStatus::Submitted;
    assert_eq!(repo().branch_names("u", &p, Wanted::Submitted), None);
    let all = repo().branch_names("u", &stack(&["A b"]), Wanted::All);
    assert_eq!(all.unwrap(), vec!["pgit/u/a-b"]);
    assert_eq!(get_pgit_username(None, Some("日".repeat(9)), None), None);
}

#[test]
fn the_user_has_a_name() {
    let n = |a: Option<&str>, b: Option<&str>, c: Option<&str>| {
        user_name(a.map(String::from), b.map(String::from), c.map(String::from))
    };
    assert_eq!(n(Some("  Jo Doe\n"), Some("u"), Some("v")), "Jo Doe");
    assert_eq!(n(Some(" \n"), Some("u"), Some("v")), "u");
    assert_eq!(n(None, None, Some("v")), "v");
    assert_eq!(n(None, None, None), "user");
}

#[test]
fn has_uncommitted_changes_ignores_pilegit_toml() {
    let repo = repo();

    // Clean state
    assert!(!repo.has_uncommitted_changes(Some("")));

    // Only .pilegit.toml — should be ignored
    assert!(!repo.has_uncommitted_changes(Some("?? .pilegit.toml\n")));

    // Real dirty file — should be detected
    assert!(repo.has_uncommitted_changes(Some("?? .pilegit.toml\n?? dirty.txt\n")));

    assert!(!repo.has_uncommitted_changes(None));
}

#[test]
fn only_the_configuration_is_no_change() {
    let dirty = |s: &str| repo().has_uncommitted_changes(Some(s));
    assert!(!dirty(" M .pilegit.toml\n"));
    assert!(dirty("?? notes.pilegit.toml\n"));
    assert!(dirty("?? sub/.pilegit.toml\n"));
    assert!(dirty("R  old -> .pilegit.toml\n"));
    assert!(dirty(".pilegit.toml\n"));
    assert!(dirty("??\n"));
}

#[test]
fn find_stale_branches_detects_landed_commits() {
    let repo = repo();
    let branch = repo.make_pgit_branch_name("test-user", "feat: add a");
    let local = vec![branch.clone()];

    // The commit is ahead of the base; no open PRs are known
    let stale = repo.find_stale_branches_with(&local, &StrMap::new(), false, &[false]);
    assert!(stale.is_empty(), "branch should not be stale before landing");

    // The branch's commit is reachable from the base
    let stale = repo.find_stale_branches_with(&local, &StrMap::new(), false, &[true]);
    assert_eq!(stale.len(), 1);
    assert_eq!(stale[0], branch);
}

#[test]
fn open_reviews_keep_their_branches() {
    let local = strings(&["pgit/u/a", "pgit/u/b"]);
    let open = open_prs(&["pgit/u/a"]);
    let stale = repo().find_stale_branches_with(&local, &open, true, &[false, false]);
    assert_eq!(stale, vec!["pgit/u/b"]);
    let none = repo().find_stale_branches_with(&local, &StrMap::new(), true, &[false, false]);
    assert!(none.is_empty());
    let gone = repo().delete_branches(&stale);
    assert_eq!(
        gone,
        vec![
            strings(&["branch", "-D", "pgit/u/b"]),
            strings(&["push", "origin", "--delete", "pgit/u/b"]),
        ]
    );
}

fn done(s: BaseSearch) -> BaseChoice {
    match s {
        BaseSearch::Done(c) => c,
        _ => panic!("the base is found"),
    }
}

#[test]
fn the_base_of_a_review_is_the_closest_open_branch() {
    let p = stack(&["one", "two", "three"]);
    let base = || Ok("origin/main".to_string());
    let open = open_prs(&["pgit/u/one"]);
    let find = |n: usize, open: &StrMap<u32>, available: bool, answers: &[bool]| {
        repo().determine_base_for_commit("u", base(), &p, n, open, available, answers)
    };
    let c = done(find(2, &open, true, &[]));
    assert_eq!(c.base, "pgit/u/one");
    assert_eq!(
        c.commands,
        vec![
            strings(&["branch", "-f", "pgit/u/one", "0000000000"]),
            strings(&["push", "-f", "origin", "pgit/u/one"]),
        ]
    );
    let walked = repo().walk_stack_for_base("u", &p, 2, &open, "main").unwrap();
    assert_eq!((walked.base, walked.commands), (c.base, c.commands));
    let c = done(find(0, &open, true, &[]));
    assert_eq!(c.base, "main");
    assert!(c.commands.is_empty());
    assert_eq!(done(find(2, &StrMap::new(), true, &[])).base, "main");
    assert!(matches!(find(2, &open, false, &[]), BaseSearch::IsThere(b) if b == "pgit/u/two"));
    assert!(matches!(find(2, &open, false, &[false]), BaseSearch::IsThere(b) if b == "pgit/u/one"));
    assert_eq!(done(find(2, &open, false, &[true])).base, "pgit/u/two");
    assert_eq!(done(find(2, &open, false, &[false, true])).base, "pgit/u/one");
    assert_eq!(done(find(2, &open, false, &[false, false])).base, "main");
    let c = repo().determine_base_for_commit("u", Err("x".to_string()), &p, 0, &open, true, &[]);
    assert_eq!(done(c).base, "main");
    let b = strings(&["pgit/u/one", "pgit/u/two", "pgit/u/three"]);
    assert_eq!(closest_base(&p, &b, 2, &open, "main").base, "pgit/u/one");
    assert_eq!(closest_base(&p, &b, 0, &open, "main").base, "main");
}

#[test]
fn a_subject_that_is_not_reached_needs_no_branch() {
    let odd = "日".repeat(20);
    let p = stack(&[&odd, "two", "three"]);
    let find = |n: usize, open: &StrMap<u32>, available: bool, answers: &[bool]| {
        let base = Ok("origin/main".to_string());
        repo().determine_base_for_commit("u", base, &p, n, open, available, answers)
    };
    let none = StrMap::new();
    assert_eq!(done(find(2, &none, false, &[true])).base, "pgit/u/two");
    assert!(matches!(find(2, &none, false, &[false]), BaseSearch::Unnamed(0)));
    assert!(matches!(find(2, &none, true, &[]), BaseSearch::Unnamed(0)));
    assert_eq!(done(find(0, &none, false, &[])).base, "main");
    let open = open_prs(&["pgit/u/two"]);
    assert_eq!(done(find(2, &open, true, &[])).base, "pgit/u/two");
    assert!(repo().walk_stack_for_base("u", &p, 2, &none, "main").is_none());
    assert_eq!(repo().walk_stack_for_base("u", &p, 2, &open, "main").unwrap().base, "pgit/u/two");
}

#[test]
fn the_base_is_explicit_or_told_or_detected() {
    let step = repo().resolve_base(&Some(" origin/develop ".to_string()), None, None, None);
    match step {
        BaseStep::Check(b) => assert_eq!(b, "origin/develop"),
        _ => panic!("the base is to be checked"),
    }
    let configured = Some("origin/develop".to_string());
    match repo().resolve_base(&configured, Some(true), None, None) {
        BaseStep::Done(Ok(b)) => assert_eq!(b, "origin/develop"),
        _ => panic!("the base is there"),
    }
    match repo().resolve_base(&Some("a\"b".to_string()), Some(false), None, None) {
        BaseStep::Done(Err(e)) => assert!(e.contains("\"a\\\"b\"")),
        _ => panic!("the base is not there"),
    }
    assert!(matches!(repo().resolve_base(&None, None, None, None), BaseStep::AskForge));
    assert!(matches!(
        repo().resolve_base(&None, None, Some(None), None),
        BaseStep::Detect
    ));
    match repo().resolve_base(&None, None, Some(Some("origin/trunk".to_string())), None) {
        BaseStep::Done(Ok(b)) => assert_eq!(b, "origin/trunk"),
        _ => panic!("the platform knows the base"),
    }
    match repo().resolve_base(&None, None, Some(None), Some(Ok("main".to_string()))) {
        BaseStep::Done(Ok(b)) => assert_eq!(b, "main"),
        _ => panic!("the base is detected"),
    }
}

#[test]
fn the_first_candidate_that_exists_is_the_base() {
    let r = repo();
    assert_eq!(r.detect_base(&[true, true, true, true]).unwrap(), "origin/main");
    assert_eq!(r.detect_base(&[false, true, true, true]).unwrap(), "origin/master");
    assert_eq!(r.detect_base(&[false, false, true, false]).unwrap(), "main");
    assert_eq!(r.detect_base(&[false, false, false, true]).unwrap(), "master");
    assert_eq!(r.detect_base(&[false, false, false, false]).unwrap_err(), NO_BASE);
    let known = repo().with_resolved_base("origin/x".to_string());
    assert_eq!(known.base(Err("no".to_string())).unwrap(), "origin/x");
    assert_eq!(r.base(Ok("main".to_string())).unwrap(), "main");
}

#[test]
fn git_answers() {
    let a = strings(&["log", "-1"]);
    assert_eq!(git_in(&a, ended(true, "out", "err")).unwrap(), "out");
    assert_eq!(git_in(&a, ended(false, "out", "err")).unwrap_err(), "git log -1 failed: err");
    assert_eq!(git_in(&a, Ran::Lost("gone".to_string())).unwrap_err(), "gone");
}

#[test]
fn rebases_complete_stop_or_fail() {
    assert_eq!(rebase_result("Rebase", &ended(true, "", ""), false), Ok(true));
    assert_eq!(rebase_result("Rebase", &ended(true, "", ""), true), Ok(false));
    assert_eq!(rebase_result("Rebase", &ended(false, "", "CONFLICT (content)"), false), Ok(false));
    assert_eq!(rebase_result("Rebase", &ended(false, "", "could not apply 1"), false), Ok(false));
    assert_eq!(
        rebase_result("Squash", &ended(false, "", "bad"), false),
        Err("Squash failed: bad".to_string())
    );
    assert_eq!(
        rebase_result("Rebase", &Ran::Lost("gone".to_string()), true),
        Err("gone".to_string())
    );
    assert_eq!(pause_result(&ended(true, "", ""), true), Ok(false));
    assert_eq!(pause_result(&ended(false, "", ""), false), Ok(true));
    assert_eq!(pause_result(&Ran::Lost("gone".to_string()), true), Err("gone".to_string()));
}

#[test]
fn rebases_edit_their_list() {
    let r = repo();
    let c = r.rebase_edit_commit("linux", "origin/main", "abc1234");
    assert_eq!(c.program, "git");
    assert_eq!(c.args, strings(&["rebase", "-i", "origin/main"]));
    assert_eq!(
        c.env,
        vec![(
            "GIT_SEQUENCE_EDITOR".to_string(),
            "sed -i 's/^pick abc1234/edit abc1234/'".to_string()
        )]
    );
    assert_eq!(sed_inplace_shell_prefix("macos"), "sed -i ''");
    assert_eq!(sed_inplace_shell_prefix("linux"), "sed -i");
    let c = r.rebase_break_after("freebsd", "main", "abc1234");
    assert_eq!(c.env[0].1, "sed -i '' '/^pick abc1234/a break'");
    let c = r.remove_commit("linux", "main", "abc1234");
    assert_eq!(c.env[0].1, "sed -i 's/^pick abc1234/drop abc1234/'");
    let abbrs = strings(&["a1", "b2", "c3"]);
    let c = match r.squash_commits_with_message("linux", "main", &abbrs, "/tmp/m") {
        Ok(c) => c,
        Err(e) => panic!("{}", e),
    };
    assert!(c.env[0].1.contains("s/^pick b2/squash b2/"));
    assert!(c.env[0].1.contains("s/^pick c3/squash c3/"));
    assert!(!c.env[0].1.contains("squash a1"));
    assert_eq!(c.env[1], ("GIT_EDITOR".to_string(), "cp /tmp/m ".to_string()));
    assert!(r.squash_commits_with_message("linux", "main", &strings(&["a1"]), "m").is_err());
    let c = r.swap_commits("main", "aaa", "bbb");
    assert!(c.env[0].1.contains("aaa") && c.env[0].1.contains("bbb"));
    let c = r.rebase_continue();
    assert_eq!(c.args, strings(&["rebase", "--continue"]));
    assert_eq!(c.env, vec![("GIT_EDITOR".to_string(), "true".to_string())]);
    assert_eq!(c.console, Console::Captured);
}

#[test]
fn plain_commands() {
    let r = repo();
    assert_eq!(r.fetch_origin(), strings(&["fetch", "origin"]));
    assert_eq!(r.rebase_abort(), strings(&["rebase", "--abort"]));
    assert_eq!(r.reset_hard("abc"), strings(&["reset", "--hard", "abc"]));
    assert_eq!(r.rebase_onto_base("origin/main").args, strings(&["rebase", "origin/main"]));
    assert!(r.diff_full("abc").contains(&"abc".to_string()));
    let (merge, apply) = r.rebase_dirs();
    assert_eq!(merge, "/repo/.git/rebase-merge");
    assert_eq!(apply, "/repo/.git/rebase-apply");
    assert!(r.is_rebase_in_progress(true, false));
    assert!(r.is_rebase_in_progress(false, true));
    assert!(!r.is_rebase_in_progress(false, false));
    let files = r.conflicted_files(Ok("a.txt\n\nb.txt\n".to_string())).unwrap();
    assert_eq!(files, vec!["a.txt", "b.txt"]);
    assert!(r.conflicted_files(Err("x".to_string())).is_err());
}

#[test]
fn a_push_moves_the_branch_unless_it_is_current() {
    let r = repo();
    let other = r.force_update_and_push(Ok("main".to_string()), "pgit/u/a", "abc");
    assert_eq!(other.len(), 2);
    assert_eq!(other[0], strings(&["branch", "-f", "pgit/u/a", "abc"]));
    let here = r.force_update_and_push(Ok("pgit/u/a".to_string()), "pgit/u/a", "abc");
    assert_eq!(here.len(), 1);
    assert_eq!(here[0], other[1]);
}
