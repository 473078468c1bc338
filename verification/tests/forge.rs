use pilegit::config::{Config, ForgeConfig, RepoConfig};
use pilegit::forge::custom::Custom;
use pilegit::forge::gitea::{base_url, repo_slug, Gitea};
use pilegit::forge::github::{EditBase, GitHub, Submitted};
use pilegit::forge::gitlab::GitLab;
use pilegit::forge::json;
use pilegit::forge::json::{number_at, text_at, to_low_bits, true_at, Cell};
use pilegit::forge::pr_description::{
    compose_initial_draft, github_template_paths, gitlab_template_order,
    pr_description_draft_hint, read_first_repo_template, TemplateSource,
};
use pilegit::forge::review::{mark_submitted, review_numbers, sync_update, Review};
use pilegit::forge::stack_base_hint::{default_branch, try_from_forge_cli};
use pilegit::forge::sync_state::{
    check_diverged, get_remote_ref, read_sync_state, save_sync_state, sync_state_path,
    write_sync_state,
};
use pilegit::forge::{create_forge, ForgeKind};
use pilegit::git::call::Ran;
use pilegit::stack::{PatchEntry, PatchStatus};
use pilegit::strmap::StrMap;

fn ended(success: bool, stdout: &str, stderr: &str) -> Ran {
    Ran::Ended { success, stdout: stdout.to_string(), stderr: stderr.to_string() }
}

fn strings(v: &[&str]) -> Vec<String> {
    v.iter().map(|s| s.to_string()).collect()
}

fn submitted_patch(hash: &str, subject: &str) -> PatchEntry {
    let mut p = PatchEntry::new(hash, subject);
    p.status = PatchStatus::Submitted;
    p
}

#[test]
fn github_reads_dot_github_lowercase() {
    let paths = github_template_paths();
    assert_eq!(paths[0], ".github/pull_request_template.md");
    let contents = vec![Some("## Checklist\n\n- [ ] tests\n".to_string()), None, None, None];
    let got = read_first_repo_template(&contents).unwrap();
    assert!(got.contains("Checklist"));
}

#[test]
fn blank_templates_are_passed_over() {
    let contents = vec![None, Some(" \n".to_string()), Some("X".to_string())];
    assert_eq!(read_first_repo_template(&contents).as_deref(), Some("X"));
    assert_eq!(read_first_repo_template(&vec![None, Some("\t".to_string())]), None);
}

#[test]
fn compose_prefers_config_path_over_forge() {
    let draft = compose_initial_draft(
        Some("CONFIG {{subject}}".to_string()),
        Some("FORGE".to_string()),
        "my feat",
    );
    assert_eq!(draft, "CONFIG my feat");
}

#[test]
fn compose_falls_back_to_builtin() {
    let draft = compose_initial_draft(None, None, "only subject");
    assert!(draft.contains("only subject"));
    assert!(draft.contains("Test Plan"));
}

#[test]
fn compose_uses_the_platform_template() {
    let hint = || Some("{{subject}} / {{subject}}".to_string());
    assert_eq!(compose_initial_draft(None, hint(), "s"), "s / s");
    assert_eq!(compose_initial_draft(Some(" \n".to_string()), hint(), "s"), "s / s");
}

#[test]
fn gitlab_tries_the_default_template_first() {
    let names = strings(&["zeta.md", "notes.txt", "Default.md", "alpha.md", ".md"]);
    assert_eq!(gitlab_template_order(&names), vec!["Default.md", "alpha.md", "zeta.md"]);
}

#[test]
fn diverged_remote_detected() {
    let patches = vec![submitted_patch("aaa", "feat: add a")];
    let branches = vec!["pgit/u/feat--add-a".to_string()];
    let ours = vec![Some("aaa\n".to_string())];
    let saved = save_sync_state(StrMap::new(), &patches, &branches, &ours);
    let diverged = check_diverged(&patches, &branches, &ours, &saved);
    assert!(diverged.is_empty(), "should not be diverged after push");

    // A teammate pushes another commit to the branch
    let theirs = vec![Some("bbb\n".to_string())];
    let diverged = check_diverged(&patches, &branches, &theirs, &saved);
    assert_eq!(diverged.len(), 1, "should be diverged after teammate pushed");
    assert_eq!(diverged[0].0, branches[0]);
}

#[test]
fn not_diverged_after_our_push() {
    let mut patches = vec![submitted_patch("aaa", "feat: add a")];
    let branches = vec!["pgit/u/feat--add-a".to_string()];
    let remotes = vec![Some("aaa".to_string())];
    let saved = save_sync_state(StrMap::new(), &patches, &branches, &remotes);
    patches[0].hash = "edited".to_string();
    let diverged = check_diverged(&patches, &branches, &remotes, &saved);
    assert!(diverged.is_empty(), "should not be diverged when remote matches local");
}

#[test]
fn what_is_not_on_record_does_not_diverge() {
    let patches = vec![submitted_patch("aaa", "a"), PatchEntry::new("bbb", "b")];
    let branches = strings(&["x", "y"]);
    let remotes = vec![Some("r".to_string()), Some("s".to_string())];
    assert!(check_diverged(&patches, &branches, &remotes, &StrMap::new()).is_empty());
    let saved = save_sync_state(StrMap::new(), &patches, &branches, &remotes);
    assert_eq!(saved.get("x").map(|s| s.as_str()), Some("r"));
    assert!(saved.get("y").is_none());
    let of = |k: ForgeKind, r: Option<u32>, there: bool| get_remote_ref(k, "x", r, there);
    assert_eq!(of(ForgeKind::GitHub, None, true).as_deref(), Some("origin/x"));
    assert_eq!(of(ForgeKind::Custom, Some(3), true).as_deref(), Some("origin/x"));
    assert_eq!(of(ForgeKind::GitLab, None, false), None);
    let patched = of(ForgeKind::Phabricator, Some(3), true);
    assert_eq!(patched.as_deref(), Some("pgit-temp-patch-D3"));
    assert_eq!(of(ForgeKind::Phabricator, Some(3), false), None);
    assert_eq!(of(ForgeKind::Phabricator, None, true), None);
    assert_eq!(sync_state_path("/repo"), "/repo/.git/pgit-sync-state.json");
}

#[test]
fn the_record_of_pushes_is_read_back() {
    let mut m = StrMap::new();
    m.insert("pgit/u/\"a\"".to_string(), "1234".to_string());
    m.insert("pgit/u/ü\n".to_string(), "5678".to_string());
    let text = write_sync_state(&m).unwrap();
    assert_ne!(text, "");
    let back = read_sync_state(Some(&text));
    assert_eq!(back.entries.len(), 2);
    assert_eq!(back.get("pgit/u/\"a\"").map(|s| s.as_str()), Some("1234"));
    assert_eq!(back.get("pgit/u/ü\n").map(|s| s.as_str()), Some("5678"));
    assert!(read_sync_state(None).is_empty());
    assert!(read_sync_state(Some("not json")).is_empty());
    assert!(read_sync_state(Some("{\"a\": 1}")).is_empty());
    assert!(read_sync_state(Some("[]")).is_empty());
}

#[test]
fn columns_of_json() {
    let text = "[{\"n\": 7, \"a\": {\"b\": \"x\"}, \"t\": true}, {\"n\": -1, \"a\": 3}, 5]";
    let n = json::column(text, &["n"]);
    assert_eq!(number_at(&n, 0), Some(7));
    assert_eq!(number_at(&n, 1), None);
    assert_eq!(number_at(&n, 9), None);
    let b = json::column(text, &["a", "b"]);
    assert_eq!(text_at(&b, 0).as_deref(), Some("x"));
    assert_eq!(text_at(&b, 1), None);
    assert!(true_at(&json::column(text, &["t"]), 0));
    assert!(!true_at(&json::column(text, &["t"]), 1));
    assert!(json::column("nonsense", &["n"]).is_empty());
    assert_eq!(to_low_bits(4294967297), 1);
    assert!(matches!(n[2], Cell::Nothing));
}

#[test]
fn github_lists_open_reviews() {
    let json = "[{\"number\": 12, \"headRefName\": \"pgit/u/a\", \"url\": \"https://h/12\"}, {\"headRefName\": \"no-number\"}]";
    let (m, available) = GitHub.list_open_full(&ended(true, json, ""));
    assert!(available);
    assert_eq!(m.entries.len(), 1);
    let r = m.get("pgit/u/a").unwrap();
    assert_eq!(r.number, 12);
    assert_eq!(r.url.as_deref(), Some("https://h/12"));
    assert_eq!(review_numbers(&m).get("pgit/u/a"), Some(&12));
    let (m, available) = GitHub.list_open_full(&ended(false, json, ""));
    assert!(m.is_empty() && !available);
    let (_, available) = GitHub.list_open_full(&Ran::Lost("no gh".to_string()));
    assert!(!available);
}

#[test]
fn github_submissions() {
    let c = GitHub.submit("pgit/u/a", "main", "Subject", "Body");
    assert_eq!(c.program, "gh");
    for part in ["pr", "create", "pgit/u/a", "main", "Subject", "Body"] {
        assert!(c.args.contains(&part.to_string()), "{}", part);
    }
    match GitHub.submitted(ended(true, "https://h/12\n", ""), "pgit/u/a", "main") {
        Submitted::Done(Ok(t)) => assert!(t.contains("https://h/12")),
        _ => panic!("the review is there"),
    }
    match GitHub.submitted(ended(false, "", "already exists"), "pgit/u/a", "main") {
        Submitted::SetBase(_) => {}
        _ => panic!("the review was there already"),
    }
    match GitHub.submitted(ended(false, "", "denied"), "pgit/u/a", "main") {
        Submitted::Done(Err(e)) => assert!(e.contains("denied")),
        _ => panic!("the review was refused"),
    }
    assert_eq!(GitHub.get_pr_number(&ended(true, "12\n", "")).as_deref(), Some("12"));
    assert_eq!(GitHub.get_pr_number(&ended(false, "12\n", "")), None);
    match GitHub.base_edited(&None, &ended(true, "", ""), "main") {
        EditBase::Done(ok) => assert!(ok),
        EditBase::Run(_) => panic!("the base is set"),
    }
}

#[test]
fn gitlab_lists_open_reviews() {
    let url = GitLab
        .get_project_url(&Ok("git@gitlab.com:team/project.git\n".to_string()))
        .unwrap();
    assert_eq!(url, "https://gitlab.com/team/project");
    let text = "!7  team/project!7  Title  (main) ← (pgit/u/a)\n";
    let (m, available) = GitLab.list_open_full(&ended(true, text, ""), &Some(url));
    assert!(available);
    let r = m.get("pgit/u/a").unwrap();
    assert_eq!(r.number, 7);
    assert_eq!(r.url.as_deref(), Some("https://gitlab.com/team/project/-/merge_requests/7"));
    assert_eq!(GitLab.get_mr_iid(&m, true, "pgit/u/a").as_deref(), Some("7"));
    assert_eq!(GitLab.get_mr_iid(&m, true, "other"), None);
}

#[test]
fn gitea_addresses() {
    let slug = repo_slug(&Ok("https://git.example.com/team/project.git\n".to_string()));
    assert_eq!(slug.as_deref(), Some("team/project"));
    assert_eq!(repo_slug(&Err("no remote".to_string())), None);
    let logins = ended(true, "[{\"url\": \"https://git.example.com\", \"default\": true}]", "");
    let remote = Ok("git@git.example.com:team/project.git".to_string());
    assert_eq!(base_url(&logins, &remote).as_deref(), Some("https://git.example.com"));
    let json = "[{\"index\": 3, \"state\": \"open\", \"head\": \"pgit/u/a\"}]";
    let (m, available) = Gitea.list_open(&ended(true, json, ""));
    assert!(available);
    assert_eq!(m.get("pgit/u/a"), Some(&3));
}

#[test]
fn reviews_mark_their_commits() {
    let mut p = vec![PatchEntry::new("a", "one"), PatchEntry::new("b", "two")];
    let branches = strings(&["x", "y"]);
    let mut m = StrMap::new();
    m.insert("y".to_string(), Review { number: 4, url: Some("https://h/4".to_string()) });
    mark_submitted(&mut p, &branches, &m, true, &[true, true]);
    assert_eq!(p[0].status, PatchStatus::Clean);
    assert_eq!(p[1].status, PatchStatus::Submitted);
    assert_eq!(p[1].pr_number, Some(4));
    assert_eq!(p[1].pr_url.as_deref(), Some("https://h/4"));
    let mut q = vec![PatchEntry::new("a", "one"), PatchEntry::new("b", "two")];
    mark_submitted(&mut q, &branches, &StrMap::new(), false, &[true, false]);
    assert_eq!(q[0].status, PatchStatus::Submitted);
    assert_eq!(q[1].status, PatchStatus::Clean);
}

#[test]
fn a_sync_covers_the_open_reviews() {
    let p = vec![PatchEntry::new("a1", "one"), PatchEntry::new("b2", "two")];
    let branches = strings(&["x", "y"]);
    let mut open = StrMap::new();
    open.insert("x".to_string(), 1u32);
    open.insert("y".to_string(), 2u32);
    let items = match GitHub.sync(Ok("origin/main".to_string()), &p, &branches, &open) {
        Ok(v) => v,
        Err(e) => panic!("{}", e),
    };
    assert_eq!(items.len(), 2);
    assert_eq!((items[0].branch.as_str(), items[0].base.as_str()), ("x", "main"));
    assert_eq!((items[1].branch.as_str(), items[1].base.as_str()), ("y", "x"));
    assert_eq!(sync_update(true, "x", "main"), "✓ x → main");
    assert!(sync_update(false, "x", "main").starts_with("⚠"));
}

#[test]
fn kinds_of_platforms() {
    assert_eq!(ForgeKind::from_config_str("github"), ForgeKind::GitHub);
    assert_eq!(ForgeKind::from_config_str("gitlab"), ForgeKind::GitLab);
    assert_eq!(ForgeKind::from_config_str("gitea"), ForgeKind::Gitea);
    assert_eq!(ForgeKind::from_config_str("phabricator"), ForgeKind::Phabricator);
    assert_eq!(ForgeKind::from_config_str("custom"), ForgeKind::Custom);
    assert_eq!(ForgeKind::from_config_str("sourcehut"), ForgeKind::GitHub);
    let config = |t: &str, cmd: Option<&str>| Config {
        forge: ForgeConfig { forge_type: t.to_string(), submit_cmd: cmd.map(String::from) },
        repo: RepoConfig::default(),
    };
    assert_eq!(create_forge(&config("phabricator", None)).kind(), ForgeKind::Phabricator);
    assert_eq!(create_forge(&config("phabricator", None)).name(), "Phabricator");
    assert!(!create_forge(&config("phabricator", None)).needs_description_editor());
    assert!(create_forge(&config("github", None)).needs_description_editor());
    assert_eq!(create_forge(&config("custom", Some("x"))).kind(), ForgeKind::Custom);
    assert_eq!(create_forge(&config("nonsense", None)).kind(), ForgeKind::GitHub);
}

#[test]
fn custom_commands_are_filled_in() {
    let c = Custom::new("run {hash} '{subject}' -F {message_file}".to_string());
    let text = c.submit("abc", "Subject", "Body", "/tmp/m");
    assert!(text.contains("abc") && text.contains("Subject") && text.contains("/tmp/m"));
    assert!(!text.contains("{hash}"));
    assert_ne!(c.submitted(true), c.submitted(false));
}

#[test]
fn the_platform_tells_the_default_branch() {
    assert_eq!(default_branch(&ended(true, "trunk\n", "")).as_deref(), Some("trunk"));
    assert_eq!(default_branch(&ended(true, "\n", "")), None);
    assert_eq!(default_branch(&ended(false, "trunk\n", "")), None);
    let name = || Some("trunk".to_string());
    let hint = try_from_forge_cli(ForgeKind::GitHub, name(), true, true);
    assert_eq!(hint.as_deref(), Some("origin/trunk"));
    let hint = try_from_forge_cli(ForgeKind::GitHub, name(), false, true);
    assert_eq!(hint.as_deref(), Some("trunk"));
    assert_eq!(try_from_forge_cli(ForgeKind::GitHub, name(), false, false), None);
    assert_eq!(try_from_forge_cli(ForgeKind::Custom, name(), true, true), None);
}

#[test]
fn a_key_occurs_once() {
    let mut m = StrMap::new();
    for (k, v) in [("a", 1u32), ("b", 2), ("a", 3)] {
        m.insert(k.to_string(), v);
    }
    let entries: Vec<(&str, u32)> = m.entries.iter().map(|e| (e.0.as_str(), e.1)).collect();
    assert_eq!(entries, vec![("a", 3), ("b", 2)]);
}

#[test]
fn templates_stand_where_the_platform_puts_them() {
    match pr_description_draft_hint(ForgeKind::GitHub) {
        TemplateSource::Files(v) => assert_eq!(v, github_template_paths()),
        _ => panic!("GitHub has files"),
    }
    match pr_description_draft_hint(ForgeKind::GitLab) {
        TemplateSource::Directory(d) => assert_eq!(d, ".gitlab/merge_request_templates"),
        _ => panic!("GitLab has a directory"),
    }
    for k in [ForgeKind::Gitea, ForgeKind::Phabricator, ForgeKind::Custom] {
        assert!(matches!(pr_description_draft_hint(k), TemplateSource::Nowhere));
    }
}
