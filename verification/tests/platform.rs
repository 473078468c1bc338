use pilegit::config::{Config, ForgeConfig, RepoConfig};
use pilegit::forge::base_edit::BaseEdit;
use pilegit::forge::listing::Listing;
use pilegit::forge::machine::{Ask, Reply};
use pilegit::forge::operation::{Facts, Operation};
use pilegit::forge::{create_forge, Forge, ForgeKind};
use pilegit::git::branch::Wanted;
use pilegit::git::call::{Console, Ran};
use pilegit::git::ops::Repo;
use pilegit::stack::{PatchEntry, PatchStatus};
use pilegit::strmap::StrMap;

fn forge(kind: &str) -> Forge {
    create_forge(&Config {
        forge: ForgeConfig {
            forge_type: kind.to_string(),
            submit_cmd: Some("review {hash} {message_file}".to_string()),
        },
        repo: RepoConfig::default(),
    })
}

fn ended(success: bool, stdout: &str, stderr: &str) -> Reply {
    Reply::Ran(Ran::Ended { success, stdout: stdout.to_string(), stderr: stderr.to_string() })
}

fn good(text: &str) -> Reply {
    Reply::Answer(Ok(text.to_string()))
}

fn bad(text: &str) -> Reply {
    Reply::Answer(Err(text.to_string()))
}

fn git(ask: &Ask) -> Vec<&str> {
    match ask {
        Ask::Git(a) => a.iter().map(|s| s.as_str()).collect(),
        Ask::Progress(_, a) => a.iter().map(|s| s.as_str()).collect(),
        _ => panic!("git is to be run"),
    }
}

fn program(ask: &Ask) -> (&str, Vec<&str>) {
    match ask {
        Ask::Run(c) => (c.program.as_str(), c.args.iter().map(|s| s.as_str()).collect()),
        _ => panic!("a program is to be run"),
    }
}

fn done(ask: Ask) -> Result<Vec<String>, String> {
    match ask {
        Ask::Done(r) => r,
        _ => panic!("the operation is over"),
    }
}

fn next(o: Operation, reply: Reply) -> (Operation, Ask) {
    o.step(reply)
}

#[test]
fn a_review_is_made_on_github() {
    let (o, ask) = forge("github").submit("abc", "Subject", "pgit/u/a", "main", "Body");
    assert_eq!(git(&ask), ["rev-parse", "--abbrev-ref", "HEAD"]);
    let (o, ask) = next(o, good("work\n"));
    assert_eq!(git(&ask), ["branch", "-f", "pgit/u/a", "abc"]);
    let (o, ask) = next(o, good(""));
    assert_eq!(git(&ask), ["push", "-f", "origin", "pgit/u/a"]);
    let (o, ask) = next(o, good(""));
    assert_eq!(program(&ask).0, "gh");
    let (o, ask) = next(o, ended(true, "https://h/1\n", ""));
    assert_eq!(git(&ask), ["checkout", "--quiet", "work"]);
    let (_, ask) = next(o, good(""));
    assert_eq!(done(ask).unwrap(), ["PR created: https://h/1 → main"]);
}

#[test]
fn a_review_that_is_there_gets_its_base() {
    let (o, _) = forge("github").submit("abc", "Subject", "pgit/u/a", "main", "Body");
    let (o, ask) = next(o, good("pgit/u/a"));
    assert_eq!(git(&ask), ["push", "-f", "origin", "pgit/u/a"]);
    let (o, _) = next(o, good(""));
    let (o, _) = next(o, ended(false, "", "a pull request already exists"));
    let (o, ask) = next(o, bad("checkout failed"));
    assert_eq!(program(&ask).1, ["pr", "view", "pgit/u/a", "--json", "number", "-q", ".number"]);
    let (o, ask) = next(o, ended(true, "7\n", ""));
    assert_eq!(program(&ask).1, ["pr", "edit", "7", "--base", "main"]);
    let (o, ask) = next(o, ended(false, "", ""));
    assert_eq!(program(&ask).1[3], "repos/{owner}/{repo}/pulls/7");
    let (_, ask) = next(o, ended(false, "", ""));
    assert_eq!(done(ask).unwrap(), ["PR updated: pgit/u/a → main"]);
}

#[test]
fn a_review_that_cannot_be_made() {
    let start = || forge("gitlab").submit("abc", "Subject", "pgit/u/a", "main", "Body").0;
    assert_eq!(done(next(start(), bad("detached")).1).unwrap_err(), "detached");
    let (o, _) = next(start(), good("work"));
    assert_eq!(done(next(o, bad("no branch")).1).unwrap_err(), "no branch");
    let (o, _) = next(start(), good("work"));
    let (o, _) = next(o, good(""));
    assert_eq!(done(next(o, bad("no push")).1).unwrap_err(), "no push");
    let (o, _) = next(start(), good("work"));
    let (o, _) = next(o, good(""));
    let (o, ask) = next(o, good(""));
    assert_eq!(program(&ask).0, "glab");
    let (_, ask) = next(o, Reply::Ran(Ran::Lost("no glab".to_string())));
    assert_eq!(done(ask).unwrap_err(), "no glab");
}

#[test]
fn an_update_goes_on_where_a_push_fails() {
    let (o, ask) = forge("gitlab").update("abc", "Subject", "pgit/u/a", "main");
    assert_eq!(git(&ask), ["fetch", "origin"]);
    let (o, _) = next(o, bad("offline"));
    let (o, ask) = next(o, bad("detached"));
    assert_eq!(git(&ask), ["branch", "-f", "pgit/u/a", "abc"]);
    let (o, ask) = next(o, bad("no branch"));
    assert_eq!(program(&ask).1, ["mr", "list", "-P", "100"]);
    let (o, ask) = next(o, ended(true, "!7  t/p!7  Title  (main) ← (pgit/u/a)\n", ""));
    assert_eq!(git(&ask), ["remote", "get-url", "origin"]);
    let (o, ask) = next(o, good("git@gitlab.com:t/p.git"));
    assert_eq!(program(&ask).1, ["mr", "update", "7", "--target-branch", "main"]);
    let (_, ask) = next(o, ended(false, "", ""));
    assert_eq!(done(ask).unwrap(), ["MR updated: pgit/u/a → main"]);
}

#[test]
fn a_review_is_made_on_gitea() {
    let start = || forge("gitea").submit("abc", "Subject", "pgit/u/a", "main", "Body").0;
    let (_, ask) = next(start(), bad("no remote"));
    assert_eq!(done(ask).unwrap_err(), "Could not detect owner/repo from git remote");
    let (o, ask) = next(start(), good("git@host:team/project.git"));
    assert_eq!(git(&ask), ["branch", "-f", "pgit/u/a", "abc"]);
    let (o, _) = next(o, good(""));
    let (o, ask) = next(o, good(""));
    assert_eq!(program(&ask).0, "tea");
    assert!(program(&ask).1.contains(&"team/project"));
    let (o, ask) = next(o, ended(true, "\n", ""));
    assert_eq!(program(&ask).1, ["login", "list", "--output", "json"]);
    let (_, ask) = next(o, ended(true, "[{\"url\": \"https://host/\"}]", ""));
    assert_eq!(done(ask).unwrap(), ["PR created: https://host/team/project/pulls"]);
}

#[test]
fn an_update_on_gitea_stops_where_a_push_fails() {
    let (o, _) = forge("gitea").update("abc", "Subject", "pgit/u/a", "main");
    let (o, ask) = next(o, good(""));
    assert_eq!(git(&ask), ["branch", "-f", "pgit/u/a", "abc"]);
    let (o, _) = next(o, good(""));
    let (_, ask) = next(o, good(""));
    assert_eq!(done(ask).unwrap(), ["PR pushed: pgit/u/a"]);
    let (o, _) = forge("gitea").update("abc", "Subject", "pgit/u/a", "main");
    let (o, _) = next(o, good(""));
    assert_eq!(done(next(o, bad("no branch")).1).unwrap_err(), "no branch");
}

#[test]
fn a_custom_command_runs_on_the_commit() {
    let (o, ask) = forge("custom").submit("abc", "Subject", "pgit/u/a", "main", "Body");
    assert!(matches!(ask, Ask::Keep(b) if b == "Body"));
    let (o, _) = next(o, good("/tmp/m"));
    let (o, ask) = next(o, good("work\n"));
    assert_eq!(git(&ask), ["checkout", "--quiet", "abc"]);
    let (o, ask) = next(o, good(""));
    assert_eq!(program(&ask), ("sh", vec!["-c", "review abc /tmp/m"]));
    assert!(matches!(&ask, Ask::Run(c) if c.console == Console::Attached));
    let (o, ask) = next(o, ended(false, "", ""));
    assert_eq!(git(&ask), ["checkout", "--quiet", "work"]);
    let (o, ask) = next(o, good(""));
    assert!(matches!(ask, Ask::Remove(f) if f == "/tmp/m"));
    let (_, ask) = next(o, Reply::Nothing);
    assert_eq!(done(ask).unwrap(), ["Custom command exited with error."]);
    let (_, ask) = forge("custom").update("abc", "Subject", "pgit/u/a", "main");
    assert!(matches!(ask, Ask::Keep(b) if b.is_empty()));
}

#[test]
fn all_reviews_are_brought_up_to_date() {
    let p = vec![PatchEntry::new("a1", "one"), PatchEntry::new("b2", "two")];
    let branches = vec!["pgit/u/one".to_string(), "pgit/u/two".to_string()];
    let (o, ask) = forge("github").sync(&p, &branches);
    assert!(matches!(&ask, Ask::Progress(t, _) if t == "Fetching latest from origin..."));
    let (o, ask) = next(o, good(""));
    assert!(matches!(ask, Ask::Base));
    let (o, ask) = next(o, good("origin/main"));
    assert!(matches!(ask, Ask::Say(t) if t == "Checking open PRs on GitHub..."));
    let (o, ask) = next(o, Reply::Nothing);
    assert_eq!(program(&ask).1[..2], ["pr", "list"]);
    let json = "[{\"number\": 7, \"headRefName\": \"pgit/u/two\", \"url\": \"u\"}]";
    let (o, ask) = next(o, ended(true, json, ""));
    assert!(matches!(ask, Ask::Say(t) if t == "Syncing: two ..."));
    let (o, ask) = next(o, Reply::Nothing);
    assert_eq!(git(&ask), ["branch", "-f", "pgit/u/two", "b2"]);
    let (o, ask) = next(o, bad("whatever"));
    assert_eq!(git(&ask), ["push", "-f", "origin", "pgit/u/two"]);
    let (o, ask) = next(o, good(""));
    assert_eq!(program(&ask).1[..2], ["pr", "view"]);
    let (o, _) = next(o, ended(false, "", ""));
    let (_, ask) = next(o, ended(false, "", ""));
    assert_eq!(done(ask).unwrap(), ["⚠ pgit/u/two → main"]);
}

#[test]
fn a_sync_without_a_base_fails() {
    let (o, _) = forge("gitlab").sync(&vec![], &vec![]);
    let (o, _) = next(o, good(""));
    assert_eq!(done(next(o, bad("no base")).1).unwrap_err(), "no base");
    let (o, ask) = forge("custom").sync(&vec![], &vec![]);
    assert!(matches!(ask, Ask::Say(_)));
    assert!(done(next(o, Reply::Nothing).1).unwrap().is_empty());
    let (o, _) = forge("github").sync(&vec![], &vec![]);
    assert!(done(next(o, Reply::Flag(true)).1).is_err());
}

#[test]
fn gitea_pushes_only() {
    let p = vec![PatchEntry::new("a1", "one")];
    let branches = vec!["pgit/u/one".to_string()];
    let (o, _) = forge("gitea").sync(&p, &branches);
    let (o, ask) = next(o, good(""));
    assert_eq!(git(&ask), ["remote", "get-url", "origin"]);
    let (o, _) = next(o, good("git@host:team/project.git"));
    let json = "[{\"index\": 3, \"state\": \"open\", \"head\": \"pgit/u/one\"}]";
    let (o, ask) = next(o, ended(true, json, ""));
    assert!(matches!(ask, Ask::Say(t) if t == "Pushing: one ..."));
    let (o, _) = next(o, Reply::Nothing);
    let (o, _) = next(o, good(""));
    let (_, ask) = next(o, good(""));
    assert_eq!(done(ask).unwrap(), ["✓ pgit/u/one pushed"]);
}

#[test]
fn listings() {
    let (l, ask) = Listing::list_open(ForgeKind::Custom, true);
    assert!(ask.is_none() && !l.available && l.reviews.is_empty());
    let (l, _) = Listing::list_open(ForgeKind::GitLab, false);
    let (l, ask) = l.step(ended(false, "", ""));
    assert!(ask.is_none() && !l.available);
    let (l, _) = Listing::list_open(ForgeKind::Gitea, true);
    let (l, _) = l.step(good("https://host/team/project.git"));
    let json = "[{\"index\": 3, \"state\": \"open\", \"head\": {\"name\": \"pgit/u/one\"}}]";
    let (l, ask) = l.step(ended(true, json, ""));
    assert!(matches!(ask, Some(Ask::Run(_))));
    let (l, ask) = l.step(ended(false, "", ""));
    assert!(ask.is_none() && l.available);
    let r = l.reviews.get("pgit/u/one").unwrap();
    assert_eq!(r.url.as_deref(), Some("https://host/team/project/pulls/3"));
    let (e, ask) = BaseEdit::edit_base(ForgeKind::Gitea, "b", "main");
    assert!(ask.is_none() && !e.edited);
    let (e, ask) = BaseEdit::edit_base(ForgeKind::Custom, "b", "main");
    assert!(ask.is_none() && e.edited);
}

#[test]
fn each_platform_marks_in_its_way() {
    let facts = || Facts {
        branches: vec!["pgit/u/one".to_string()],
        reviews: StrMap::new(),
        available: false,
        there: vec![true],
        messages: vec!["one\n\nDifferential Revision: https://p/D5".to_string()],
    };
    let mark = |kind: &str| {
        let mut p = vec![PatchEntry::new("a1", "one")];
        forge(kind).mark_submitted(&mut p, &facts());
        (p[0].status, p[0].pr_number)
    };
    assert_eq!(mark("github"), (PatchStatus::Submitted, None));
    assert_eq!(mark("phabricator"), (PatchStatus::Submitted, Some(5)));
    assert_eq!(mark("custom"), (PatchStatus::Clean, None));
    let branches = vec!["pgit/u/one".to_string()];
    let tips = facts().messages;
    let outputs = vec![vec!["two\n\nDifferential Revision: https://p/D5\n\x1e\n".to_string()]];
    assert!(forge("github").find_landed_branches(&branches, &tips, &outputs).is_empty());
    assert_eq!(forge("phabricator").find_landed_branches(&branches, &tips, &outputs), branches);
    assert_eq!(forge("github").named_in_sync(), Wanted::All);
    assert_eq!(forge("phabricator").named_in_sync(), Wanted::Submitted);
    assert_eq!(forge("custom").named_in_sync(), Wanted::Nobody);
    let output = "a1\x1fone\x1f\x1fJo\x1f2024\x1e\n";
    let repo = Repo::at_dir("/r".to_string());
    let loaded = repo.load_stack(&forge("phabricator"), output, &facts());
    assert_eq!(loaded.len(), 1);
    assert_eq!((loaded[0].status, loaded[0].pr_number), (PatchStatus::Submitted, Some(5)));
    assert_eq!(repo.list_stack_commits(output)[0].status, PatchStatus::Clean);
    assert_eq!(repo.load_stack(&forge("custom"), output, &facts())[0].status, PatchStatus::Clean);
    assert!(forge("github").fix_dependencies("linux").is_none());
    assert!(forge("phabricator").fix_dependencies("linux").is_some());
}
