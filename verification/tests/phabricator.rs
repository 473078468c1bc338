use pilegit::forge::phabricator::depend::{Fix, Stage as FixStage};
use pilegit::forge::machine::{Ask, Reply};
use pilegit::forge::phabricator::message::{
    find_commit_with_revision, find_landed_branches, find_parent_revision, landing_base,
    landing_search, landing_trailers, mark_submitted, parse_revision_from_arc_output,
    parse_revision_id, parse_revision_id_and_url, read_trailers, stated_dependency, with_dependency,
};
use pilegit::forge::phabricator::Phabricator;
use pilegit::git::call::Ran;
use pilegit::stack::{PatchEntry, PatchStatus};

fn ended(success: bool, stdout: &str, stderr: &str) -> Ran {
    Ran::Ended { success, stdout: stdout.to_string(), stderr: stderr.to_string() }
}

#[test]
fn parse_revision_url() {
    let msg = "Some commit\n\nDifferential Revision: https://phab.example.com/D1234";
    assert_eq!(parse_revision_id(msg), Some(1234));
    let (id, url) = parse_revision_id_and_url(msg).unwrap();
    assert_eq!(id, 1234);
    assert_eq!(url, "https://phab.example.com/D1234");
}

#[test]
fn parse_revision_bare() {
    assert_eq!(parse_revision_id("Differential Revision: D5678"), Some(5678));
    let (id, url) = parse_revision_id_and_url("Differential Revision: D5678").unwrap();
    assert_eq!(id, 5678);
    assert_eq!(url, "D5678");
}

#[test]
fn parse_revision_multiline() {
    let msg = "fix bug\n\nDifferential Revision: https://phab.co/D42\nSome other line";
    assert_eq!(parse_revision_id(msg), Some(42));
}

#[test]
fn parse_revision_not_present() {
    assert_eq!(parse_revision_id("just a commit message"), None);
    assert_eq!(parse_revision_id(""), None);
}

#[test]
fn parse_revision_wrong_prefix() {
    assert_eq!(parse_revision_id("Reviewed-by: D9999"), None);
}

#[test]
fn parse_arc_output_revision_uri() {
    let output = "Updated an existing Differential revision:\n        Revision URI: https://p.daedalean.ai/D32750\n\nIncluded changes:\n  M  file.rs";
    assert_eq!(parse_revision_from_arc_output(output), Some(32750));
}

#[test]
fn parse_arc_output_created() {
    let output = "Created a new Differential revision:\n        Revision URI: https://phab.example.com/D999";
    assert_eq!(parse_revision_from_arc_output(output), Some(999));
}

#[test]
fn parse_arc_output_no_revision() {
    assert_eq!(parse_revision_from_arc_output("Linting...\n OKAY"), None);
    assert_eq!(parse_revision_from_arc_output(""), None);
}

#[test]
fn find_stale_branches_detects_landed_via_trailer() {
    let branches = vec!["pgit/test-user/feat--add-a".to_string()];
    let tips =
        vec!["feat: add a\n\nDifferential Revision: https://p.example.com/D12345".to_string()];
    assert_eq!(landing_trailers(&tips[0]), vec!["https://p.example.com/D12345"]);

    // Initially: trailer not in the base → not landed
    let landed = find_landed_branches(&branches, &tips, &vec![vec![String::new()]]);
    assert!(landed.is_empty());

    // A new commit of the base has the same trailer
    let output = "feat: add a (landed)\n\nDifferential Revision: https://p.example.com/D12345\n\x1e\n";
    let landed = find_landed_branches(&branches, &tips, &vec![vec![output.to_string()]]);
    assert_eq!(landed.len(), 1);
    assert_eq!(landed[0], branches[0]);
}

#[test]
fn a_longer_number_is_another_revision() {
    let branches = vec!["a".to_string(), "b".to_string(), "a".to_string(), "c".to_string()];
    let tip = |n: u32| format!("x\n\nDifferential Revision: https://p/D{}", n);
    let tips = vec![tip(12), tip(123), tip(12), "no trailer".to_string()];
    let found = |n: u32| vec![format!("y\n\n  Differential Revision:  https://p/D{}\n\x1e\n", n)];
    let outputs = vec![found(123), found(123), found(12), found(12)];
    assert_eq!(find_landed_branches(&branches, &tips, &outputs), vec!["b", "a"]);
    // The first message that was found need not be the one.
    let both = vec![format!("{}{}", found(123)[0], found(12)[0])];
    let landed = find_landed_branches(&branches[..1].to_vec(), &tips[..1].to_vec(), &vec![both]);
    assert_eq!(landed, vec!["a"]);
    assert_eq!(landing_base(Ok("origin/dev".to_string())), "origin/dev");
    assert_eq!(landing_base(Err("none".to_string())), "origin/main");
    assert_eq!(
        landing_search("origin/main", "https://p/D12"),
        vec!["log", "origin/main", "--fixed-strings", "--grep", "https://p/D12", "--format=%B%x1e"]
    );
}

#[test]
fn stated_dependencies_are_read() {
    assert_eq!(stated_dependency("B\n\n  Depends on D5\nDepends on D6"), Some(5));
    assert_eq!(stated_dependency("Depends on D5, D6"), Some(5));
    assert_eq!(stated_dependency("Depends on Dx"), None);
    assert_eq!(stated_dependency("see Depends on D5"), None);
    assert_eq!(stated_dependency(&with_dependency("B\n\nDepends on D1", Some(42))), Some(42));
    assert_eq!(stated_dependency(&with_dependency("B\n\nDepends on D1", None)), None);
}

fn scan(messages: &[&str]) -> (Fix, Ask) {
    let (f, _) = Phabricator.fix_dependencies("linux");
    let (f, _) = f.step(Reply::Answer(Ok("origin/main".to_string())));
    let commits = (0..messages.len()).map(|i| PatchEntry::new(&format!("h{}", i), "s")).collect();
    let (mut f, mut ask) = f.step(Reply::Commits(Ok(commits)));
    while f.stage == FixStage::Scan || f.stage == FixStage::ScanParent {
        let message = match &ask {
            Ask::Git(args) => messages[args.last().unwrap()[1..].parse::<usize>().unwrap()],
            _ => panic!("a message is asked for"),
        };
        (f, ask) = f.step(Reply::Answer(Ok(message.to_string())));
    }
    (f, ask)
}

#[test]
fn a_stale_dependency_is_removed() {
    let top = "B\n\nDifferential Revision: D7\n\nDepends on D5";
    let (f, ask) = scan(&["A", top]);
    assert_eq!(f.stage, FixStage::Start);
    match ask {
        Ask::Run(c) => assert_eq!(c.env[0].1, "sed -i 's/^pick /edit /'"),
        _ => panic!("the rebase is to start"),
    }
    let (f, _) = f.step(Reply::Ran(ended(true, "", "")));
    let (f, _) = f.step(Reply::Flag(true));
    let (f, ask) = f.step(Reply::Answer(Ok("A".to_string())));
    assert!(matches!(ask, Ask::Continue));
    let (f, _) = f.step(Reply::Rebase(Ok(false)));
    let (f, _) = f.step(Reply::Flag(true));
    let (f, _) = f.step(Reply::Answer(Ok(top.to_string())));
    let (f, ask) = f.step(Reply::Answer(Ok("A".to_string())));
    assert_eq!(f.stage, FixStage::Amend);
    match ask {
        Ask::Run(c) => assert_eq!(c.args.last().unwrap(), "B\n\nDifferential Revision: D7"),
        _ => panic!("the message is to be changed"),
    }
}

#[test]
fn a_right_dependency_starts_no_rebase() {
    let low = "A\n\nDifferential Revision: D5";
    let (f, ask) = scan(&[low, "B\n\nDifferential Revision: D7\n\nDepends on D5"]);
    assert_eq!(f.stage, FixStage::Over);
    assert!(matches!(ask, Ask::Done(Ok(_))));
    let (f, _) = scan(&[low, "B\n\nDifferential Revision: D7"]);
    assert_eq!(f.stage, FixStage::Start);
    let (f, _) = scan(&["A", "B\n\nDepends on D5"]);
    assert_eq!(f.stage, FixStage::Over);
}

#[test]
fn commits_are_found_by_revision() {
    let (a, b) = ("a".repeat(40), "b".repeat(40));
    let log = format!(
        "{} first\n\nDifferential Revision: https://p/D1\n\n{} second\n\nDifferential Revision: https://p/D2\n",
        a, b
    );
    assert_eq!(find_commit_with_revision(&log, 1), Some(a));
    assert_eq!(find_commit_with_revision(&log, 2), Some(b));
    assert_eq!(find_commit_with_revision(&log, 9), None);
}

#[test]
fn submitted_commits_are_marked() {
    let mut p = vec![PatchEntry::new("a", "one"), PatchEntry::new("b", "two")];
    let messages =
        vec!["one\n\nDifferential Revision: https://p/D7".to_string(), "two".to_string()];
    mark_submitted(&mut p, &messages);
    assert_eq!(p[0].status, PatchStatus::Submitted);
    assert_eq!(p[0].pr_number, Some(7));
    assert_eq!(p[1].status, PatchStatus::Clean);
    assert_eq!(p[1].pr_number, None);
    assert_eq!(find_parent_revision(&p, 0), None);
    assert_eq!(find_parent_revision(&p, 1), Some(7));
    assert_eq!(find_parent_revision(&p, 2), Some(7));
}

#[test]
fn trailers_survive() {
    let body = "text\nDifferential Revision: https://p/D7\nmore";
    assert_eq!(read_trailers(body), vec!["Differential Revision: https://p/D7"]);
    assert_eq!(Phabricator.get_trailers(body), read_trailers(body));
    assert!(read_trailers("text").is_empty());
}

#[test]
fn dependencies_are_stated_once() {
    let one = with_dependency("subject\n\nbody", Some(12));
    assert!(one.contains("Depends on D12"));
    let other = with_dependency(&one, Some(13));
    assert!(other.contains("Depends on D13"));
    assert!(!other.contains("Depends on D12"));
    let none = with_dependency(&other, None);
    assert!(!none.contains("Depends on"));
}

#[test]
fn a_submission_without_a_pause_fails() {
    let (u, ask) = Phabricator.submit("0123456789", "pgit/u/s");
    match ask {
        Ask::EditCommit(h) => assert_eq!(h, "0123456"),
        _ => panic!("the commit is to be edited"),
    }
    let (_, ask) = u.step(Reply::Rebase(Err("boom".to_string())));
    match ask {
        Ask::Done(Err(e)) => assert!(e.contains("boom")),
        _ => panic!("the submission has failed"),
    }
}

#[test]
fn dependencies_end_without_a_base() {
    let (f, ask) = Phabricator.fix_dependencies("macos");
    assert!(matches!(ask, Ask::Detect));
    let (f, ask) = f.step(Reply::Answer(Err("none".to_string())));
    assert_eq!(f.stage, FixStage::Over);
    assert!(matches!(ask, Ask::Done(_)));
}

#[test]
fn a_strange_answer_ends_a_submission() {
    let (u, _) = Phabricator.submit("0123456789", "pgit/u/s");
    let (_, ask) = u.step(Reply::Ran(ended(true, "", "")));
    assert!(matches!(ask, Ask::Done(Err(_))));
}

#[test]
fn rewriting_keeps_the_revision_and_replaces_the_dependency() {
    let message = "  Title\n\nDepends on D1\nBody\n\nDifferential Revision: https://p/D42\n\n";
    let once = with_dependency(message, Some(7));
    assert_eq!(
        once,
        "Title\n\nBody\n\nDifferential Revision: https://p/D42\n\nDepends on D7"
    );
    assert_eq!(parse_revision_id_and_url(&once), parse_revision_id_and_url(message));
    assert_eq!(parse_revision_id(&once), Some(42));
    assert_eq!(with_dependency(&once, Some(8)), with_dependency(message, Some(8)));
    assert_eq!(with_dependency(&once, None), with_dependency(message, None));
    assert_eq!(once.lines().filter(|l| l.trim().starts_with("Depends on D")).count(), 1);
    assert_eq!(with_dependency("Depends on D3", Some(9)), "\n\nDepends on D9");
    assert_eq!(parse_revision_id("Differential Revision: anyD4294967295"), Some(4294967295));
    // A doubled carriage return loses one with each rewriting.
    assert_eq!(with_dependency("a\r\r\nb", None), "a\r\nb");
    assert_eq!(with_dependency("a\r\nb", None), "a\nb");
}
