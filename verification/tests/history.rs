use pilegit::history::{clock_text, History, FIRST_SECOND, LAST_SECOND};
use pilegit::stack::{PatchEntry, PatchStatus, Stack, StackError};

fn dummy_stack(n: usize) -> Stack {
    let patches = (0..n)
        .map(|i| PatchEntry {
            hash: format!("abc{}", i),
            subject: format!("commit {}", i),
            body: String::new(),
            author: "test".into(),
            timestamp: "2026-01-01".into(),
            pr_branch: None,
            pr_number: None,
            pr_url: None,
            status: PatchStatus::Clean,
        })
        .collect();
    Stack::new("main".into(), patches)
}

fn subjects(s: &Stack) -> Vec<&str> {
    s.patches.iter().map(|p| p.subject.as_str()).collect()
}

#[test]
fn push_and_undo() {
    let mut h = History::new(100);
    h.push("initial", &dummy_stack(1), "aaa");
    h.push("second", &dummy_stack(2), "bbb");
    h.push("third", &dummy_stack(3), "ccc");

    assert_eq!(h.total(), 3);
    assert_eq!(h.position(), 2);

    let (stack, hash) = h.undo().unwrap();
    assert_eq!(stack.len(), 2);
    assert_eq!(hash, "bbb");

    let (stack, hash) = h.undo().unwrap();
    assert_eq!(stack.len(), 1);
    assert_eq!(hash, "aaa");

    // Can't undo past the beginning
    assert!(h.undo().is_none());
}

#[test]
fn redo_after_undo() {
    let mut h = History::new(100);
    h.push("a", &dummy_stack(1), "h1");
    h.push("b", &dummy_stack(2), "h2");
    h.push("c", &dummy_stack(3), "h3");

    h.undo(); // → b
    h.undo(); // → a

    let (stack, hash) = h.redo().unwrap();
    assert_eq!(stack.len(), 2);
    assert_eq!(hash, "h2");

    let (stack, _) = h.redo().unwrap();
    assert_eq!(stack.len(), 3);

    // Can't redo past the end
    assert!(h.redo().is_none());
}

#[test]
fn push_after_undo_clears_redo() {
    let mut h = History::new(100);
    h.push("a", &dummy_stack(1), "h1");
    h.push("b", &dummy_stack(2), "h2");
    h.push("c", &dummy_stack(3), "h3");

    h.undo(); // → b
    h.push("d", &dummy_stack(4), "h4"); // replaces c

    assert_eq!(h.total(), 3); // a, b, d
    assert!(h.redo().is_none()); // c is gone
}

#[test]
fn max_entries_eviction() {
    let mut h = History::new(3);
    h.push("a", &dummy_stack(1), "h1");
    h.push("b", &dummy_stack(2), "h2");
    h.push("c", &dummy_stack(3), "h3");
    h.push("d", &dummy_stack(4), "h4"); // evicts a

    assert_eq!(h.total(), 3); // b, c, d
    let descriptions: Vec<&str> = h.list().iter().map(|e| e.description.as_str()).collect();
    assert_eq!(descriptions, vec!["b", "c", "d"]);
}

#[test]
fn empty_history() {
    let mut h = History::new(10);
    assert!(h.undo().is_none());
    assert!(h.redo().is_none());
    assert!(!h.can_undo());
    assert_eq!(h.total(), 0);
}

#[test]
fn undo_then_redo_is_nothing() {
    let mut h = History::new(10);
    h.push_at("a", &dummy_stack(1), "h1", 1);
    h.push_at("b", &dummy_stack(2), "h2", 2);
    h.undo();
    let (stack, hash) = h.redo().unwrap();
    assert_eq!((stack.len(), hash), (2, "h2"));
    assert_eq!(h.position(), 1);
    assert_eq!(h.current().unwrap().timestamp, 2);
}

#[test]
fn pushed_entries_are_dated_now() {
    let before = chrono::Utc::now().timestamp();
    let mut h = History::new(10);
    h.push("a", &dummy_stack(1), "h1");
    let at = h.current().unwrap().timestamp;
    assert!(before <= at && at <= chrono::Utc::now().timestamp());
}

#[test]
fn clock_shows_the_time_of_day() {
    assert_eq!(clock_text(0), "00:00:00");
    assert_eq!(clock_text(86399), "23:59:59");
    assert_eq!(clock_text(1700000000), "22:13:20");
    assert_eq!(clock_text(-1), "23:59:59");
    assert_eq!(clock_text(-86400), "00:00:00");
}

#[test]
fn clock_is_blank_beyond_the_calendar() {
    assert_eq!(clock_text(FIRST_SECOND), "00:00:00");
    assert_eq!(clock_text(FIRST_SECOND - 1), "");
    assert_eq!(clock_text(LAST_SECOND), "23:59:59");
    assert_eq!(clock_text(LAST_SECOND + 1), "");
    assert_eq!(clock_text(i64::MIN), "");
    assert_eq!(clock_text(i64::MAX), "");
}

#[test]
fn reorder_and_back() {
    let mut s = dummy_stack(4);
    assert_eq!(s.reorder(0, 2), Ok(()));
    assert_eq!(subjects(&s), vec!["commit 1", "commit 2", "commit 0", "commit 3"]);
    assert_eq!(s.reorder(2, 0), Ok(()));
    assert_eq!(s, dummy_stack(4));
    assert_eq!(s.reorder(4, 0), Err(StackError::OutOfBounds));
    assert_eq!(s.reorder(0, 4), Err(StackError::OutOfBounds));
    assert_eq!(s, dummy_stack(4));
}

#[test]
fn insert_then_drop_is_nothing() {
    let mut s = dummy_stack(2);
    assert_eq!(s.insert_at(2, PatchEntry::new("ffff", "new")), Ok(()));
    assert_eq!(subjects(&s), vec!["commit 0", "commit 1", "new"]);
    assert_eq!(s.drop_patch(2).unwrap().hash, "ffff");
    assert_eq!(s, dummy_stack(2));
    assert_eq!(s.insert_at(3, PatchEntry::new("a", "b")), Err(StackError::OutOfBounds));
    assert!(matches!(s.drop_patch(2), Err(StackError::OutOfBounds)));
}

#[test]
fn squash_folds_into_the_lowest() {
    let mut s = dummy_stack(4);
    assert_eq!(s.squash(&[2, 1]), Ok(()));
    assert_eq!(s.len(), 3);
    assert_eq!(subjects(&s), vec!["commit 0", "commit 1 (+1 squashed)", "commit 3"]);
    assert_eq!(s.patches[1].body, "commit 2");
    let squashed = |places: &[usize]| {
        let mut s = dummy_stack(5);
        (s.squash(places), s)
    };
    assert_eq!(squashed(&[3, 1, 3, 2, 1]), squashed(&[1, 2, 3]));
    assert_eq!(squashed(&[2, 2]), squashed(&[2]));
    assert_eq!(squashed(&[9, 0, 9]), squashed(&[0, 9]));
    assert_eq!(s.squash(&[]), Err(StackError::EmptySelection));
    assert_eq!(s.squash(&[0, 3]), Err(StackError::OutOfBounds));
    assert_eq!(StackError::EmptySelection.message().is_empty(), false);
    assert_ne!(StackError::EmptySelection.message(), StackError::OutOfBounds.message());
}
