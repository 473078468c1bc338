use pilegit::forge::github::GitHub;
use pilegit::forge::Forge;
use pilegit::stack::{PatchEntry, PatchStatus, Stack};
use pilegit::tui::app::{App, Mode, Rebased, Reloaded, Request, SuspendReason};
use pilegit::tui::input::{Key, KeyCode};
use pilegit::tui::run::{blocked, status_text, REBASE_IN_PROGRESS, UNCOMMITTED};
use pilegit::tui::span::Span;
use pilegit::tui::term::{get_editor, print_box};
use pilegit::tui::ui::{
    build_shortcut_lines, diff_title, overlay_text, render, render_diff_view, render_header,
    render_history_view, render_overlay, render_stack_view, render_status_bar, visual_cursor, Area,
    Screen,
};

fn patch(i: usize) -> PatchEntry {
    PatchEntry::new(&format!("{}123456789abcdef", i), &format!("commit {}", i))
}

fn app(n: usize) -> App {
    let stack = Stack::new("origin/main".to_string(), (0..n).map(patch).collect());
    App::new(stack, Forge::GitHub(GitHub), "head", 0)
}

fn reloaded(n: usize) -> Reloaded {
    Reloaded { commits: Ok((0..n).map(patch).collect()), head: format!("head{}", n), now: 60 }
}

fn key(c: char) -> Key {
    Key { code: KeyCode::Char(c), shift: false, alt: false, ctrl: false }
}

fn ctrl(code: KeyCode) -> Key {
    Key { code, shift: false, alt: false, ctrl: true }
}

fn press(a: &mut App, k: Key) -> Request {
    assert!(a.fits(k));
    a.handle_key(k)
}

fn text(line: &[Span]) -> String {
    line.iter().map(|s| s.text.as_str()).collect()
}

#[test]
fn shortcuts_single_line_wide() {
    let shortcuts = "a:one  b:two  c:three";
    let lines = build_shortcut_lines(shortcuts, 200);
    assert_eq!(lines.len(), 1);
}

#[test]
fn shortcuts_wrap_narrow() {
    let shortcuts = "↑k/↓j:move  V:select  Ctrl+↑↓:reorder  e:edit  i:insert  x:remove  d:diff  r:rebase  p:submit  s:sync  ?:help  q:quit";
    let lines = build_shortcut_lines(shortcuts, 60);
    assert!(lines.len() >= 2, "expected wrapping at width 60, got {} lines", lines.len());
}

#[test]
fn shortcuts_very_narrow() {
    let shortcuts = "a:one  b:two  c:three  d:four  e:five";
    let lines = build_shortcut_lines(shortcuts, 20);
    assert!(lines.len() >= 3, "expected 3+ lines at width 20, got {}", lines.len());
}

#[test]
fn shortcuts_empty() {
    let lines = build_shortcut_lines("", 80);
    assert_eq!(lines.len(), 1); // at least one empty line
}

#[test]
fn shortcuts_single_item_fits() {
    let lines = build_shortcut_lines("q:quit", 80);
    assert_eq!(lines.len(), 1);
}

#[test]
fn the_cursor_moves_and_stays() {
    let mut a = app(3);
    assert_eq!(a.cursor, 2);
    press(&mut a, key('k'));
    assert_eq!(a.cursor, 2);
    press(&mut a, key('j'));
    assert_eq!(a.cursor, 1);
    press(&mut a, key('G'));
    assert_eq!(a.cursor, 0);
    press(&mut a, key('j'));
    assert_eq!(a.cursor, 0);
    press(&mut a, key('g'));
    assert_eq!(a.cursor, 2);
    let mut empty = app(0);
    press(&mut empty, key('g'));
    press(&mut empty, key('j'));
    assert_eq!(empty.cursor, 0);
}

#[test]
fn keys_ask_for_operations() {
    let mut a = app(3);
    press(&mut a, key('e'));
    match a.next() {
        Some(SuspendReason::EditCommit { hash }) => assert_eq!(hash, "2123456"),
        _ => panic!("an edit is wished for"),
    }
    press(&mut a, key('p'));
    match a.next() {
        Some(SuspendReason::SubmitCommit { subject, cursor_index, .. }) => {
            assert_eq!((subject.as_str(), cursor_index), ("commit 2", 2));
        }
        _ => panic!("a submission is wished for"),
    }
    a.stack.patches[2].status = PatchStatus::Submitted;
    press(&mut a, key('p'));
    assert!(matches!(a.next(), Some(SuspendReason::UpdatePR { .. })));
    press(&mut a, key('s'));
    assert!(matches!(a.next(), Some(SuspendReason::SyncPRs)));
    press(&mut a, key('P'));
    assert!(matches!(a.next(), Some(SuspendReason::PullRemote)));
    press(&mut a, key('i'));
    assert!(matches!(a.mode, Mode::InsertChoice));
    press(&mut a, key('t'));
    assert!(matches!(a.next(), Some(SuspendReason::InsertAtHead)));
    press(&mut a, key('r'));
    press(&mut a, key('y'));
    assert!(matches!(a.next(), Some(SuspendReason::Rebase)));
    assert!(a.next().is_none());
    press(&mut a, key('q'));
    assert!(a.should_quit);
}

#[test]
fn selected_commits_are_squashed() {
    let mut a = app(3);
    press(&mut a, key('V'));
    press(&mut a, key('j'));
    assert_eq!(a.selection_range(), Some((1, 2)));
    press(&mut a, key('s'));
    match &a.mode {
        Mode::Confirm { prompt, .. } => assert_eq!(prompt, "Squash 2 commits? (y/n)"),
        _ => panic!("the squash is to be confirmed"),
    }
    press(&mut a, key('y'));
    match a.next() {
        Some(SuspendReason::SquashCommits { hashes, default_body, trailers }) => {
            assert_eq!(hashes, vec!["1123456", "2123456"]);
            assert_eq!(default_body, "commit 1\ncommit 2");
            assert!(trailers.is_empty());
        }
        _ => panic!("a squash is wished for"),
    }
    assert!(matches!(a.mode, Mode::Normal));
    assert_eq!(a.select_anchor, None);
}

#[test]
fn reorders_are_asked_for_and_recorded() {
    let mut a = app(3);
    press(&mut a, key('j'));
    match press(&mut a, ctrl(KeyCode::Up)) {
        Request::Swap { up, below, above, name } => {
            assert!(up);
            assert_eq!((below.as_str(), above.as_str()), ("1123456", "2123456"));
            assert_eq!(name, "1123456 commit 1");
            a.finish_swap(up, &name, Rebased::Complete(reloaded(3)));
        }
        _ => panic!("an exchange is asked for"),
    }
    assert_eq!(a.cursor, 2);
    assert_eq!(a.notification.as_deref(), Some("Patch moved up."));
    assert_eq!(a.history.current().unwrap().description, "move up: 1123456 commit 1");
    assert_eq!(a.history.current().unwrap().head_hash, "head3");
    assert!(matches!(press(&mut a, ctrl(KeyCode::Up)), Request::Nothing));
    a.finish_swap(true, "x", Rebased::Conflict);
    assert!(matches!(a.next(), Some(SuspendReason::RebaseConflict)));
    a.finish_swap(true, "x", Rebased::Failed("boom".to_string()));
    assert_eq!(a.notification.as_deref(), Some("Reorder failed: boom"));
}

#[test]
fn removals_are_confirmed_and_recorded() {
    let mut a = app(2);
    press(&mut a, key('x'));
    press(&mut a, key('n'));
    assert_eq!(a.notification.as_deref(), Some("Cancelled."));
    press(&mut a, key('x'));
    match press(&mut a, key('y')) {
        Request::Remove { hash, subject } => {
            assert_eq!((hash.as_str(), subject.as_str()), ("1123456", "commit 1"));
            a.finish_drop(&subject, Rebased::Complete(reloaded(1)));
        }
        _ => panic!("a removal is asked for"),
    }
    assert_eq!(a.cursor, 0);
    assert_eq!(a.history.current().unwrap().description, "remove: commit 1");
}

#[test]
fn an_operation_can_be_undone_and_redone() {
    let mut a = app(2);
    a.finish_drop("commit 1", Rebased::Complete(reloaded(1)));
    assert_eq!(a.stack.len(), 1);
    assert_eq!(a.undo(true), None);
    assert_eq!(
        a.notification.as_deref(),
        Some("Undo blocked: you have uncommitted changes. Commit or stash first.")
    );
    assert_eq!(a.stack.len(), 1);
    assert_eq!(a.undo(false).as_deref(), Some("head"));
    a.finish_step(true, Ok(()));
    assert_eq!(a.stack.len(), 2);
    assert_eq!(a.notification.as_deref(), Some("Undone (0/2)"));
    assert_eq!(a.undo(false), None);
    assert_eq!(a.redo(false).as_deref(), Some("head1"));
    a.finish_step(false, Ok(()));
    assert_eq!(a.stack.len(), 1);
    assert_eq!(a.redo(false), None);
    assert_eq!(a.notification.as_deref(), Some("Nothing to redo."));
    a.undo(false);
    a.finish_step(true, Err("locked".to_string()));
    assert_eq!(a.notification.as_deref(), Some("Undo git reset failed: locked"));
}

#[test]
fn subjects_that_cannot_be_cut_do_not_fit() {
    let mut a = app(2);
    a.stack.patches[1].subject = "日".repeat(11);
    assert!(a.fits(ctrl(KeyCode::Down)));
    a.stack.patches[1].subject = format!("x{}", "日".repeat(11));
    assert!(!a.fits(ctrl(KeyCode::Down)));
    assert!(a.fits(ctrl(KeyCode::Up)));
    a.stack.patches[1].hash = "日本語x".to_string();
    assert!(!a.fits(key('e')));
    assert!(a.fits(key('d')));
}

#[test]
fn diffs_are_shown_and_scrolled() {
    let mut a = app(1);
    assert!(matches!(press(&mut a, key('d')), Request::Diff(_)));
    let lines: Vec<String> = (0..50).map(|i| format!("+line {}", i)).collect();
    a.show_diff(Ok(lines.join("\n")));
    assert!(matches!(a.mode, Mode::DiffView));
    assert_eq!(a.diff_content.len(), 50);
    press(&mut a, key('j'));
    assert_eq!(a.diff_scroll, 1);
    press(&mut a, ctrl(KeyCode::Char('d')));
    assert_eq!(a.diff_scroll, 21);
    press(&mut a, ctrl(KeyCode::Char('d')));
    press(&mut a, ctrl(KeyCode::Char('d')));
    assert_eq!(a.diff_scroll, 49);
    press(&mut a, ctrl(KeyCode::Char('u')));
    assert_eq!(a.diff_scroll, 29);
    let shown = render_diff_view(&a, 12);
    assert_eq!(text(&shown[0]), "+line 29");
    assert!(!diff_title(&a).is_empty());
    press(&mut a, key('q'));
    assert!(matches!(a.mode, Mode::Normal));
    a.show_diff(Err("gone".to_string()));
    assert_eq!(a.notification.as_deref(), Some("diff error: gone"));
}

#[test]
fn the_stack_is_shown_newest_first() {
    let mut a = app(3);
    a.stack.patches[2].status = PatchStatus::Submitted;
    a.stack.patches[2].pr_number = Some(12);
    let rows = render_stack_view(&a);
    assert_eq!(rows.len(), 3);
    assert!(rows[0].selected || text(&rows[0].lines[0]).contains("commit 2"));
    assert!(text(&rows[0].lines[0]).contains("21234567"));
    assert!(text(&rows[2].lines[0]).contains("commit 0"));
    assert_eq!(visual_cursor(&a), 0);
    assert!(text(&render_header(&a)).contains("3"));
    assert_eq!(render(&a), Screen::Stack);
    press(&mut a, key('h'));
    assert_eq!(render(&a), Screen::History);
    assert!(!render_history_view(&a).is_empty());
}

#[test]
fn dialogs_stay_inside() {
    let parent = Area { x: 2, y: 3, width: 40, height: 20 };
    let d = render_overlay(10, parent);
    assert!(d.x >= parent.x && d.x + d.width <= parent.x + parent.width);
    assert!(d.y >= parent.y && d.y + d.height <= parent.y + parent.height);
    let mut a = app(1);
    assert!(overlay_text(&a).is_none());
    press(&mut a, key('x'));
    assert_eq!(overlay_text(&a).unwrap().0, "Remove 'commit 0'? (y/n)");
}

#[test]
fn the_status_bar_tells() {
    let mut a = app(1);
    a.tell("hello there");
    let bar: String = render_status_bar(&a, 200).iter().map(|l| text(l)).collect();
    assert!(bar.contains("hello there"));
    assert!(a.shortcuts().contains("q:quit"));
    assert!(a.help_text().contains("Pull remote changes"));
}

#[test]
fn starting_is_blocked() {
    assert_eq!(blocked(true, true), Some(REBASE_IN_PROGRESS));
    assert_eq!(blocked(false, true), Some(UNCOMMITTED));
    assert_eq!(blocked(false, false), None);
}

#[test]
fn the_stack_is_listed() {
    assert_eq!(status_text(&vec![]).unwrap(), "No commits ahead of base branch.\n");
    assert_eq!(
        status_text(&vec![patch(0), patch(1)]).unwrap(),
        "pilegit stack (2 commits):\n\n  → 01234567 commit 0\n    11234567 commit 1\n"
    );
    let odd = PatchEntry::new("日本語", "odd");
    assert_eq!(status_text(&vec![patch(0), odd]), None);
}

#[test]
fn boxes_are_closed() {
    let lines = vec!["one".to_string(), "\x1b[1mtwo\x1b[0m".to_string()];
    let b = print_box("36", "title", &lines);
    let rows: Vec<&str> = b.trim_matches('\n').lines().collect();
    assert_eq!(rows.len(), 4);
    let seen: Vec<usize> =
        rows.iter().map(|r| pilegit::text::ansi::strip_ansi_len(r)).collect();
    assert_eq!(seen, vec![62, 62, 62, 62]);
}

#[test]
fn the_editor_is_found() {
    let s = |t: &str| Some(t.to_string());
    assert_eq!(get_editor(s("vi"), s("code")), "vi");
    assert_eq!(get_editor(None, s("code")), "code");
    assert_eq!(get_editor(None, None), "nano");
}
