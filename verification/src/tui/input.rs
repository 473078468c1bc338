//! Keys: what each does in each mode.
use vstd::prelude::*;

use super::app;
use super::app::{
    App, AppView, Mode, ModeView, PendingAction, Request, RequestView, SuspendView,
};
use crate::text::bytes;
use crate::text::bytes::{can_cut, longer_than};
use crate::text::chars::concat3;
use crate::text::number;
use crate::text::number::decimal;

verus! {

/// A key without its modifiers.
#[derive(Debug, Clone, Copy, PartialEq, Eq, Structural)]
pub enum KeyCode {
    Char(char),
    Up,
    Down,
    Enter,
    Esc,
    /// Any other key.
    Other,
}

/// A key with its modifiers.
#[derive(Debug, Clone, Copy, PartialEq, Eq, Structural)]
pub struct Key {
    pub code: KeyCode,
    pub shift: bool,
    pub alt: bool,
    pub ctrl: bool,
}

/// Which way a key leads.
#[derive(Debug, Clone, Copy, PartialEq, Eq, Structural)]
pub enum Way {
    Up,
    Down,
    Nowhere,
}

/// Which way an arrow or `j` or `k` leads.
pub open spec fn way(code: KeyCode) -> Way {
    if code == KeyCode::Up || code == KeyCode::Char('k') {
        Way::Up
    } else if code == KeyCode::Down || code == KeyCode::Char('j') {
        Way::Down
    } else {
        Way::Nowhere
    }
}

/// Which way an arrow or `j` or `k` leads.
fn way_of(code: KeyCode) -> (r: Way)
    ensures
        r == way(code),
{
    match code {
        KeyCode::Up => Way::Up,
        KeyCode::Down => Way::Down,
        KeyCode::Char(c) => {
            if c == 'k' {
                Way::Up
            } else if c == 'j' {
                Way::Down
            } else {
                Way::Nowhere
            }
        },
        _ => Way::Nowhere,
    }
}

/// With a selection begun at the cursor.
pub open spec fn selecting(a: AppView) -> AppView {
    AppView { select_anchor: Some(a.cursor), mode: ModeView::Select, ..a.quiet() }
}

/// What a plain key does in Normal mode.
pub open spec fn plain_key(a: AppView, code: KeyCode) -> (AppView, RequestView) {
    let nothing = RequestView::Nothing;
    match code {
        KeyCode::Up => (a.up(), nothing),
        KeyCode::Down => (a.down(), nothing),
        KeyCode::Enter => (toggled(a), nothing),
        KeyCode::Char(c) => if c == 'q' {
            (AppView { should_quit: true, ..a }, nothing)
        } else if c == 'k' {
            (a.up(), nothing)
        } else if c == 'j' {
            (a.down(), nothing)
        } else if c == 'g' {
            (
                AppView {
                    cursor: if a.len() > 0 {
                        (a.len() - 1) as usize
                    } else {
                        a.cursor
                    },
                    ..a.quiet()
                },
                nothing,
            )
        } else if c == 'G' {
            (AppView { cursor: 0, ..a.quiet() }, nothing)
        } else if c == 'V' {
            (selecting(a), nothing)
        } else if c == ' ' {
            (toggled(a), nothing)
        } else if c == 'd' {
            (
                a.quiet(),
                if a.len() > 0 {
                    RequestView::Diff(a.hash_here())
                } else {
                    nothing
                },
            )
        } else if c == 'e' {
            (a.editing(), nothing)
        } else if c == 'i' {
            (AppView { mode: ModeView::InsertChoice, ..a.quiet() }, nothing)
        } else if c == 'x' {
            (
                if a.len() > 0 {
                    AppView {
                        mode: ModeView::Confirm {
                            prompt: "Remove '"@ + a.stack.patches[a.cursor as int].subject
                                + "'? (y/n)"@,
                            action: PendingAction::Drop,
                        },
                        ..a
                    }
                } else {
                    a
                },
                nothing,
            )
        } else if c == 'r' {
            (a.rebasing(), nothing)
        } else if c == 'p' {
            (a.submitting(), nothing)
        } else if c == 's' {
            (a.suspended(SuspendView::SyncPRs), nothing)
        } else if c == 'P' {
            (a.suspended(SuspendView::PullRemote), nothing)
        } else if c == 'R' {
            (a, RequestView::Refresh)
        } else if c == 'u' {
            (a, RequestView::Undo)
        } else if c == 'h' {
            (AppView { mode: ModeView::HistoryView, ..a.quiet() }, nothing)
        } else if c == '?' {
            (AppView { mode: ModeView::Help, ..a }, nothing)
        } else {
            (a, nothing)
        },
        _ => (a, nothing),
    }
}

/// With the details of the commit at the cursor shown, or no longer shown.
pub open spec fn toggled(a: AppView) -> AppView {
    AppView {
        expanded: if a.expanded == Some(a.cursor) {
            None
        } else {
            Some(a.cursor)
        },
        ..a.quiet()
    }
}

/// What a key does in Normal mode. Shift with an arrow begins a selection; with a letter
/// it is the upper-case letter. Alt does nothing. Ctrl reorders, and redoes.
pub open spec fn normal_key(a: AppView, key: Key) -> (AppView, RequestView) {
    if key.shift && key.code == KeyCode::Up {
        (selecting(a).up(), RequestView::Nothing)
    } else if key.shift && key.code == KeyCode::Down {
        (selecting(a).down(), RequestView::Nothing)
    } else if key.alt {
        (a, RequestView::Nothing)
    } else if key.ctrl {
        match way(key.code) {
            Way::Up => a.moving(true),
            Way::Down => a.moving(false),
            Way::Nowhere => (
                a,
                if key.code == KeyCode::Char('r') {
                    RequestView::Redo
                } else {
                    RequestView::Nothing
                },
            ),
        }
    } else {
        plain_key(a, key.code)
    }
}

/// Whether a key in Normal mode finds the hashes and subjects that it shortens so that
/// they can be.
pub open spec fn normal_fits(a: AppView, key: Key) -> bool {
    let arrow = key.code == KeyCode::Up || key.code == KeyCode::Down;
    if (key.shift && arrow) || key.alt {
        true
    } else if key.ctrl {
        match way(key.code) {
            Way::Up => a.movable(true),
            Way::Down => a.movable(false),
            Way::Nowhere => true,
        }
    } else {
        key.code == KeyCode::Char('e') && a.len() > 0 ==> bytes::cuts(a.hash_here(), 7)
    }
}

/// What a key does in Select mode.
pub open spec fn select_key(a: AppView, key: Key) -> AppView {
    match way(key.code) {
        Way::Up => a.up(),
        Way::Down => a.down(),
        Way::Nowhere => if key.code == KeyCode::Char('s') {
            match a.selection() {
                Some((lo, hi)) => AppView {
                    mode: ModeView::Confirm {
                        prompt: "Squash "@ + number::dec((hi - lo + 1) as nat)
                            + " commits? (y/n)"@,
                        action: PendingAction::Squash,
                    },
                    ..a
                },
                None => a,
            }
        } else if key.code == KeyCode::Esc || key.code == KeyCode::Char('q') {
            AppView { select_anchor: None, mode: ModeView::Normal, ..a }
        } else {
            a
        },
    }
}

/// How far a diff can be scrolled.
pub open spec fn last_line(a: AppView) -> int {
    if a.diff_content.len() > 0 {
        a.diff_content.len() - 1
    } else {
        0
    }
}

/// How far half a page is.
pub const HALF_PAGE: usize = 20;

/// What a key does while a diff is shown: lines and half pages up and down, and back to
/// the stack.
pub open spec fn diff_key(a: AppView, key: Key) -> AppView {
    if key.ctrl {
        if way(key.code) == Way::Down || key.code == KeyCode::Char('d') {
            AppView {
                diff_scroll: (if a.diff_scroll + HALF_PAGE <= last_line(a) {
                    a.diff_scroll + HALF_PAGE
                } else {
                    last_line(a)
                }) as usize,
                ..a
            }
        } else if way(key.code) == Way::Up || key.code == KeyCode::Char('u') {
            AppView {
                diff_scroll: (if a.diff_scroll >= HALF_PAGE {
                    a.diff_scroll - HALF_PAGE
                } else {
                    0
                }) as usize,
                ..a
            }
        } else {
            a
        }
    } else {
        match way(key.code) {
            Way::Down => if a.diff_scroll < last_line(a) {
                AppView { diff_scroll: (a.diff_scroll + 1) as usize, ..a }
            } else {
                a
            },
            Way::Up => if a.diff_scroll > 0 {
                AppView { diff_scroll: (a.diff_scroll - 1) as usize, ..a }
            } else {
                a
            },
            Way::Nowhere => if key.code == KeyCode::Char('q') || key.code == KeyCode::Esc {
                AppView { mode: ModeView::Normal, diff_content: seq![], ..a }
            } else {
                a
            },
        }
    }
}

/// Whether a key is `q` or Esc.
pub open spec fn leaves(code: KeyCode) -> bool {
    code == KeyCode::Char('q') || code == KeyCode::Esc
}

/// What a key does where an insertion's place is chosen.
pub open spec fn insert_key(a: AppView, key: Key) -> AppView {
    if key.code == KeyCode::Char('a') {
        a.inserting_after()
    } else if key.code == KeyCode::Char('t') {
        a.inserting_at_head()
    } else if leaves(key.code) {
        AppView { mode: ModeView::Normal, ..a }
    } else {
        a
    }
}

/// Whether a key is `y` or Enter.
pub open spec fn confirms(code: KeyCode) -> bool {
    code == KeyCode::Char('y') || code == KeyCode::Enter
}

/// What a key does where something is to be confirmed.
pub open spec fn confirm_key(a: AppView, key: Key) -> (AppView, RequestView) {
    let back = AppView { mode: ModeView::Normal, ..a };
    if confirms(key.code) {
        match a.mode {
            ModeView::Confirm { prompt, action } => match action {
                PendingAction::Squash => (back.squashing(), RequestView::Nothing),
                PendingAction::Drop => back.dropping(),
                PendingAction::Rebase => (
                    back.suspended(SuspendView::Rebase),
                    RequestView::Nothing,
                ),
            },
            _ => (back.notified("Cancelled."@), RequestView::Nothing),
        }
    } else if key.code == KeyCode::Char('n') || key.code == KeyCode::Esc {
        (back.notified("Cancelled."@), RequestView::Nothing)
    } else {
        (a, RequestView::Nothing)
    }
}

/// Whether a confirmation finds the hashes that it shortens so that they can be.
pub open spec fn confirm_fits(a: AppView) -> bool {
    match a.mode {
        ModeView::Confirm { prompt, action } => match action {
            PendingAction::Squash => a.squashable(),
            PendingAction::Drop => a.len() > 0 ==> bytes::cuts(a.hash_here(), 7),
            PendingAction::Rebase => true,
        },
        _ => true,
    }
}

/// What a key does.
pub open spec fn key_step(a: AppView, key: Key) -> (AppView, RequestView) {
    match a.mode {
        ModeView::Normal => normal_key(a, key),
        ModeView::Select => (select_key(a, key), RequestView::Nothing),
        ModeView::DiffView => (diff_key(a, key), RequestView::Nothing),
        ModeView::HistoryView => (
            if leaves(key.code) {
                AppView { mode: ModeView::Normal, ..a }
            } else {
                a
            },
            RequestView::Nothing,
        ),
        ModeView::Help => (
            if leaves(key.code) || key.code == KeyCode::Char('?') {
                AppView { mode: ModeView::Normal, ..a }
            } else {
                a
            },
            RequestView::Nothing,
        ),
        ModeView::InsertChoice => (insert_key(a, key), RequestView::Nothing),
        ModeView::Confirm { prompt, action } => confirm_key(a, key),
    }
}

/// Whether a key finds the hashes and subjects that it shortens so that they can be.
pub open spec fn key_fits(a: AppView, key: Key) -> bool {
    match a.mode {
        ModeView::Normal => normal_fits(a, key),
        ModeView::InsertChoice => key.code == KeyCode::Char('a') && a.cursor + 1 < a.len()
            ==> bytes::cuts(a.hash_here(), 7),
        ModeView::Confirm { prompt, action } => confirms(key.code) ==> confirm_fits(a),
        _ => true,
    }
}

/// Expands or collapses the details of the commit at the cursor.
fn toggle(app: &mut App)
    ensures
        final(app)@ == toggled(old(app)@),
{
    app.clear_notification();
    let open_here = match app.expanded {
        Some(i) => i == app.cursor,
        None => false,
    };
    if open_here {
        app.expanded = None;
    } else {
        app.expanded = Some(app.cursor);
    }
}

/// Begins a selection at the cursor.
fn begin_selection(app: &mut App)
    ensures
        final(app)@ == selecting(old(app)@),
{
    app.clear_notification();
    app.select_anchor = Some(app.cursor);
    app.mode = Mode::Select;
}

/// Asks whether to remove the commit at the cursor.
fn ask_removal(app: &mut App)
    requires
        old(app)@.wf(),
    ensures
        final(app)@ == plain_key(old(app)@, KeyCode::Char('x')).0,
{
    if !app.stack.is_empty() {
        proof {
            assert(app@.stack.patches[app.cursor as int] == app.stack.patches@[app.cursor as int]@);
        }
        let prompt = concat3(
            "Remove '",
            app.stack.patches[app.cursor].subject.as_str(),
            "'? (y/n)",
        );
        app.mode = Mode::Confirm { prompt, action: PendingAction::Drop };
    }
}

/// Handles a letter in Normal mode.
fn handle_letter(app: &mut App, c: char) -> (r: Request)
    requires
        old(app)@.wf(),
        old(app)@.mode is Normal,
        c == 'e' && old(app)@.len() > 0 ==> bytes::cuts(old(app)@.hash_here(), 7),
    ensures
        final(app)@ == plain_key(old(app)@, KeyCode::Char(c)).0,
        r@ == plain_key(old(app)@, KeyCode::Char(c)).1,
        final(app)@.wf(),
{
    if c == 'q' {
        app.should_quit = true;
    } else if c == 'k' {
        app.move_cursor_up();
    } else if c == 'j' {
        app.move_cursor_down();
    } else if c == 'g' {
        app.clear_notification();
        if !app.stack.is_empty() {
            app.cursor = app.stack.len() - 1;
        }
    } else if c == 'G' {
        app.clear_notification();
        app.cursor = 0;
    } else if c == 'V' {
        begin_selection(app);
    } else if c == ' ' {
        toggle(app);
    } else if c == 'd' {
        app.clear_notification();
        if !app.stack.is_empty() {
            proof {
                assert(app@.stack.patches[app.cursor as int]
                    == app.stack.patches@[app.cursor as int]@);
            }
            return Request::Diff(app.stack.patches[app.cursor].hash.clone());
        }
    } else if c == 'e' {
        app.edit_commit_at_cursor();
    } else if c == 'i' {
        app.show_insert_choice();
    } else if c == 'x' {
        ask_removal(app);
    } else if c == 'r' {
        app.start_rebase();
    } else if c == 'p' {
        app.submit_at_cursor();
    } else if c == 's' {
        app.sync_all_prs();
    } else if c == 'P' {
        app.pull_remote();
    } else if c == 'R' {
        return Request::Refresh;
    } else if c == 'u' {
        return Request::Undo;
    } else if c == 'h' {
        app.clear_notification();
        app.mode = Mode::HistoryView;
    } else if c == '?' {
        app.show_help();
    }
    Request::Nothing
}

/// Handle keys in Normal mode.
///
/// Modifier priority: Shift+Arrow → select, Alt → nothing, Ctrl → reorder and redo.
/// Capital letters (Shift+letter) are NOT intercepted by the Shift block —
/// they fall through to the plain key match so R, S, G, V all work.
pub fn handle_normal(app: &mut App, key: Key) -> (r: Request)
    requires
        old(app)@.wf(),
        old(app)@.mode is Normal,
        normal_fits(old(app)@, key),
    ensures
        final(app)@ == normal_key(old(app)@, key).0,
        r@ == normal_key(old(app)@, key).1,
        final(app)@.wf(),
{
    if key.shift {
        match key.code {
            KeyCode::Up => {
                begin_selection(app);
                app.move_cursor_up();
                return Request::Nothing;
            },
            KeyCode::Down => {
                begin_selection(app);
                app.move_cursor_down();
                return Request::Nothing;
            },
            _ => {},
        }
    }
    if key.alt {
        return Request::Nothing;
    }
    if key.ctrl {
        return match way_of(key.code) {
            Way::Up => app.move_patch_up(),
            Way::Down => app.move_patch_down(),
            Way::Nowhere => match key.code {
                KeyCode::Char(c) => {
                    if c == 'r' {
                        Request::Redo
                    } else {
                        Request::Nothing
                    }
                },
                _ => Request::Nothing,
            },
        };
    }
    match key.code {
        KeyCode::Up => app.move_cursor_up(),
        KeyCode::Down => app.move_cursor_down(),
        KeyCode::Enter => toggle(app),
        KeyCode::Char(c) => {
            return handle_letter(app, c);
        },
        _ => {},
    }
    Request::Nothing
}

/// Handle keys in Select (visual) mode.
pub fn handle_select(app: &mut App, key: Key)
    requires
        old(app)@.wf(),
        old(app)@.mode is Select,
    ensures
        final(app)@ == select_key(old(app)@, key),
        final(app)@.wf(),
{
    match way_of(key.code) {
        Way::Up => app.move_cursor_up(),
        Way::Down => app.move_cursor_down(),
        Way::Nowhere => match key.code {
            KeyCode::Char(c) => {
                if c == 's' {
                    let range = app.selection_range();
                    if let Some((lo, hi)) = range {
                        proof {
                            assert(app@.len() == app.stack.patches.len());
                        }
                        let count = decimal((hi - lo) as u64 + 1);
                        let prompt = concat3("Squash ", count.as_str(), " commits? (y/n)");
                        app.mode = Mode::Confirm { prompt, action: PendingAction::Squash };
                    }
                } else if c == 'q' {
                    app.select_anchor = None;
                    app.mode = Mode::Normal;
                }
            },
            KeyCode::Esc => {
                app.select_anchor = None;
                app.mode = Mode::Normal;
            },
            _ => {},
        },
    }
}

/// Handle keys in DiffView mode.
pub fn handle_diff_view(app: &mut App, key: Key)
    requires
        old(app)@.wf(),
        old(app)@.mode is DiffView,
    ensures
        final(app)@ == diff_key(old(app)@, key),
        final(app)@.wf(),
{
    let last: usize = if app.diff_content.len() > 0 {
        app.diff_content.len() - 1
    } else {
        0
    };
    proof {
        assert(app@.diff_content.len() == app.diff_content@.len());
    }
    let letter: char = match key.code {
        KeyCode::Char(c) => c,
        _ => ' ',
    };
    let direction = way_of(key.code);
    if key.ctrl {
        if direction == Way::Down || letter == 'd' {
            app.diff_scroll = if app.diff_scroll <= last && last - app.diff_scroll >= HALF_PAGE {
                app.diff_scroll + HALF_PAGE
            } else {
                last
            };
        } else if direction == Way::Up || letter == 'u' {
            app.diff_scroll = if app.diff_scroll >= HALF_PAGE {
                app.diff_scroll - HALF_PAGE
            } else {
                0
            };
        }
        return;
    }
    match direction {
        Way::Down => {
            if app.diff_scroll < last {
                app.diff_scroll = app.diff_scroll + 1;
            }
        },
        Way::Up => {
            if app.diff_scroll > 0 {
                app.diff_scroll = app.diff_scroll - 1;
            }
        },
        Way::Nowhere => {
            if is_leaving(key.code) {
                app.mode = Mode::Normal;
                app.diff_content = Vec::new();
                proof {
                    assert(app@.diff_content =~= Seq::<Seq<char>>::empty());
                }
            }
        },
    }
}

/// Whether a key is `q` or Esc.
fn is_leaving(code: KeyCode) -> (r: bool)
    ensures
        r == leaves(code),
{
    match code {
        KeyCode::Char(c) => c == 'q',
        KeyCode::Esc => true,
        _ => false,
    }
}

/// Handle keys while the history is shown.
pub fn handle_history_view(app: &mut App, key: Key)
    requires
        old(app)@.wf(),
        old(app)@.mode is HistoryView,
    ensures
        final(app)@ == key_step(old(app)@, key).0,
        final(app)@.wf(),
{
    if is_leaving(key.code) {
        app.mode = Mode::Normal;
    }
}

/// Handle keys while the help is shown.
pub fn handle_help(app: &mut App, key: Key)
    requires
        old(app)@.wf(),
        old(app)@.mode is Help,
    ensures
        final(app)@ == key_step(old(app)@, key).0,
        final(app)@.wf(),
{
    let asks = match key.code {
        KeyCode::Char(c) => c == '?',
        _ => false,
    };
    if asks || is_leaving(key.code) {
        app.mode = Mode::Normal;
    }
}

/// Handle the insert location choice prompt.
pub fn handle_insert_choice(app: &mut App, key: Key)
    requires
        old(app)@.wf(),
        old(app)@.mode is InsertChoice,
        key_fits(old(app)@, key),
    ensures
        final(app)@ == insert_key(old(app)@, key),
        final(app)@.wf(),
{
    let letter: char = match key.code {
        KeyCode::Char(c) => c,
        _ => ' ',
    };
    if letter == 'a' {
        app.insert_after_cursor();
    } else if letter == 't' {
        app.insert_at_head();
    } else if is_leaving(key.code) {
        app.mode = Mode::Normal;
    }
}

/// Handle keys in Confirm dialog mode.
pub fn handle_confirm(app: &mut App, key: Key) -> (r: Request)
    requires
        old(app)@.wf(),
        old(app)@.mode is Confirm,
        confirms(key.code) ==> confirm_fits(old(app)@),
    ensures
        final(app)@ == confirm_key(old(app)@, key).0,
        r@ == confirm_key(old(app)@, key).1,
        final(app)@.wf(),
{
    let letter: char = match key.code {
        KeyCode::Char(c) => c,
        KeyCode::Enter => 'y',
        KeyCode::Esc => 'n',
        _ => ' ',
    };
    if letter == 'y' {
        let action = match &app.mode {
            Mode::Confirm { prompt, action } => Some(*action),
            _ => None,
        };
        app.mode = Mode::Normal;
        match action {
            Some(PendingAction::Squash) => {
                app.squash_selected();
                Request::Nothing
            },
            Some(PendingAction::Drop) => app.drop_at_cursor(),
            Some(PendingAction::Rebase) => {
                app.execute_rebase();
                Request::Nothing
            },
            None => {
                app.tell("Cancelled.");
                Request::Nothing
            },
        }
    } else if letter == 'n' {
        app.mode = Mode::Normal;
        app.tell("Cancelled.");
        Request::Nothing
    } else {
        Request::Nothing
    }
}

impl App {
    /// Handle a key. Whatever the key, the cursor stays on a commit, a selection stays
    /// within the stack, and the timeline stays in order.
    pub fn handle_key(&mut self, key: Key) -> (r: Request)
        requires
            old(self)@.wf(),
            key_fits(old(self)@, key),
        ensures
            final(self)@ == key_step(old(self)@, key).0,
            r@ == key_step(old(self)@, key).1,
            final(self)@.wf(),
    {
        match &self.mode {
            Mode::Normal => handle_normal(self, key),
            Mode::Select => {
                handle_select(self, key);
                Request::Nothing
            },
            Mode::DiffView => {
                handle_diff_view(self, key);
                Request::Nothing
            },
            Mode::HistoryView => {
                handle_history_view(self, key);
                Request::Nothing
            },
            Mode::Help => {
                handle_help(self, key);
                Request::Nothing
            },
            Mode::InsertChoice => {
                handle_insert_choice(self, key);
                Request::Nothing
            },
            Mode::Confirm { prompt, action } => handle_confirm(self, key),
        }
    }

    /// Whether the hash of the commit at the cursor, if there is one, can be shortened.
    fn hash_fits(&self) -> (r: bool)
        requires
            self@.wf(),
        ensures
            r == (self@.len() > 0 ==> bytes::cuts(self@.hash_here(), 7)),
    {
        if self.stack.len() == 0 {
            return true;
        }
        proof {
            assert(self@.stack.patches[self.cursor as int]
                == self.stack.patches@[self.cursor as int]@);
        }
        can_cut(self.stack.patches[self.cursor].hash.as_str(), 7)
    }

    /// Whether the commit at the cursor can change places with its neighbour, if it has one.
    fn can_move(&self, up: bool) -> (r: bool)
        requires
            self@.wf(),
        ensures
            r == self@.movable(up),
    {
        let n: usize = self.stack.len();
        let here: usize = self.cursor;
        let there: usize = if up {
            if here >= n || n - here < 2 {
                return true;
            }
            here + 1
        } else {
            if here == 0 {
                return true;
            }
            here - 1
        };
        proof {
            assert(self@.stack.patches[here as int] == self.stack.patches@[here as int]@);
            assert(self@.stack.patches[there as int] == self.stack.patches@[there as int]@);
        }
        let subject = self.stack.patches[here].subject.as_str();
        can_cut(self.stack.patches[here].hash.as_str(), 7) && (!longer_than(subject, 30)
            || can_cut(subject, 27)) && can_cut(self.stack.patches[there].hash.as_str(), 7)
    }

    /// Whether every selected commit has a hash that can be shortened.
    fn can_squash(&self) -> (r: bool)
        requires
            self@.wf(),
            self@.selecting(),
        ensures
            r == self@.squashable(),
    {
        match self.selection_range() {
            Some((lo, hi)) => {
                if lo >= hi {
                    return true;
                }
                let mut i: usize = lo;
                while i <= hi
                    invariant
                        lo <= i <= hi + 1,
                        lo < hi < self.stack.patches.len(),
                        self@.selection() == Some((lo, hi)),
                        forall|j: int|
                            lo <= j < i ==> bytes::cuts((#[trigger] self@.stack.patches[j]).hash, 7),
                    decreases hi + 1 - i,
                {
                    proof {
                        assert(self@.stack.patches[i as int] == self.stack.patches@[i as int]@);
                    }
                    if !can_cut(self.stack.patches[i].hash.as_str(), 7) {
                        return false;
                    }
                    i += 1;
                }
                true
            },
            None => true,
        }
    }

    /// Whether a key finds the hashes and subjects that it shortens so that they can be.
    pub fn fits(&self, key: Key) -> (r: bool)
        requires
            self@.wf(),
        ensures
            r == key_fits(self@, key),
    {
        let letter: char = match key.code {
            KeyCode::Char(c) => c,
            _ => ' ',
        };
        match &self.mode {
            Mode::Normal => {
                let arrow = matches!(key.code, KeyCode::Up | KeyCode::Down);
                if (key.shift && arrow) || key.alt {
                    true
                } else if key.ctrl {
                    match way_of(key.code) {
                        Way::Up => self.can_move(true),
                        Way::Down => self.can_move(false),
                        Way::Nowhere => true,
                    }
                } else {
                    letter != 'e' || self.hash_fits()
                }
            },
            Mode::InsertChoice => {
                letter != 'a' || self.stack.len() == 0 || self.cursor >= self.stack.len() - 1
                    || self.hash_fits()
            },
            Mode::Confirm { prompt, action } => {
                if letter != 'y' && !matches!(key.code, KeyCode::Enter) {
                    return true;
                }
                match action {
                    PendingAction::Squash => self.can_squash(),
                    PendingAction::Drop => self.hash_fits(),
                    PendingAction::Rebase => true,
                }
            },
            _ => true,
        }
    }
}

/// A key that suspends the front end leaves no selection behind.
pub proof fn law_suspended_not_selecting(a: AppView, key: Key)
    requires
        a.wants_suspend is None,
    ensures
        key_step(a, key).0.wants_suspend is Some ==> !key_step(a, key).0.selecting(),
{
}

} // verus!
