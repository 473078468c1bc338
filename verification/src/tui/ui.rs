//! What is shown.
use vstd::prelude::*;

use super::app::{App, AppView, Mode, ModeView};
use crate::history;
use crate::history::{clock_text, EntryView};
use crate::stack::{PatchEntry, PatchStatus, PatchView};
use super::span;
use super::span::{
    in_bold, in_color, in_dim, no_style, span, Color, Span, SpanView, Style,
};
use crate::text::bytes;
use crate::text::bytes::{cut_text, saturated};
use crate::text::chars;
use crate::text::chars::{
    concat2, concat3, concat4, piece, to_chars, trimmed, trimmed_start_set, CharSet,
};
use crate::text::number;
use crate::text::number::decimal;
use crate::text::pieces;
use crate::text::pieces::{lines_of, split_text};
use crate::text::search;
use crate::text::search::{find_in, occurs, starts};
use crate::text::views;

verus! {

broadcast use {span::group_spans, views::group_views};

/// The styled texts of a shortcut: the key, and behind a colon what it does.
pub open spec fn shortcut(part: Seq<char>) -> Seq<SpanView> {
    match search::find(part, ":"@) {
        Some(at) => seq![
            span::styled(part.take(at), span::bold(Color::Cyan)),
            span::styled(":"@ + part.skip(at + 1), span::colored(Color::DarkGray)),
        ],
        None => seq![span::styled(part, span::colored(Color::DarkGray))],
    }
}

/// Parse a shortcut string into styled (key, action) pairs.
fn parse_shortcut_pair(part: &str) -> (r: Vec<Span>)
    ensures
        span::spans(r@) == shortcut(part@),
{
    let mut r: Vec<Span> = Vec::new();
    match find_in(part, ":") {
        Some(at) => {
            let v = to_chars(part);
            proof {
                reveal_strlit(":");
                search::lemma_find(part@, ":"@);
                assert(v@.subrange(0, at as int) =~= part@.take(at as int));
                assert(v@.subrange(at + 1, v@.len() as int) =~= part@.skip(at + 1));
            }
            let key = piece(&v, 0, at);
            let action = piece(&v, at + 1, v.len());
            let action = concat2(":", action.as_str());
            r.push(span(key.as_str(), in_bold(Color::Cyan)));
            r.push(span(action.as_str(), in_color(Color::DarkGray)));
        },
        None => {
            r.push(span(part, in_color(Color::DarkGray)));
        },
    }
    r
}

/// Shortcuts on their way into lines: the full lines, the line at hand, and how much
/// room that takes.
#[verifier::ext_equal]
pub struct Wrapped {
    pub lines: Seq<Seq<SpanView>>,
    pub current: Seq<SpanView>,
    pub width: nat,
}

/// A line that holds a space.
pub open spec fn blank() -> Seq<SpanView> {
    seq![span::styled(" "@, span::plain())]
}

/// With one more shortcut: on the line at hand, or on a new one where it would not fit.
pub open spec fn with_part(w: Wrapped, part: Seq<char>, first: bool, width: nat) -> Wrapped {
    let size = bytes::byte_len(part);
    let room = if width > 0 {
        (width - 1) as nat
    } else {
        0
    };
    let a = if !first && w.width + 2 + size > room {
        Wrapped { lines: w.lines.push(w.current), current: blank(), width: 1 }
    } else {
        w
    };
    let b = if a.width > 1 {
        Wrapped {
            current: a.current.push(span::styled("  "@, span::colored(Color::DarkGray))),
            width: a.width + 2,
            ..a
        }
    } else {
        a
    };
    Wrapped { current: b.current + shortcut(part), width: b.width + size, ..b }
}

/// The first `n` shortcuts in lines.
pub open spec fn wrap(parts: Seq<Seq<char>>, n: int, width: nat) -> Wrapped
    decreases n,
{
    if n <= 0 {
        Wrapped { lines: seq![], current: blank(), width: 1 }
    } else {
        with_part(wrap(parts, n - 1, width), parts[n - 1], n == 1, width)
    }
}

/// The lines of shortcuts, wrapped at the terminal's width; at least one.
pub open spec fn shortcut_lines(shortcuts: Seq<char>, width: nat) -> Seq<Seq<SpanView>> {
    let parts = pieces::non_empty(pieces::split(shortcuts, "  "@));
    let w = wrap(parts, parts.len() as int, width);
    let all = if w.current.len() > 1 {
        w.lines.push(w.current)
    } else {
        w.lines
    };
    if all.len() == 0 {
        seq![blank()]
    } else {
        all
    }
}

/// A line that holds a space.
fn blank_line() -> (r: Vec<Span>)
    ensures
        span::spans(r@) == blank(),
{
    let mut r: Vec<Span> = Vec::new();
    r.push(span(" ", no_style()));
    r
}

/// The sum of two numbers, or the largest number there is.
fn plus(a: usize, b: usize) -> (r: usize)
    ensures
        r == if a + b <= usize::MAX {
            a + b
        } else {
            usize::MAX as int
        },
{
    if a > usize::MAX - b {
        usize::MAX
    } else {
        a + b
    }
}

/// A number, or the largest that fits where it does not.
pub open spec fn fitted(n: nat) -> usize {
    if n <= usize::MAX {
        n as usize
    } else {
        usize::MAX
    }
}

/// The pieces that are not empty.
fn filled(v: Vec<String>) -> (r: Vec<String>)
    ensures
        views::strs(r@) == pieces::non_empty(views::strs(v@)),
{
    let ghost all = views::strs(v@);
    let ghost p = |s: Seq<char>| s.len() > 0;
    let mut r: Vec<String> = Vec::new();
    let mut i: usize = 0;
    proof {
        assert(all.take(0) =~= Seq::<Seq<char>>::empty());
        pieces::lemma_filter_empty(p);
    }
    while i < v.len()
        invariant
            i <= v@.len(),
            all == views::strs(v@),
            p == (|s: Seq<char>| s.len() > 0),
            views::strs(r@) == all.take(i as int).filter(p),
        decreases v.len() - i,
    {
        proof {
            assert(all.take(i + 1) =~= all.take(i as int).push(all[i as int]));
            pieces::lemma_filter_push(all.take(i as int), all[i as int], p);
            assert(all[i as int] == v@[i as int]@);
        }
        if !v[i].as_str().is_empty() {
            r.push(v[i].clone());
        }
        i += 1;
    }
    proof {
        assert(all.take(i as int) =~= all);
    }
    r
}

/// Build shortcut lines that wrap at terminal width.
pub fn build_shortcut_lines(shortcuts: &str, width: usize) -> (r: Vec<Vec<Span>>)
    ensures
        span::lines(r@) == shortcut_lines(shortcuts@, width as nat),
{
    proof {
        reveal_strlit("  ");
    }
    let parts = filled(split_text(shortcuts, "  "));
    let ghost all = pieces::non_empty(pieces::split(shortcuts@, "  "@));
    let ghost w = wrap(all, 0, width as nat);
    let mut lines: Vec<Vec<Span>> = Vec::new();
    let mut current = blank_line();
    let mut used: usize = 1;
    let mut i: usize = 0;
    let room: usize = if width > 0 {
        width - 1
    } else {
        0
    };
    while i < parts.len()
        invariant
            i <= parts@.len(),
            all == views::strs(parts@),
            room == (if width > 0 {
                width - 1
            } else {
                0
            }),
            w == wrap(all, i as int, width as nat),
            span::lines(lines@) == w.lines,
            span::spans(current@) == w.current,
            used == fitted(w.width),
        decreases parts.len() - i,
    {
        let size = saturated(parts[i].as_str());
        proof {
            assert(all[i as int] == parts@[i as int]@);
        }
        if i > 0 && plus(used, plus(2, size)) > room {
            lines.push(current);
            current = blank_line();
            used = 1;
        }
        if used > 1 {
            current.push(span("  ", in_color(Color::DarkGray)));
            used = plus(used, 2);
        }
        let mut pair = parse_shortcut_pair(parts[i].as_str());
        let ghost before = span::spans(current@);
        let ghost added = span::spans(pair@);
        current.append(&mut pair);
        proof {
            assert(span::spans(current@) =~= before + added);
        }
        used = plus(used, size);
        i += 1;
        proof {
            w = wrap(all, i as int, width as nat);
        }
    }
    proof {
        assert(w.current.len() == current@.len());
    }
    if current.len() > 1 {
        lines.push(current);
    }
    proof {
        assert(span::lines(lines@).len() == lines@.len());
    }
    if lines.len() == 0 {
        lines.push(blank_line());
        proof {
            assert(span::lines(lines@) =~= seq![blank()]);
        }
    }
    lines
}

/// What the keys do in Normal mode.
pub const NORMAL_KEYS: &'static str =
    "↑k/↓j:move  V/Shift+↑↓:select  Ctrl+↑↓:reorder  e:edit  i:insert  x:remove  d:diff  r:rebase  p:submit/update PR  s:sync  P:pull remote  R:refresh  u:undo  Ctrl+r:redo  ?:help  q:quit";

/// What the keys do in Select mode.
pub const SELECT_KEYS: &'static str =
    "Shift+↑↓ or j/k:extend selection  s:squash  Esc:cancel";

/// What the keys do while a diff is shown.
pub const DIFF_KEYS: &'static str = "↑k/↓j:scroll  Ctrl+↑↓:half-page  q/Esc:back";

/// What the keys do while the history is shown.
pub const HISTORY_KEYS: &'static str = "q/Esc:back";

/// What the keys do while the help is shown.
pub const HELP_KEYS: &'static str = "q/Esc:close";

/// What the keys do where an insertion's place is chosen.
pub const INSERT_KEYS: &'static str = "a:insert after cursor  t:insert at top  Esc:cancel";

/// What the keys do where something is to be confirmed.
pub const CONFIRM_KEYS: &'static str = "y:confirm  n/Esc:cancel";

/// The help screen.
pub const HELP_TEXT: &'static str = " NAVIGATION\n   ↑ / k           Move cursor up (toward newer)\n   ↓ / j           Move cursor down (toward older)\n   g               Jump to top (newest commit)\n   G               Jump to bottom (oldest commit)\n   Enter / Space   Expand or collapse commit details\n\n SELECTION & SQUASH\n   V               Start visual selection at cursor\n   Shift + ↑ / ↓   Start selection and extend\n   j / k           Extend selection (while in select mode)\n   s               Squash selected commits\n                   (opens your editor to rewrite the message)\n   Esc             Cancel selection\n\n REORDER (modifies git history, checks for conflicts)\n   Ctrl + ↑ / k    Move patch up (toward newer)\n   Ctrl + ↓ / j    Move patch down (toward older)\n\n EDITING (modifies git history)\n   e               Edit the commit at cursor\n                   (make changes, press Enter — auto stages + amends + rebases)\n   i               Insert a new commit (choose: after cursor or at top)\n   x               Remove the commit from git history (confirms first)\n\n STACK OPERATIONS\n   r               Rebase entire stack onto base branch\n   p               Submit new PR or update existing PR\n   s               Sync all submitted PRs (force-push + update bases)\n   P               Pull remote changes into local stack\n                   (merges teammate's updates, then syncs)\n   R               Refresh stack display (re-reads commits from git)\n   d               View full diff of commit at cursor\n\n HISTORY (undo/redo restores actual git state)\n   u               Undo last operation\n   Ctrl + r        Redo last undone operation\n   h               View undo/redo history\n\n OTHER\n   ?               Toggle this help screen\n   q               Quit pilegit";

/// What a mode is called, and its colour.
pub open spec fn mode_label(mode: ModeView) -> (Seq<char>, Color) {
    match mode {
        ModeView::Normal => ("NORMAL"@, Color::Green),
        ModeView::Select => ("SELECT"@, Color::Yellow),
        ModeView::DiffView => ("DIFF"@, Color::Magenta),
        ModeView::HistoryView => ("HISTORY"@, Color::Blue),
        ModeView::Help => ("HELP"@, Color::Blue),
        ModeView::InsertChoice => ("INSERT"@, Color::Cyan),
        ModeView::Confirm { prompt, action } => ("CONFIRM"@, Color::Red),
    }
}

/// What a mode is called, and its colour.
fn label(mode: &Mode) -> (r: (&'static str, Color))
    ensures
        (r.0@, r.1) == mode_label(mode@),
{
    match mode {
        Mode::Normal => ("NORMAL", Color::Green),
        Mode::Select => ("SELECT", Color::Yellow),
        Mode::DiffView => ("DIFF", Color::Magenta),
        Mode::HistoryView => ("HISTORY", Color::Blue),
        Mode::Help => ("HELP", Color::Blue),
        Mode::InsertChoice => ("INSERT", Color::Cyan),
        Mode::Confirm { prompt, action } => ("CONFIRM", Color::Red),
    }
}

/// Black on a colour, bold.
pub open spec fn badge(c: Color) -> Style {
    Style { bg: Some(c), ..span::bold(Color::Black) }
}

/// Black on a colour, bold.
fn in_badge(c: Color) -> (r: Style)
    ensures
        r == badge(c),
{
    Style { bg: Some(c), ..in_bold(Color::Black) }
}

/// The header: the mode, the base, how many commits there are, and how many steps can be
/// undone, if any.
pub open spec fn header(a: AppView) -> Seq<SpanView> {
    let label = mode_label(a.mode);
    let start = seq![
        span::styled(" pilegit "@, badge(Color::Cyan)),
        span::styled("  "@, span::plain()),
        span::styled(" "@ + label.0 + " "@, badge(label.1)),
        span::styled("  "@, span::plain()),
        span::styled(
            "base: "@ + a.stack.base + " │ "@ + number::dec(a.len()) + " commits"@,
            span::colored(Color::DarkGray),
        ),
    ];
    if a.history.undoable() {
        start.push(span::styled("  "@, span::plain())).push(
            span::styled(
                "undo:"@ + number::dec(a.history.cursor),
                span::colored(Color::DarkGray),
            ),
        )
    } else {
        start
    }
}

/// The header.
pub fn render_header(app: &App) -> (r: Vec<Span>)
    ensures
        span::spans(r@) == header(app@),
{
    let (name, color) = label(&app.mode);
    let name = concat3(" ", name, " ");
    let count = decimal(app.stack.len() as u64);
    let mut about = concat4("base: ", app.stack.base.as_str(), " │ ", count.as_str());
    about.append(" commits");
    let mut r: Vec<Span> = Vec::new();
    r.push(span(" pilegit ", in_badge(Color::Cyan)));
    r.push(span("  ", no_style()));
    r.push(span(name.as_str(), in_badge(color)));
    r.push(span("  ", no_style()));
    r.push(span(about.as_str(), in_color(Color::DarkGray)));
    if app.history.can_undo() {
        let at = decimal(app.history.position() as u64);
        let text = concat2("undo:", at.as_str());
        r.push(span("  ", no_style()));
        r.push(span(text.as_str(), in_color(Color::DarkGray)));
    }
    r
}

/// A commit in the list.
pub struct Row {
    pub lines: Vec<Vec<Span>>,
    pub selected: bool,
}

/// A commit in the list, as it is seen in contracts.
#[verifier::ext_equal]
pub struct RowView {
    pub lines: Seq<Seq<SpanView>>,
    pub selected: bool,
}

impl View for Row {
    type V = RowView;

    open spec fn view(&self) -> RowView {
        RowView { lines: span::lines(self.lines@), selected: self.selected }
    }
}

/// The rows that a vector holds.
pub open spec fn rows(v: Seq<Row>) -> Seq<RowView> {
    v.map_values(|r: Row| r@)
}

/// What stands for a status, and its colour.
pub open spec fn status_icon(s: PatchStatus) -> (Seq<char>, Color) {
    match s {
        PatchStatus::Clean => ("●"@, Color::Green),
        PatchStatus::Conflict => ("✗"@, Color::Red),
        PatchStatus::Editing => ("✎"@, Color::Yellow),
        PatchStatus::Submitted => ("◈"@, Color::Cyan),
        PatchStatus::Merged => ("✓"@, Color::DarkGray),
    }
}

/// What stands for a status, and its colour.
fn icon(s: PatchStatus) -> (r: (&'static str, Color))
    ensures
        (r.0@, r.1) == status_icon(s),
{
    match s {
        PatchStatus::Clean => ("●", Color::Green),
        PatchStatus::Conflict => ("✗", Color::Red),
        PatchStatus::Editing => ("✎", Color::Yellow),
        PatchStatus::Submitted => ("◈", Color::Cyan),
        PatchStatus::Merged => ("✓", Color::DarkGray),
    }
}

/// How a subject looks.
pub open spec fn subject_style(at_cursor: bool, selected: bool) -> Style {
    if at_cursor {
        span::bold(Color::White)
    } else if selected {
        span::colored(Color::Cyan)
    } else {
        span::colored(Color::Gray)
    }
}

/// The line of a commit: where it stands, its status, its hash, its subject, and its
/// review, if any.
pub open spec fn commit_line(
    e: PatchView,
    at_cursor: bool,
    selected: bool,
    connector: Seq<char>,
) -> Seq<SpanView> {
    let icon = status_icon(e.status);
    let start = seq![
        span::styled(
            " "@ + (if at_cursor {
                "▶"@
            } else {
                " "@
            }) + " "@,
            if at_cursor {
                span::bold(Color::Cyan)
            } else {
                span::colored(Color::DarkGray)
            },
        ),
        span::styled(connector + " "@, span::colored(Color::DarkGray)),
        span::styled(icon.0 + " "@, span::colored(icon.1)),
        span::styled(bytes::cut(e.hash, 8) + " "@, span::dim(Color::Yellow)),
        span::styled(e.subject, subject_style(at_cursor, selected)),
    ];
    match e.pr_number {
        Some(n) => start.push(
            span::styled("  PR#"@ + number::dec(n as nat), span::bold(Color::Cyan)),
        ),
        None => if e.pr_branch is Some {
            start.push(span::styled("  ◈ submitted"@, span::dim(Color::Cyan)))
        } else {
            start
        },
    }
}

/// A line of details.
pub open spec fn detail(text: Seq<char>, style: Style) -> Seq<SpanView> {
    seq![span::styled("       "@, span::plain()), span::styled(text, style)]
}

/// The first lines of a body, up to five.
pub open spec fn body_lines(body: Seq<char>) -> Seq<Seq<char>> {
    let all = pieces::lines(body);
    all.take(if all.len() < 5 {
        all.len() as int
    } else {
        5
    })
}

/// The details of a commit: author and time, the branch and the address of its review,
/// and the first lines of its body.
pub open spec fn details(e: PatchView) -> Seq<Seq<SpanView>> {
    let first = seq![
        detail(
            e.author + " • "@ + e.timestamp,
            Style { italic: true, ..span::colored(Color::DarkGray) },
        ),
    ];
    let second = match e.pr_branch {
        Some(b) => first.push(detail("branch: "@ + b, span::dim(Color::Cyan))),
        None => first,
    };
    let third = match e.pr_url {
        Some(u) => second.push(
            detail(u, Style { underlined: true, ..span::colored(Color::Blue) }),
        ),
        None => second,
    };
    third + body_lines(e.body).map_values(
        |l: Seq<char>| detail(l, span::colored(Color::DarkGray)),
    )
}

/// Whether a place is selected.
pub open spec fn is_selected(a: AppView, i: int) -> bool {
    match a.selection() {
        Some((lo, hi)) => lo <= i <= hi,
        None => false,
    }
}

/// What connects a commit to its neighbours.
pub open spec fn connector(n: nat, i: int) -> Seq<char> {
    if i == n - 1 {
        "┌"@
    } else if i == 0 {
        "└"@
    } else {
        "│"@
    }
}

/// The row of the commit at place `i`.
pub open spec fn stack_row(a: AppView, i: int) -> RowView {
    let e = a.stack.patches[i];
    let first = seq![commit_line(e, i == a.cursor, is_selected(a, i), connector(a.len(), i))];
    RowView {
        lines: if a.expanded matches Some(x) && x == i {
            first + details(e)
        } else {
            first
        },
        selected: is_selected(a, i),
    }
}

/// The rows of a stack, newest on top.
pub open spec fn stack_rows(a: AppView) -> Seq<RowView> {
    Seq::new(a.len(), |k: int| stack_row(a, a.len() - 1 - k))
}

/// The line of a commit.
fn commit_spans(e: &PatchEntry, at_cursor: bool, selected: bool, connector: &str) -> (r: Vec<Span>)
    requires
        bytes::cuts(e@.hash, 8),
    ensures
        span::spans(r@) == commit_line(e@, at_cursor, selected, connector@),
{
    let mut r: Vec<Span> = Vec::new();
    let marker = if at_cursor {
        "▶"
    } else {
        " "
    };
    let marker = concat3(" ", marker, " ");
    r.push(
        span(
            marker.as_str(),
            if at_cursor {
                in_bold(Color::Cyan)
            } else {
                in_color(Color::DarkGray)
            },
        ),
    );
    let line = concat2(connector, " ");
    r.push(span(line.as_str(), in_color(Color::DarkGray)));
    let (sign, color) = icon(e.status);
    let sign = concat2(sign, " ");
    r.push(span(sign.as_str(), in_color(color)));
    let hash = cut_text(e.hash.as_str(), 8);
    let hash = concat2(hash.as_str(), " ");
    r.push(span(hash.as_str(), in_dim(Color::Yellow)));
    let style = if at_cursor {
        in_bold(Color::White)
    } else if selected {
        in_color(Color::Cyan)
    } else {
        in_color(Color::Gray)
    };
    r.push(span(e.subject.as_str(), style));
    match e.pr_number {
        Some(n) => {
            let number = decimal(n as u64);
            let text = concat2("  PR#", number.as_str());
            r.push(span(text.as_str(), in_bold(Color::Cyan)));
        },
        None => {
            if e.pr_branch.is_some() {
                r.push(span("  ◈ submitted", in_dim(Color::Cyan)));
            }
        },
    }
    r
}

/// A line of details.
fn detail_line(text: &str, style: Style) -> (r: Vec<Span>)
    ensures
        span::spans(r@) == detail(text@, style),
{
    let mut r: Vec<Span> = Vec::new();
    r.push(span("       ", no_style()));
    r.push(span(text, style));
    r
}

/// Appends the details of a commit.
fn add_details(lines: &mut Vec<Vec<Span>>, e: &PatchEntry)
    ensures
        span::lines(final(lines)@) == span::lines(old(lines)@) + details(e@),
{
    let ghost before = span::lines(lines@);
    let about = concat3(e.author.as_str(), " • ", e.timestamp.as_str());
    lines.push(
        detail_line(about.as_str(), Style { italic: true, ..in_color(Color::DarkGray) }),
    );
    let ghost first = seq![
        detail(about@, Style { italic: true, ..span::colored(Color::DarkGray) }),
    ];
    proof {
        assert(span::lines(lines@) =~= before + first);
    }
    if let Some(b) = &e.pr_branch {
        let text = concat2("branch: ", b.as_str());
        lines.push(detail_line(text.as_str(), in_dim(Color::Cyan)));
    }
    let ghost second = match e@.pr_branch {
        Some(b) => first.push(detail("branch: "@ + b, span::dim(Color::Cyan))),
        None => first,
    };
    proof {
        assert(span::lines(lines@) =~= before + second);
    }
    if let Some(u) = &e.pr_url {
        lines.push(
            detail_line(u.as_str(), Style { underlined: true, ..in_color(Color::Blue) }),
        );
    }
    let ghost third = match e@.pr_url {
        Some(u) => second.push(detail(u, Style { underlined: true, ..span::colored(Color::Blue) })),
        None => second,
    };
    proof {
        assert(span::lines(lines@) =~= before + third);
    }
    let body = lines_of(e.body.as_str());
    let ghost f = |l: Seq<char>| detail(l, span::colored(Color::DarkGray));
    let ghost all = pieces::lines(e.body@);
    let ghost start = before + third;
    let mut i: usize = 0;
    proof {
        assert(start + all.take(0).map_values(f) =~= start);
    }
    while i < body.len() && i < 5
        invariant
            i <= body@.len(),
            i <= 5,
            all == views::strs(body@),
            f == (|l: Seq<char>| detail(l, span::colored(Color::DarkGray))),
            span::lines(lines@) == start + all.take(i as int).map_values(f),
        decreases body.len() - i,
    {
        lines.push(detail_line(body[i].as_str(), in_color(Color::DarkGray)));
        proof {
            assert(all[i as int] == body@[i as int]@);
            assert(start + all.take(i + 1).map_values(f) =~= (start + all.take(i as int).map_values(
                f,
            )).push(f(all[i as int])));
        }
        i += 1;
    }
    proof {
        assert(body_lines(e.body@) =~= all.take(i as int));
        assert(start + all.take(i as int).map_values(f) =~= before + details(e@));
    }
}

/// The row of the commit at place `i`.
fn build_row(app: &App, i: usize) -> (r: Row)
    requires
        i < app@.len(),
        bytes::cuts(app@.stack.patches[i as int].hash, 8),
    ensures
        r@ == stack_row(app@, i as int),
{
    proof {
        assert(app@.stack.patches[i as int] == app.stack.patches@[i as int]@);
    }
    let n: usize = app.stack.len();
    let selected = match app.selection_range() {
        Some((lo, hi)) => lo <= i && i <= hi,
        None => false,
    };
    let expanded = match app.expanded {
        Some(x) => x == i,
        None => false,
    };
    let joint = if i == n - 1 {
        "┌"
    } else if i == 0 {
        "└"
    } else {
        "│"
    };
    let e = &app.stack.patches[i];
    let mut lines: Vec<Vec<Span>> = Vec::new();
    lines.push(commit_spans(e, i == app.cursor, selected, joint));
    proof {
        assert(span::lines(lines@) =~= seq![
            commit_line(
                e@,
                i == app@.cursor,
                is_selected(app@, i as int),
                connector(app@.len(), i as int),
            ),
        ]);
    }
    if expanded {
        add_details(&mut lines, e);
    }
    Row { lines, selected }
}

/// The rows of the stack, newest (highest index) at the top of the list.
pub fn render_stack_view(app: &App) -> (r: Vec<Row>)
    requires
        forall|i: int|
            0 <= i < app@.len() ==> bytes::cuts((#[trigger] app@.stack.patches[i]).hash, 8),
    ensures
        rows(r@) == stack_rows(app@),
{
    let n: usize = app.stack.len();
    let ghost all = stack_rows(app@);
    let mut r: Vec<Row> = Vec::new();
    let mut k: usize = 0;
    while k < n
        invariant
            k <= n == app@.len() == all.len(),
            all == stack_rows(app@),
            forall|i: int|
                0 <= i < app@.len() ==> bytes::cuts((#[trigger] app@.stack.patches[i]).hash, 8),
            rows(r@) == all.take(k as int),
        decreases n - k,
    {
        proof {
            assert(bytes::cuts(app@.stack.patches[n - 1 - k].hash, 8));
        }
        let ghost before = rows(r@);
        let row = build_row(app, n - 1 - k);
        proof {
            assert(row@ == all[k as int]);
        }
        r.push(row);
        proof {
            assert(rows(r@) =~= before.push(row@));
            assert(all.take(k + 1) =~= all.take(k as int).push(all[k as int]));
        }
        k += 1;
    }
    proof {
        assert(all.take(k as int) =~= all);
    }
    r
}

/// Where the cursor is in the list, which is reversed.
pub fn visual_cursor(app: &App) -> (r: usize)
    requires
        app@.wf(),
        app@.len() > 0,
    ensures
        r == app@.len() - 1 - app@.cursor,
{
    app.stack.len() - 1 - app.cursor
}

/// What is shown where there is no commit.
pub const EMPTY_STACK: &'static str =
    "  No commits in stack. Branch is up to date with base.";

/// What is asked on top of the stack, if anything, and its colour.
pub open spec fn overlay(a: AppView) -> Option<(Seq<char>, Color)> {
    if a.len() == 0 {
        None
    } else {
        match a.mode {
            ModeView::Confirm { prompt, action } => Some((prompt, Color::Yellow)),
            ModeView::InsertChoice => Some(
                ("Insert: (a) after cursor  (t) at top  (Esc) cancel"@, Color::Cyan),
            ),
            _ => None,
        }
    }
}

/// What is asked on top of the stack, if anything, and its colour.
pub fn overlay_text(app: &App) -> (r: Option<(String, Color)>)
    ensures
        match r {
            Some(x) => overlay(app@) == Some((x.0@, x.1)),
            None => overlay(app@) is None,
        },
{
    if app.stack.is_empty() {
        return None;
    }
    match &app.mode {
        Mode::Confirm { prompt, action } => Some((prompt.clone(), Color::Yellow)),
        Mode::InsertChoice => Some(
            ("Insert: (a) after cursor  (t) at top  (Esc) cancel".to_owned(), Color::Cyan),
        ),
        _ => None,
    }
}

/// An area of the screen.
#[derive(Debug, Clone, Copy, PartialEq, Eq, Structural)]
pub struct Area {
    pub x: u16,
    pub y: u16,
    pub width: u16,
    pub height: u16,
}

/// What is left of `n` once `m` is taken off.
pub open spec fn without(n: u16, m: u16) -> u16 {
    if n > m {
        (n - m) as u16
    } else {
        0
    }
}

/// What is left of `n` once `m` is taken off.
fn less(n: u16, m: u16) -> (r: u16)
    ensures
        r == without(n, m),
{
    if n > m {
        n - m
    } else {
        0
    }
}

/// The area of a dialog in the middle of another: as wide as its text takes, with room
/// on both sides, and three lines high.
pub open spec fn dialog(size: u16, parent: Area) -> Area {
    let wanted = (size + 6) as u16;
    let width = if wanted < without(parent.width, 4) {
        wanted
    } else {
        without(parent.width, 4)
    };
    Area {
        x: (parent.x + without(parent.width, width) / 2) as u16,
        y: (parent.y + without(parent.height, 3) / 2) as u16,
        width,
        height: 3,
    }
}

/// The area of a dialog in the middle of another; `size` is the length of its text.
pub fn render_overlay(size: u16, parent: Area) -> (r: Area)
    requires
        size + 6 <= u16::MAX,
        parent.x + parent.width <= u16::MAX,
        parent.y + parent.height <= u16::MAX,
    ensures
        r == dialog(size, parent),
{
    let wanted: u16 = size + 6;
    let most = less(parent.width, 4);
    let width: u16 = if wanted < most {
        wanted
    } else {
        most
    };
    Area {
        x: parent.x + less(parent.width, width) / 2,
        y: parent.y + less(parent.height, 3) / 2,
        width,
        height: 3,
    }
}

/// A dialog that is wide and high enough lies within the area it is in the middle of.
pub proof fn law_dialog_inside(size: u16, parent: Area)
    requires
        size + 6 <= u16::MAX,
        parent.x + parent.width <= u16::MAX,
        parent.y + parent.height <= u16::MAX,
        parent.height >= 3,
    ensures
        parent.x <= dialog(size, parent).x,
        dialog(size, parent).x + dialog(size, parent).width <= parent.x + parent.width,
        parent.y <= dialog(size, parent).y,
        dialog(size, parent).y + 3 <= parent.y + parent.height,
{
}

/// The colour of a line of a diff.
pub open spec fn diff_color(line: Seq<char>) -> Color {
    if "+"@.is_prefix_of(line) && !"+++"@.is_prefix_of(line) {
        Color::Green
    } else if "-"@.is_prefix_of(line) && !"---"@.is_prefix_of(line) {
        Color::Red
    } else if "@@"@.is_prefix_of(line) {
        Color::Cyan
    } else if "diff"@.is_prefix_of(line) || "index"@.is_prefix_of(line) {
        Color::Yellow
    } else {
        Color::Gray
    }
}

/// The colour of a line of a diff.
fn color_of(line: &str) -> (r: Color)
    ensures
        r == diff_color(line@),
{
    if starts(line, "+") && !starts(line, "+++") {
        Color::Green
    } else if starts(line, "-") && !starts(line, "---") {
        Color::Red
    } else if starts(line, "@@") {
        Color::Cyan
    } else if starts(line, "diff") || starts(line, "index") {
        Color::Yellow
    } else {
        Color::Gray
    }
}

/// The line of a diff in its colour.
pub open spec fn diff_line(line: Seq<char>) -> Seq<SpanView> {
    seq![span::styled(line, span::colored(diff_color(line)))]
}

/// The lines of a diff that are seen in an area of this height, which has a border.
pub open spec fn diff_lines(a: AppView, height: nat) -> Seq<Seq<SpanView>> {
    let room = if height > 2 {
        height - 2
    } else {
        0
    };
    let end = if a.diff_scroll + room < a.diff_content.len() {
        a.diff_scroll + room
    } else {
        a.diff_content.len() as int
    };
    a.diff_content.subrange(a.diff_scroll as int, end).map_values(
        |l: Seq<char>| diff_line(l),
    )
}

/// The lines of a diff that are seen in an area of this height.
pub fn render_diff_view(app: &App, height: u16) -> (r: Vec<Vec<Span>>)
    requires
        app@.diff_scroll <= app@.diff_content.len(),
    ensures
        span::lines(r@) == diff_lines(app@, height as nat),
{
    let n: usize = app.diff_content.len();
    let room: usize = less(height, 2) as usize;
    let start: usize = app.diff_scroll;
    proof {
        assert(app@.diff_content.len() == n);
    }
    let end: usize = if room < n - start {
        start + room
    } else {
        n
    };
    let ghost all = diff_lines(app@, height as nat);
    let mut r: Vec<Vec<Span>> = Vec::new();
    let mut i: usize = start;
    while i < end
        invariant
            start <= i <= end <= n == app.diff_content@.len(),
            start == app@.diff_scroll,
            all == diff_lines(app@, height as nat),
            all.len() == end - start,
            span::lines(r@) == all.take(i - start),
        decreases end - i,
    {
        let mut line: Vec<Span> = Vec::new();
        let text = app.diff_content[i].as_str();
        line.push(span(text, in_color(color_of(text))));
        proof {
            assert(app@.diff_content[i as int] == app.diff_content@[i as int]@);
            assert(span::spans(line@) =~= diff_line(text@));
            assert(all[i - start] == diff_line(text@));
            assert(all.take(i + 1 - start) =~= all.take(i - start).push(all[i - start]));
        }
        r.push(line);
        i += 1;
    }
    proof {
        assert(all.take(i - start) =~= all);
    }
    r
}

/// The title of a diff.
pub fn diff_title(app: &App) -> (r: String)
    ensures
        r@ == if app@.cursor < app@.len() {
            " Diff: "@ + app@.stack.patches[app@.cursor as int].subject + " "@
        } else {
            " Diff "@
        },
{
    if app.cursor < app.stack.len() {
        proof {
            assert(app@.stack.patches[app.cursor as int] == app.stack.patches@[app.cursor as int]@);
        }
        concat3(" Diff: ", app.stack.patches[app.cursor].subject.as_str(), " ")
    } else {
        " Diff ".to_owned()
    }
}

/// The line of a state of the timeline.
pub open spec fn history_line(e: EntryView, current: bool) -> Seq<SpanView> {
    seq![
        span::styled(
            " "@ + (if current {
                "→"@
            } else {
                " "@
            }) + " "@,
            span::colored(Color::Cyan),
        ),
        span::styled(
            history::shown_clock(e.timestamp as int) + " "@,
            span::colored(Color::DarkGray),
        ),
        span::styled(e.description, span::colored(Color::Gray)),
        span::styled(
            "  ("@ + number::dec(e.snapshot.patches.len()) + " patches)"@,
            span::colored(Color::DarkGray),
        ),
    ]
}

/// The lines of the timeline, newest on top.
pub open spec fn history_lines(a: AppView) -> Seq<Seq<SpanView>> {
    let n = a.history.entries.len();
    Seq::new(
        n,
        |k: int| history_line(a.history.entries[n - 1 - k], n - 1 - k == a.history.cursor),
    )
}

/// The lines of the timeline, newest on top.
pub fn render_history_view(app: &App) -> (r: Vec<Vec<Span>>)
    ensures
        span::lines(r@) == history_lines(app@),
{
    let entries = app.history.list();
    let here: usize = app.history.position();
    let n: usize = entries.len();
    let ghost all = history_lines(app@);
    let mut r: Vec<Vec<Span>> = Vec::new();
    let mut k: usize = 0;
    proof {
        assert(app@.history.entries.len() == n);
    }
    while k < n
        invariant
            k <= n == entries@.len() == all.len(),
            all == history_lines(app@),
            history::entry_views(entries@) == app@.history.entries,
            here == app@.history.cursor,
            span::lines(r@) == all.take(k as int),
        decreases n - k,
    {
        let i: usize = n - 1 - k;
        let e = &entries[i];
        proof {
            assert(app@.history.entries[i as int] == entries@[i as int]@);
        }
        let marker = if i == here {
            "→"
        } else {
            " "
        };
        let marker = concat3(" ", marker, " ");
        let time = clock_text(e.timestamp);
        let time = concat2(time.as_str(), " ");
        let count = decimal(e.snapshot.len() as u64);
        let count = concat3("  (", count.as_str(), " patches)");
        let mut line: Vec<Span> = Vec::new();
        line.push(span(marker.as_str(), in_color(Color::Cyan)));
        line.push(span(time.as_str(), in_color(Color::DarkGray)));
        line.push(span(e.description.as_str(), in_color(Color::Gray)));
        line.push(span(count.as_str(), in_color(Color::DarkGray)));
        proof {
            assert(span::spans(line@) =~= all[k as int]);
            assert(all.take(k + 1) =~= all.take(k as int).push(all[k as int]));
        }
        r.push(line);
        k += 1;
    }
    proof {
        assert(all.take(k as int) =~= all);
    }
    r
}

/// A text with spaces behind it, so that it takes `n` characters.
pub open spec fn padded(s: Seq<char>, n: int) -> Seq<char> {
    s + super::term::times(' ', n - s.len())
}

/// A text with spaces behind it, so that it takes `n` characters.
fn pad(s: &str, n: usize) -> (r: String)
    ensures
        r@ == padded(s@, n as int),
{
    let have: usize = to_chars(s).len();
    let fill = super::term::repeated(
        ' ',
        if n > have {
            n - have
        } else {
            0
        },
    );
    proof {
        assert(fill@ =~= super::term::times(' ', n - s@.len()));
    }
    concat2(s, fill.as_str())
}

/// A line of the help screen: a key and what it does, parted by three spaces or more; or
/// what continues such a line; or a heading.
pub open spec fn help_line(line: Seq<char>) -> Seq<SpanView> {
    if line.len() == 0 {
        seq![span::styled(""@, span::plain())]
    } else if " "@.is_prefix_of(line) && search::contains(line, "   "@) {
        let t = chars::trim_start_set(line, CharSet::White);
        match search::find(t, "   "@) {
            Some(at) => seq![
                span::styled("   "@ + padded(t.take(at), 16), span::colored(Color::Yellow)),
                span::styled(
                    chars::trim_start_set(t.skip(at), CharSet::White),
                    span::colored(Color::Gray),
                ),
            ],
            None => seq![span::styled("   "@ + t, span::colored(Color::Gray))],
        }
    } else {
        seq![span::styled(" "@ + chars::trim(line), span::bold(Color::Cyan))]
    }
}

/// A line of the help screen.
fn build_help_line(line: &str) -> (r: Vec<Span>)
    ensures
        span::spans(r@) == help_line(line@),
{
    let mut r: Vec<Span> = Vec::new();
    if line.is_empty() {
        r.push(span("", no_style()));
    } else if starts(line, " ") && occurs(line, "   ") {
        let t = trimmed_start_set(line, CharSet::White);
        match find_in(t.as_str(), "   ") {
            Some(at) => {
                let v = to_chars(t.as_str());
                proof {
                    search::lemma_find(t@, "   "@);
                    assert(v@.subrange(0, at as int) =~= t@.take(at as int));
                    assert(v@.subrange(at as int, v@.len() as int) =~= t@.skip(at as int));
                }
                let key = piece(&v, 0, at);
                let key = pad(key.as_str(), 16);
                let key = concat2("   ", key.as_str());
                let rest = piece(&v, at, v.len());
                let rest = trimmed_start_set(rest.as_str(), CharSet::White);
                r.push(span(key.as_str(), in_color(Color::Yellow)));
                r.push(span(rest.as_str(), in_color(Color::Gray)));
            },
            None => {
                let text = concat2("   ", t.as_str());
                r.push(span(text.as_str(), in_color(Color::Gray)));
            },
        }
    } else {
        let t = trimmed(line);
        let text = concat2(" ", t.as_str());
        r.push(span(text.as_str(), in_bold(Color::Cyan)));
    }
    r
}

/// The lines of the help screen.
pub fn render_help_view(text: &str) -> (r: Vec<Vec<Span>>)
    ensures
        span::lines(r@) == pieces::lines(text@).map_values(|l: Seq<char>| help_line(l)),
{
    let lines = lines_of(text);
    let ghost all = pieces::lines(text@);
    let ghost f = |l: Seq<char>| help_line(l);
    let mut r: Vec<Vec<Span>> = Vec::new();
    let mut i: usize = 0;
    proof {
        assert(all.take(0).map_values(f) =~= Seq::<Seq<SpanView>>::empty());
    }
    while i < lines.len()
        invariant
            i <= lines@.len(),
            all == views::strs(lines@),
            f == (|l: Seq<char>| help_line(l)),
            span::lines(r@) == all.take(i as int).map_values(f),
        decreases lines.len() - i,
    {
        r.push(build_help_line(lines[i].as_str()));
        proof {
            assert(all[i as int] == lines@[i as int]@);
            assert(all.take(i + 1).map_values(f) =~= all.take(i as int).map_values(f).push(
                f(all[i as int]),
            ));
        }
        i += 1;
    }
    proof {
        assert(all.take(i as int) =~= all);
    }
    r
}

/// The lines of the status bar: what is told, if anything, and the shortcuts.
pub open spec fn status_lines(a: AppView, width: nat) -> Seq<Seq<SpanView>> {
    let keys = shortcut_lines(shortcuts_of(a.mode), width);
    match a.notification {
        Some(text) => seq![
            seq![
                span::styled(" ▸ "@, span::bold(Color::Yellow)),
                span::styled(text, span::colored(Color::Yellow)),
            ],
        ] + keys,
        None => keys,
    }
}

/// What the keys do in a mode.
pub open spec fn shortcuts_of(mode: ModeView) -> Seq<char> {
    match mode {
        ModeView::Normal => NORMAL_KEYS@,
        ModeView::Select => SELECT_KEYS@,
        ModeView::DiffView => DIFF_KEYS@,
        ModeView::HistoryView => HISTORY_KEYS@,
        ModeView::Help => HELP_KEYS@,
        ModeView::InsertChoice => INSERT_KEYS@,
        ModeView::Confirm { prompt, action } => CONFIRM_KEYS@,
    }
}

impl App {
    /// Shortcut hints for the current mode (always shown at bottom).
    pub fn shortcuts(&self) -> (r: &'static str)
        ensures
            r@ == shortcuts_of(self@.mode),
    {
        match &self.mode {
            Mode::Normal => NORMAL_KEYS,
            Mode::Select => SELECT_KEYS,
            Mode::DiffView => DIFF_KEYS,
            Mode::HistoryView => HISTORY_KEYS,
            Mode::Help => HELP_KEYS,
            Mode::InsertChoice => INSERT_KEYS,
            Mode::Confirm { prompt, action } => CONFIRM_KEYS,
        }
    }

    /// The help screen.
    pub fn help_text(&self) -> (r: &'static str)
        ensures
            r@ == HELP_TEXT@,
    {
        HELP_TEXT
    }
}

/// The bottom status bar: notification (if any) + wrapped shortcuts. It is as high as it
/// has lines.
pub fn render_status_bar(app: &App, width: usize) -> (r: Vec<Vec<Span>>)
    ensures
        span::lines(r@) == status_lines(app@, width as nat),
{
    let mut keys = build_shortcut_lines(app.shortcuts(), width);
    let mut r: Vec<Vec<Span>> = Vec::new();
    let ghost tail = span::lines(keys@);
    if let Some(msg) = &app.notification {
        let mut line: Vec<Span> = Vec::new();
        line.push(span(" ▸ ", in_bold(Color::Yellow)));
        line.push(span(msg.as_str(), in_color(Color::Yellow)));
        let ghost text = msg@;
        proof {
            assert(span::spans(line@) =~= seq![
                span::styled(" ▸ "@, span::bold(Color::Yellow)),
                span::styled(text, span::colored(Color::Yellow)),
            ]);
        }
        r.push(line);
    }
    let ghost head = span::lines(r@);
    r.append(&mut keys);
    proof {
        assert(span::lines(r@) =~= head + tail);
        assert(span::lines(r@) =~= status_lines(app@, width as nat));
    }
    r
}

/// What fills the middle of the screen.
#[derive(Debug, Clone, Copy, PartialEq, Eq, Structural)]
pub enum Screen {
    Diff,
    History,
    Help,
    Stack,
}

/// What fills the middle of the screen in the current mode.
pub fn render(app: &App) -> (r: Screen)
    ensures
        r == match app@.mode {
            ModeView::DiffView => Screen::Diff,
            ModeView::HistoryView => Screen::History,
            ModeView::Help => Screen::Help,
            _ => Screen::Stack,
        },
{
    match &app.mode {
        Mode::DiffView => Screen::Diff,
        Mode::HistoryView => Screen::History,
        Mode::Help => Screen::Help,
        _ => Screen::Stack,
    }
}

} // verus!
