//! What the keys ask for.
use vstd::prelude::*;

use crate::forge::ForgeView;
use crate::stack::{PatchStatus, PatchView, StackView};
use crate::text::bytes;
use crate::text::pieces;
use crate::tui::app;
use crate::tui::app::{AppView, RequestView, SuspendView};
use crate::tui::input;
use crate::tui::input::{Key, KeyCode};

verus! {

/// The first seven bytes of the hash of the commit at a place of the stack.
pub open spec fn abbreviated(a: AppView, i: int) -> Seq<char> {
    bytes::cut(a.stack.patches[i].hash, 7)
}

/// Whenever a key asks for two commits to be swapped, they stand next to each other in the
/// stack, `below` is the older one and `above` the newer one, and the cursor is on the
/// commit that moves: the older one if it moves up, the newer one if it moves down.
pub proof fn law_swap_neighbours(a: AppView, key: Key)
    requires
        a.wf(),
    ensures
        match input::key_step(a, key).1 {
            RequestView::Swap { up, below, above, name } => {
                let j = if up {
                    a.cursor as int
                } else {
                    a.cursor - 1
                };
                &&& 0 <= j
                &&& j + 1 < a.stack.patches.len()
                &&& below == abbreviated(a, j)
                &&& above == abbreviated(a, j + 1)
                &&& input::key_step(a, key).0.cursor == a.cursor
                &&& input::key_step(a, key).0.stack == a.stack
            },
            _ => true,
        },
{
}

/// Moving the commit under the cursor up and moving the one above it down ask for the
/// same two commits to be swapped, in the same order.
pub proof fn law_up_is_down(a: AppView, b: AppView, up: Key, down: Key)
    requires
        a.mode is Normal,
        b.mode is Normal,
        a.stack == b.stack,
        a.cursor + 1 < a.stack.patches.len(),
        b.cursor == a.cursor + 1,
        up.ctrl && !up.alt && !up.shift,
        down.ctrl && !down.alt && !down.shift,
        up.code == KeyCode::Up || up.code == KeyCode::Char('k'),
        down.code == KeyCode::Down || down.code == KeyCode::Char('j'),
    ensures
        match (input::key_step(a, up).1, input::key_step(b, down).1) {
            (RequestView::Swap { up: u, below, above, .. }, RequestView::Swap {
                up: d,
                below: lower,
                above: higher,
                ..
            }) => u && !d && below == lower && above == higher,
            _ => false,
        },
{
}

/// Whether a key is a plain character.
pub open spec fn plain(key: Key, c: char) -> bool {
    key.code == KeyCode::Char(c) && !key.ctrl && !key.alt
}

/// Whether two states of the application differ at most in what they show: the stack, the
/// history, the forge and what is asked of the terminal are the same.
pub open spec fn same_work(a: AppView, b: AppView) -> bool {
    &&& a.stack == b.stack
    &&& a.history == b.history
    &&& a.forge == b.forge
    &&& a.wants_suspend == b.wants_suspend
    &&& a.should_quit == b.should_quit
}

/// The keys that move the cursor go one commit up or down, and stay at the ends of the stack.
/// Going up shows a newer commit.
pub proof fn law_cursor_moves(a: AppView, key: Key)
    requires
        a.wf(),
        a.stack.patches.len() <= usize::MAX,
        a.mode is Normal || a.mode is Select,
        !key.ctrl && !key.alt && !key.shift,
    ensures
        ({
            let (b, r) = input::key_step(a, key);
            let n = a.stack.patches.len();
            &&& key.code == KeyCode::Up || key.code == KeyCode::Char('k') ==> {
                &&& same_work(a, b)
                &&& r is Nothing
                &&& b.mode == a.mode
                &&& b.select_anchor == a.select_anchor
                &&& a.cursor + 1 < n ==> b.cursor == a.cursor + 1
                &&& a.cursor + 1 >= n ==> b.cursor == a.cursor
            }
            &&& key.code == KeyCode::Down || key.code == KeyCode::Char('j') ==> {
                &&& same_work(a, b)
                &&& r is Nothing
                &&& b.mode == a.mode
                &&& b.select_anchor == a.select_anchor
                &&& a.cursor > 0 ==> b.cursor == a.cursor - 1
                &&& a.cursor == 0 ==> b.cursor == 0
            }
        }),
{
}

/// `g` goes to the newest commit, `G` to the oldest.
pub proof fn law_cursor_ends(a: AppView, key: Key)
    requires
        a.wf(),
        a.stack.patches.len() <= usize::MAX,
        a.mode is Normal,
    ensures
        plain(key, 'g') && a.stack.patches.len() > 0 ==> input::key_step(a, key).0.cursor
            == a.stack.patches.len() - 1 && same_work(a, input::key_step(a, key).0),
        plain(key, 'G') ==> input::key_step(a, key).0.cursor == 0 && same_work(
            a,
            input::key_step(a, key).0,
        ),
{
}

/// Shift with an arrow begins a selection at the cursor and moves the cursor one commit.
pub proof fn law_selection_begins(a: AppView, key: Key)
    requires
        a.wf(),
        a.stack.patches.len() <= usize::MAX,
        a.mode is Normal,
        key.shift,
        a.stack.patches.len() > 1,
    ensures
        ({
            let b = input::key_step(a, key).0;
            &&& key.code == KeyCode::Up ==> {
                &&& b.mode is Select
                &&& b.select_anchor == Some(a.cursor)
                &&& a.cursor + 1 < a.stack.patches.len() ==> b.cursor == a.cursor + 1
                &&& same_work(a, b)
            }
            &&& key.code == KeyCode::Down ==> {
                &&& b.mode is Select
                &&& b.select_anchor == Some(a.cursor)
                &&& a.cursor > 0 ==> b.cursor == a.cursor - 1
                &&& same_work(a, b)
            }
        }),
{
}

/// Editing, showing, submitting and inserting are about the commit under the cursor.
pub proof fn law_about_cursor(a: AppView, key: Key)
    requires
        a.wf(),
        a.mode is Normal,
        a.stack.patches.len() > 0,
        !key.shift,
    ensures
        ({
            let (b, r) = input::key_step(a, key);
            let e = a.stack.patches[a.cursor as int];
            &&& plain(key, 'e') ==> {
                &&& b.wants_suspend == Some(
                    SuspendView::EditCommit { hash: abbreviated(a, a.cursor as int) },
                )
                &&& r is Nothing
            }
            &&& plain(key, 'd') ==> r == RequestView::Diff(e.hash)
            &&& plain(key, 'p') && e.status == PatchStatus::Submitted ==> b.wants_suspend == Some(
                SuspendView::UpdatePR { hash: e.hash, subject: e.subject, cursor_index: a.cursor },
            )
            &&& plain(key, 'p') && e.status != PatchStatus::Submitted ==> b.wants_suspend == Some(
                SuspendView::SubmitCommit {
                    hash: e.hash,
                    subject: e.subject,
                    cursor_index: a.cursor,
                },
            )
            &&& plain(key, 's') ==> b.wants_suspend == Some(SuspendView::SyncPRs)
            &&& plain(key, 'P') ==> b.wants_suspend == Some(SuspendView::PullRemote)
            &&& plain(key, 'R') ==> r is Refresh
            &&& plain(key, 'u') ==> r is Undo
            &&& key.code == KeyCode::Char('r') && key.ctrl && !key.alt ==> r is Redo
            &&& plain(key, 'q') ==> b.should_quit
            &&& b.should_quit ==> a.should_quit || plain(key, 'q')
            &&& b.stack == a.stack
            &&& b.history == a.history
            &&& b.forge == a.forge
        }),
{
}

/// Removing asks first, and then asks for the commit under the cursor to be dropped; the user
/// who says no has nothing done.
pub proof fn law_remove_asks(a: AppView, x: Key, y: Key)
    requires
        a.wf(),
        a.mode is Normal,
        a.stack.patches.len() > 0,
        plain(x, 'x') && !x.shift,
    ensures
        ({
            let (b, first) = input::key_step(a, x);
            let (c, then) = input::key_step(b, y);
            let e = a.stack.patches[a.cursor as int];
            &&& first is Nothing
            &&& b.mode is Confirm
            &&& same_work(a, b)
            &&& y.code == KeyCode::Char('y') || y.code == KeyCode::Enter ==> then
                == RequestView::Remove {
                hash: abbreviated(a, a.cursor as int),
                subject: e.subject,
            } && c.mode is Normal
            &&& y.code == KeyCode::Char('n') || y.code == KeyCode::Esc ==> then is Nothing
                && c.mode is Normal && c.notification == Some("Cancelled."@) && same_work(a, c)
            &&& c.stack == a.stack
        }),
{
}

/// Rebasing asks first.
pub proof fn law_rebase_asks(a: AppView, r: Key, y: Key)
    requires
        a.wf(),
        a.mode is Normal,
        plain(r, 'r') && !r.shift,
    ensures
        ({
            let (b, first) = input::key_step(a, r);
            let (c, then) = input::key_step(b, y);
            &&& first is Nothing
            &&& b.mode is Confirm
            &&& same_work(a, b)
            &&& y.code == KeyCode::Char('y') || y.code == KeyCode::Enter ==> c.wants_suspend
                == Some(SuspendView::Rebase)
            &&& y.code == KeyCode::Char('n') || y.code == KeyCode::Esc ==> same_work(a, c)
                && c.notification == Some("Cancelled."@)
            &&& then is Nothing
        }),
{
}

/// Inserting asks where: after the commit under the cursor, unless it is the newest, or at the
/// top.
pub proof fn law_insert_asks(a: AppView, i: Key, at: Key)
    requires
        a.wf(),
        a.mode is Normal,
        plain(i, 'i') && !i.shift,
    ensures
        ({
            let b = input::key_step(a, i).0;
            let c = input::key_step(b, at).0;
            &&& same_work(a, b)
            &&& at.code == KeyCode::Char('t') ==> c.wants_suspend == Some(SuspendView::InsertAtHead)
            &&& at.code == KeyCode::Char('a') && a.cursor + 1 < a.stack.patches.len()
                ==> c.wants_suspend == Some(
                SuspendView::InsertAfterCursor { hash: abbreviated(a, a.cursor as int) },
            )
            &&& at.code == KeyCode::Char('a') && a.cursor + 1 >= a.stack.patches.len()
                ==> c.wants_suspend == Some(SuspendView::InsertAtHead)
            &&& at.code == KeyCode::Esc || at.code == KeyCode::Char('q') ==> same_work(a, c)
                && c.mode is Normal
        }),
{
}

/// Squashing a selection asks first, and then takes up the selected commits from the oldest to
/// the newest, whichever end the selection began at: their hashes, and their subjects one to a
/// line.
pub proof fn law_squash_asks(a: AppView, anchor: usize, s: Key, y: Key)
    requires
        a.wf(),
        a.mode is Select,
        a.select_anchor == Some(anchor),
        anchor != a.cursor,
        s.code == KeyCode::Char('s'),
        y.code == KeyCode::Char('y') || y.code == KeyCode::Enter,
    ensures
        ({
            let b = input::key_step(a, s).0;
            let c = input::key_step(b, y).0;
            let lo = if anchor < a.cursor {
                anchor as int
            } else {
                a.cursor as int
            };
            let hi = if anchor < a.cursor {
                a.cursor as int
            } else {
                anchor as int
            };
            &&& b.mode is Confirm
            &&& same_work(a, b)
            &&& c.mode is Normal
            &&& c.select_anchor is None
            &&& c.stack == a.stack
            &&& match c.wants_suspend {
                Some(SuspendView::SquashCommits { hashes, default_body, trailers }) => {
                    &&& hashes.len() == hi - lo + 1
                    &&& forall|k: int|
                        0 <= k <= hi - lo ==> #[trigger] hashes[k] == abbreviated(a, lo + k)
                    &&& default_body == one_to_a_line(a.stack.patches, lo, hi)
                },
                _ => false,
            }
        }),
{
    reveal_strlit("\n");
    assert("\n"@ =~= seq!['\n']);
    let lo = if anchor < a.cursor {
        anchor as int
    } else {
        a.cursor as int
    };
    let hi = if anchor < a.cursor {
        a.cursor as int
    } else {
        anchor as int
    };
    lemma_subjects(a.stack.patches, lo, hi);
}

/// The subjects of commits, one to a line.
pub open spec fn one_to_a_line(p: Seq<PatchView>, lo: int, hi: int) -> Seq<char>
    decreases hi - lo,
{
    if hi <= lo {
        p[lo].subject
    } else {
        one_to_a_line(p, lo, hi - 1) + seq!['\n'] + p[hi].subject
    }
}

proof fn lemma_subjects(p: Seq<PatchView>, lo: int, hi: int)
    requires
        lo <= hi,
    ensures
        pieces::join(app::subjects(p, lo, hi), seq!['\n']) == one_to_a_line(p, lo, hi),
    decreases hi - lo,
{
    let all = app::subjects(p, lo, hi);
    if lo < hi {
        lemma_subjects(p, lo, hi - 1);
        assert(all.drop_last() =~= app::subjects(p, lo, hi - 1));
        assert(all.last() == p[hi].subject);
    } else {
        assert(all.len() == 1);
        assert(all[0] == p[lo].subject);
    }
}

/// A trailer that a selected commit has goes into the squash.
pub proof fn law_squash_trailers(a: AppView, lo: int, hi: int, i: int, t: Seq<char>)
    requires
        lo <= i <= hi,
        a.forge.trailers(a.stack.patches[i].body).contains(t),
    ensures
        app::dedup(app::all_trailers(a.forge, a.stack.patches, lo, hi + 1)).contains(t),
{
    lemma_trailers(a, lo, hi + 1, i, t);
    lemma_dedup(app::all_trailers(a.forge, a.stack.patches, lo, hi + 1), t);
}

proof fn lemma_trailers(a: AppView, lo: int, hi: int, i: int, t: Seq<char>)
    requires
        lo <= i < hi,
        a.forge.trailers(a.stack.patches[i].body).contains(t),
    ensures
        app::all_trailers(a.forge, a.stack.patches, lo, hi).contains(t),
    decreases hi - lo,
{
    let before = app::all_trailers(a.forge, a.stack.patches, lo, hi - 1);
    let last = a.forge.trailers(a.stack.patches[hi - 1].body);
    let all = app::all_trailers(a.forge, a.stack.patches, lo, hi);
    assert(all == before + last);
    if i < hi - 1 {
        lemma_trailers(a, lo, hi - 1, i, t);
        let k = choose|k: int| 0 <= k < before.len() && before[k] == t;
        assert(all[k] == t);
    } else {
        let k = choose|k: int| 0 <= k < last.len() && last[k] == t;
        assert(all[before.len() + k] == t);
    }
}

proof fn lemma_dedup(s: Seq<Seq<char>>, t: Seq<char>)
    requires
        s.contains(t),
    ensures
        app::dedup(s).contains(t),
    decreases s.len(),
{
    if s.len() > 1 {
        let most = s.drop_last();
        let k = choose|k: int| 0 <= k < s.len() && s[k] == t;
        if k < most.len() {
            assert(most[k] == t);
            lemma_dedup(most, t);
            let m = choose|m: int| 0 <= m < app::dedup(most).len() && app::dedup(most)[m] == t;
            if s.last() != s[s.len() - 2] {
                assert(app::dedup(s)[m] == t);
            }
        } else if s.last() == s[s.len() - 2] {
            assert(most[most.len() - 1] == t);
            lemma_dedup(most, t);
        } else {
            assert(app::dedup(s)[app::dedup(most).len() as int] == t);
        }
    }
}

/// In a diff the keys scroll by a line, or by half a page with control, and never past its
/// ends; leaving it goes back to the stack.
pub proof fn law_diff_scrolls(a: AppView, key: Key)
    requires
        a.wf(),
        a.diff_content.len() <= usize::MAX,
        a.mode is DiffView,
    ensures
        ({
            let (b, r) = input::key_step(a, key);
            let down = key.code == KeyCode::Down || key.code == KeyCode::Char('j');
            let up = key.code == KeyCode::Up || key.code == KeyCode::Char('k');
            let by: int = if key.ctrl {
                20
            } else {
                1
            };
            &&& r is Nothing
            &&& same_work(a, b)
            &&& down && a.diff_scroll + by < a.diff_content.len() ==> b.diff_scroll
                == a.diff_scroll + by
            &&& down && a.diff_scroll < a.diff_content.len() && a.diff_scroll + by
                >= a.diff_content.len() ==> b.diff_scroll == a.diff_content.len() - 1
            &&& up && a.diff_scroll >= by ==> b.diff_scroll == a.diff_scroll - by
            &&& up && a.diff_scroll < by ==> b.diff_scroll == 0
            &&& (key.code == KeyCode::Char('q') || key.code == KeyCode::Esc) && !key.ctrl ==> b.mode
                is Normal
        }),
{
}

/// The application starts with the cursor on the newest commit and with that one state in its
/// history, in which nothing can be undone.
pub proof fn law_starts(
    stack: StackView,
    forge: ForgeView,
    head: Seq<char>,
    now: i64,
)
    requires
        stack.patches.len() <= usize::MAX,
    ensures
        ({
            let a = AppView::initial(stack, forge, head, now);
            &&& a.wf()
            &&& a.stack == stack
            &&& a.forge == forge
            &&& stack.patches.len() > 0 ==> a.cursor == stack.patches.len() - 1
            &&& a.mode is Normal
            &&& !a.should_quit
            &&& a.wants_suspend is None
            &&& a.history.entries.len() == 1
            &&& a.history.cursor == 0
            &&& a.history.entries[0].snapshot == stack
            &&& a.history.entries[0].head_hash == head
            &&& a.history.max_entries == 500
        }),
{
}

/// Enter and the space bar open the details of the commit under the cursor, and close them if
/// they are open.
pub proof fn law_toggles(a: AppView, key: Key)
    requires
        a.mode is Normal,
        !key.ctrl && !key.alt,
        key.code == KeyCode::Enter || key.code == KeyCode::Char(' '),
    ensures
        ({
            let (b, r) = input::key_step(a, key);
            &&& r is Nothing
            &&& same_work(a, b)
            &&& b.cursor == a.cursor
            &&& a.expanded == Some(a.cursor) ==> b.expanded is None
            &&& a.expanded != Some(a.cursor) ==> b.expanded == Some(a.cursor)
            &&& input::key_step(b, key).0.expanded == (if a.expanded == Some(a.cursor) {
                Some(a.cursor)
            } else {
                None
            })
        }),
{
}

/// The keys that open a view, and those that leave it again.
pub proof fn law_views(a: AppView, open: Key, leave: Key)
    requires
        a.mode is Normal,
        !open.ctrl && !open.alt && !open.shift,
        leave.code == KeyCode::Esc || leave.code == KeyCode::Char('q'),
    ensures
        ({
            let b = input::key_step(a, open).0;
            let c = input::key_step(b, leave).0;
            &&& plain(open, 'h') ==> b.mode is HistoryView && c.mode is Normal && same_work(a, c)
            &&& plain(open, '?') ==> b.mode is Help && c.mode is Normal && same_work(a, c)
            &&& plain(open, 'i') ==> b.mode is InsertChoice && c.mode is Normal && same_work(a, c)
            &&& plain(open, 'V') ==> b.mode is Select && b.select_anchor == Some(a.cursor) && c.mode
                is Normal && c.select_anchor is None && same_work(a, c)
        }),
{
}

} // verus!
