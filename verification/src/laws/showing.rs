//! What is drawn.
use vstd::prelude::*;

use crate::stack::{PatchStatus, PatchView};
use crate::text::bytes;
use crate::text::number;
use crate::tui::app::{AppView, ModeView};
use crate::tui::run;
use crate::tui::ui;

verus! {

/// The stack is drawn with its newest commit on top, one row for each commit; the row of the
/// cursor alone has the marker, and a row shows its commit's hash, subject and number.
pub proof fn law_newest_on_top(a: AppView, k: int)
    requires
        0 <= k < a.stack.patches.len(),
        a.expanded is None,
    ensures
        ({
            let rows = ui::stack_rows(a);
            let i = a.stack.patches.len() - 1 - k;
            let e = a.stack.patches[i];
            let line = rows[k].lines[0];
            &&& rows.len() == a.stack.patches.len()
            &&& rows[k].lines.len() == 1
            &&& line[0].text == " "@ + (if i == a.cursor {
                "▶"@
            } else {
                " "@
            }) + " "@
            &&& line[2].text == (match e.status {
                PatchStatus::Clean => "●"@,
                PatchStatus::Conflict => "✗"@,
                PatchStatus::Editing => "✎"@,
                PatchStatus::Submitted => "◈"@,
                PatchStatus::Merged => "✓"@,
            }) + " "@
            &&& line[3].text == bytes::cut(e.hash, 8) + " "@
            &&& line[4].text == e.subject
            &&& e.pr_number matches Some(n) ==> line.len() == 6 && line[5].text == "  PR#"@
                + number::dec(n as nat)
            &&& e.pr_number is None && e.pr_branch is None ==> line.len() == 5
        }),
{
}

/// The rows between the anchor and the cursor are drawn as selected, both ends with them.
pub proof fn law_selection_drawn(a: AppView, anchor: usize, k: int)
    requires
        0 <= k < a.stack.patches.len(),
        a.select_anchor == Some(anchor),
    ensures
        ({
            let i = a.stack.patches.len() - 1 - k;
            ui::stack_rows(a)[k].selected == (anchor <= i <= a.cursor || a.cursor <= i <= anchor)
        }),
{
}

/// The history is drawn with its newest state on top, and the current one alone is marked.
pub proof fn law_history_drawn(a: AppView, k: int)
    requires
        0 <= k < a.history.entries.len(),
    ensures
        ({
            let i = a.history.entries.len() - 1 - k;
            let e = a.history.entries[i];
            let line = ui::history_lines(a)[k];
            &&& ui::history_lines(a).len() == a.history.entries.len()
            &&& line[0].text == " "@ + (if i == a.history.cursor {
                "→"@
            } else {
                " "@
            }) + " "@
            &&& line[2].text == e.description
            &&& line[3].text == "  ("@ + number::dec(e.snapshot.patches.len()) + " patches)"@
        }),
{
}

/// A diff is drawn from the line that it is scrolled to, in order.
pub proof fn law_diff_drawn(a: AppView, height: nat, k: int)
    requires
        a.diff_scroll <= a.diff_content.len(),
        height > 2,
        0 <= k < height - 2,
        a.diff_scroll + k < a.diff_content.len(),
    ensures
        ui::diff_lines(a, height).len() <= height - 2,
        k < ui::diff_lines(a, height).len(),
        ui::diff_lines(a, height)[k].len() == 1,
        ui::diff_lines(a, height)[k][0].text == a.diff_content[a.diff_scroll + k],
{
}

/// The header names the mode, the base and the number of commits.
pub proof fn law_header(a: AppView)
    ensures
        ui::header(a).len() >= 5,
        ui::header(a)[2].text == " "@ + (match a.mode {
            ModeView::Normal => "NORMAL"@,
            ModeView::Select => "SELECT"@,
            ModeView::DiffView => "DIFF"@,
            ModeView::HistoryView => "HISTORY"@,
            ModeView::Help => "HELP"@,
            ModeView::InsertChoice => "INSERT"@,
            ModeView::Confirm { prompt, action } => "CONFIRM"@,
        }) + " "@,
        ui::header(a)[4].text == "base: "@ + a.stack.base + " │ "@ + number::dec(
            a.stack.patches.len(),
        ) + " commits"@,
{
}

/// The question that a dialog asks is the one that the application waits on.
pub proof fn law_dialog(a: AppView)
    ensures
        a.stack.patches.len() > 0 ==> match a.mode {
            ModeView::Confirm { prompt, action } => ui::overlay(a) matches Some(d) && d.0 == prompt,
            ModeView::InsertChoice => ui::overlay(a) is Some,
            _ => ui::overlay(a) is None,
        },
        a.stack.patches.len() == 0 ==> ui::overlay(a) is None,
{
}

/// The printed status lists the commits from the oldest, which has the arrow, to the newest.
pub proof fn law_status(p: Seq<PatchView>, e: PatchView)
    ensures
        run::status_lines(p.push(e)) == run::status_lines(p) + ("  "@ + (if p.len() == 0 {
            "→"@
        } else {
            " "@
        }) + " "@ + bytes::cut(e.hash, 8) + " "@ + e.subject + "\n"@),
        run::status_lines(seq![]) == Seq::<char>::empty(),
{
    let all = p.push(e);
    assert(all.drop_last() =~= p);
    assert(all.last() == e);
}

} // verus!
