//! Text for the terminal.
use vstd::prelude::*;

use crate::text::ansi;
use crate::text::ansi::strip_ansi_len;
use crate::text::chars::{concat3, concat4, concat5, same};
use crate::text::views;

verus! {

broadcast use views::group_views;

/// Clears the screen.
pub const CLEAR: &'static str = "\x1b[2J\x1b[H";

/// Asks for Enter.
pub const PRESS_ENTER: &'static str = "\n  Press \x1b[1;32mEnter\x1b[0m to return.\n";

/// A character, `n` times.
pub open spec fn times(c: char, n: int) -> Seq<char> {
    Seq::new(
        if n > 0 {
            n as nat
        } else {
            0
        },
        |i: int| c,
    )
}

/// A character, `n` times.
pub fn repeated(c: char, n: usize) -> (r: String)
    ensures
        r@ == times(c, n as int),
{
    let mut s = String::new();
    let mut i: usize = 0;
    proof {
        assert(s@ =~= times(c, 0));
    }
    while i < n
        invariant
            i <= n,
            s@ == times(c, i as int),
        decreases n - i,
    {
        s.push(c);
        i += 1;
        proof {
            assert(s@ =~= times(c, i as int));
        }
    }
    s
}

/// How many characters of a text are seen.
pub open spec fn visible(s: Seq<char>) -> int {
    ansi::plain(s, false).len() as int
}

/// The top of a box.
pub open spec fn box_top(color: Seq<char>, title: Seq<char>) -> Seq<char> {
    let part = "─ "@ + title + " "@;
    "\n\x1b[1;"@ + color + "m┌"@ + part + times('─', 60 - visible(part)) + "┐\x1b[0m\n"@
}

/// A line of a box.
pub open spec fn box_line(color: Seq<char>, line: Seq<char>) -> Seq<char> {
    "\x1b[1;"@ + color + "m│\x1b[0m  "@ + line + times(' ', 57 - visible(line)) + " \x1b[1;"@
        + color + "m│\x1b[0m\n"@
}

/// The lines of a box.
pub open spec fn box_lines(color: Seq<char>, lines: Seq<Seq<char>>) -> Seq<char>
    decreases lines.len(),
{
    if lines.len() == 0 {
        seq![]
    } else {
        box_lines(color, lines.drop_last()) + box_line(color, lines.last())
    }
}

/// A box, 62 characters wide, around a title and lines; escape codes take no room.
pub open spec fn box_text(color: Seq<char>, title: Seq<char>, lines: Seq<Seq<char>>) -> Seq<char> {
    box_top(color, title) + box_lines(color, lines) + ("\x1b[1;"@ + color + "m└"@ + times('─', 60)
        + "┘\x1b[0m\n\n"@)
}

/// What is left of `n` once `m` is taken off.
fn rest(n: usize, m: usize) -> (r: usize)
    ensures
        r == if n > m {
            n - m
        } else {
            0
        },
{
    if n > m {
        n - m
    } else {
        0
    }
}

/// A line of a box.
fn boxed_line(color: &str, line: &str) -> (r: String)
    ensures
        r@ == box_line(color@, line@),
{
    let pad = repeated(' ', rest(57, strip_ansi_len(line)));
    proof {
        assert(pad@ =~= times(' ', 57 - visible(line@)));
    }
    let mut s = concat5("\x1b[1;", color, "m│\x1b[0m  ", line, pad.as_str());
    s.append(" \x1b[1;");
    s.append(color);
    s.append("m│\x1b[0m\n");
    s
}

/// A box around a title and lines.
pub fn print_box(color: &str, title: &str, lines: &Vec<String>) -> (r: String)
    ensures
        r@ == box_text(color@, title@, views::strs(lines@)),
{
    let part = concat3("─ ", title, " ");
    let fill = repeated('─', rest(60, strip_ansi_len(part.as_str())));
    proof {
        assert(fill@ =~= times('─', 60 - visible(part@)));
    }
    let mut top = concat5("\n\x1b[1;", color, "m┌", part.as_str(), fill.as_str());
    top.append("┐\x1b[0m\n");
    let ghost all = views::strs(lines@);
    let mut body = String::new();
    let mut i: usize = 0;
    proof {
        assert(all.take(0) =~= Seq::<Seq<char>>::empty());
        assert(body@ =~= box_lines(color@, all.take(0)));
    }
    while i < lines.len()
        invariant
            i <= lines@.len(),
            all == views::strs(lines@),
            body@ == box_lines(color@, all.take(i as int)),
        decreases lines.len() - i,
    {
        proof {
            assert(all.take(i + 1).drop_last() =~= all.take(i as int));
            assert(all.take(i + 1).last() == lines@[i as int]@);
        }
        let line = boxed_line(color, lines[i].as_str());
        body.append(line.as_str());
        i += 1;
    }
    proof {
        assert(all.take(i as int) =~= all);
    }
    let bottom = repeated('─', 60);
    let end = concat5("\x1b[1;", color, "m└", bottom.as_str(), "┘\x1b[0m\n\n");
    concat3(top.as_str(), body.as_str(), end.as_str())
}

/// The program that edits texts: `EDITOR`, or else `VISUAL`, or else `nano`.
pub fn get_editor(editor: Option<String>, visual: Option<String>) -> (r: String)
    ensures
        r@ == match views::opt(editor) {
            Some(e) => e,
            None => match views::opt(visual) {
                Some(v) => v,
                None => "nano"@,
            },
        },
{
    match editor {
        Some(e) => e,
        None => match visual {
            Some(v) => v,
            None => "nano".to_owned(),
        },
    }
}

/// How progress is shown.
pub fn progress_line(text: &str) -> (r: String)
    ensures
        r@ == "    \x1b[33m"@ + text@ + "\x1b[0m"@,
{
    concat3("    \x1b[33m", text, "\x1b[0m")
}

/// A heading.
pub open spec fn heading(text: Seq<char>) -> Seq<char> {
    "\n  \x1b[1;36m▸ "@ + text + "\x1b[0m\n\n"@
}

/// A heading.
pub fn heading_text(text: &str) -> (r: String)
    ensures
        r@ == heading(text@),
{
    concat3("\n  \x1b[1;36m▸ ", text, "\x1b[0m\n\n")
}

/// A line in green, with a tick.
pub open spec fn good_line(text: Seq<char>) -> Seq<char> {
    "  \x1b[32m✓ "@ + text + "\x1b[0m\n"@
}

/// A line in green, with a tick.
pub fn good_text(text: &str) -> (r: String)
    ensures
        r@ == good_line(text@),
{
    concat3("  \x1b[32m✓ ", text, "\x1b[0m\n")
}

/// A line in red, with a cross, about what failed and why.
pub open spec fn bad_line(what: Seq<char>, why: Seq<char>) -> Seq<char> {
    "  \x1b[31m✗ "@ + what + why + "\x1b[0m\n"@
}

/// A line in red, with a cross, about what failed and why.
pub fn bad_text(what: &str, why: &str) -> (r: String)
    ensures
        r@ == bad_line(what@, why@),
{
    concat4("  \x1b[31m✗ ", what, why, "\x1b[0m\n")
}

/// A line in yellow, indented.
pub open spec fn yellow_line(text: Seq<char>) -> Seq<char> {
    "    \x1b[33m"@ + text + "\x1b[0m\n"@
}

/// A line in yellow, indented.
pub fn yellow_text(text: &str) -> (r: String)
    ensures
        r@ == yellow_line(text@),
{
    concat3("    \x1b[33m", text, "\x1b[0m\n")
}

/// Texts, each between a prefix and a suffix.
pub open spec fn each(prefix: Seq<char>, items: Seq<Seq<char>>, suffix: Seq<char>) -> Seq<char>
    decreases items.len(),
{
    if items.len() == 0 {
        seq![]
    } else {
        each(prefix, items.drop_last(), suffix) + (prefix + items.last() + suffix)
    }
}

/// Texts, each between a prefix and a suffix.
pub fn each_text(prefix: &str, items: &Vec<String>, suffix: &str) -> (r: String)
    ensures
        r@ == each(prefix@, views::strs(items@), suffix@),
{
    let ghost all = views::strs(items@);
    let mut r = String::new();
    let mut i: usize = 0;
    proof {
        assert(all.take(0) =~= Seq::<Seq<char>>::empty());
        assert(r@ =~= each(prefix@, all.take(0), suffix@));
    }
    while i < items.len()
        invariant
            i <= items@.len(),
            all == views::strs(items@),
            r@ == each(prefix@, all.take(i as int), suffix@),
        decreases items.len() - i,
    {
        proof {
            assert(all.take(i + 1).drop_last() =~= all.take(i as int));
            assert(all.take(i + 1).last() == items@[i as int]@);
        }
        let line = concat3(prefix, items[i].as_str(), suffix);
        r.append(line.as_str());
        i += 1;
    }
    proof {
        assert(all.take(i as int) =~= all);
    }
    r
}

/// What is said of each pair, in yellow.
pub open spec fn second_of(v: Seq<(Seq<char>, Seq<char>)>) -> Seq<Seq<char>> {
    v.map_values(|e: (Seq<char>, Seq<char>)| e.1)
}

/// The first of each pair.
pub open spec fn first_of(v: Seq<(Seq<char>, Seq<char>)>) -> Seq<Seq<char>> {
    v.map_values(|e: (Seq<char>, Seq<char>)| e.0)
}

/// The second of each pair.
pub fn seconds(v: &Vec<(String, String)>) -> (r: Vec<String>)
    ensures
        views::strs(r@) == second_of(views::pairs(v@)),
{
    let ghost all = second_of(views::pairs(v@));
    let mut r: Vec<String> = Vec::new();
    let mut i: usize = 0;
    while i < v.len()
        invariant
            i <= v@.len() == all.len(),
            all == second_of(views::pairs(v@)),
            views::strs(r@) == all.take(i as int),
        decreases v.len() - i,
    {
        r.push(v[i].1.clone());
        proof {
            assert(all.take(i + 1) =~= all.take(i as int).push(all[i as int]));
        }
        i += 1;
    }
    proof {
        assert(all.take(i as int) =~= all);
    }
    r
}

/// The first of each pair.
pub fn firsts(v: &Vec<(String, String)>) -> (r: Vec<String>)
    ensures
        views::strs(r@) == first_of(views::pairs(v@)),
{
    let ghost all = first_of(views::pairs(v@));
    let mut r: Vec<String> = Vec::new();
    let mut i: usize = 0;
    while i < v.len()
        invariant
            i <= v@.len() == all.len(),
            all == first_of(views::pairs(v@)),
            views::strs(r@) == all.take(i as int),
        decreases v.len() - i,
    {
        r.push(v[i].0.clone());
        proof {
            assert(all.take(i + 1) =~= all.take(i as int).push(all[i as int]));
        }
        i += 1;
    }
    proof {
        assert(all.take(i as int) =~= all);
    }
    r
}

/// Whether a text is among texts.
pub fn among(v: &Vec<String>, s: &str) -> (r: bool)
    ensures
        r == views::strs(v@).contains(s@),
{
    let ghost all = views::strs(v@);
    let mut i: usize = 0;
    while i < v.len()
        invariant
            i <= v@.len(),
            all == views::strs(v@),
            forall|j: int| 0 <= j < i ==> #[trigger] all[j] != s@,
        decreases v.len() - i,
    {
        proof {
            assert(all[i as int] == v@[i as int]@);
        }
        if same(v[i].as_str(), s) {
            proof {
                assert(views::strs(v@)[i as int] == s@);
            }
            return true;
        }
        i += 1;
    }
    false
}

} // verus!
