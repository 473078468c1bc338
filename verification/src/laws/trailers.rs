//! What is read off the lines of messages and reports.
use vstd::prelude::*;

use crate::forge::phabricator::message;
use crate::forge::review;
use crate::text::chars;
use crate::text::pieces;
use crate::tui::task::sync;

verus! {

/// The revision of a message is that of the first line that names one.
pub proof fn law_first_revision(lines: Seq<Seq<char>>, k: int)
    requires
        0 <= k < lines.len(),
        message::line_revision(lines[k]) is Some,
        forall|m: int| 0 <= m < k ==> message::line_revision(#[trigger] lines[m]) is None,
    ensures
        message::lines_revision(lines) == message::line_revision(lines[k]),
    decreases lines.len(),
{
    if k > 0 {
        assert(message::line_revision(lines[0]) is None);
        let rest = lines.drop_first();
        assert forall|m: int| 0 <= m < k - 1 implies message::line_revision(
            #[trigger] rest[m],
        ) is None by {
            assert(rest[m] == lines[m + 1]);
        }
        law_first_revision(rest, k - 1);
    }
}

/// A message none of whose lines names a revision has none.
pub proof fn law_no_revision(lines: Seq<Seq<char>>)
    requires
        forall|m: int| 0 <= m < lines.len() ==> message::line_revision(#[trigger] lines[m]) is None,
    ensures
        message::lines_revision(lines) is None,
    decreases lines.len(),
{
    if lines.len() > 0 {
        assert(message::line_revision(lines[0]) is None);
        let rest = lines.drop_first();
        assert forall|m: int| 0 <= m < rest.len() implies message::line_revision(
            #[trigger] rest[m],
        ) is None by {
            assert(rest[m] == lines[m + 1]);
        }
        law_no_revision(rest);
    }
}

/// Only a line that begins with the trailer's name, after white space, names a revision.
pub proof fn law_trailer_line(line: Seq<char>)
    ensures
        message::line_revision(line) is Some ==> "Differential Revision:"@.is_prefix_of(
            chars::trim(line),
        ),
{
}

/// The dependency that a message states is that of the first line that states one.
pub proof fn law_first_dependency(lines: Seq<Seq<char>>, k: int)
    requires
        0 <= k < lines.len(),
        "Depends on D"@.is_prefix_of(chars::trim(lines[k])),
        forall|m: int|
            0 <= m < k ==> !"Depends on D"@.is_prefix_of(chars::trim(#[trigger] lines[m])),
    ensures
        message::stated_lines(lines) == message::line_dependency(lines[k]),
    decreases lines.len(),
{
    if k > 0 {
        assert(!"Depends on D"@.is_prefix_of(chars::trim(lines[0])));
        let rest = lines.drop_first();
        assert forall|m: int| 0 <= m < k - 1 implies !"Depends on D"@.is_prefix_of(
            chars::trim(#[trigger] rest[m]),
        ) by {
            assert(rest[m] == lines[m + 1]);
        }
        law_first_dependency(rest, k - 1);
    }
}

/// Whether a message has a trailer with this value.
pub open spec fn has_trailer(text: Seq<char>, value: Seq<char>) -> bool {
    exists|i: int|
        0 <= i < pieces::lines(text).len() && trails(#[trigger] pieces::lines(text)[i], value)
}

/// Whether a line is a trailer with this value.
pub open spec fn trails(line: Seq<char>, value: Seq<char>) -> bool {
    "Differential Revision:"@.is_prefix_of(chars::trim(line)) && chars::trim(
        chars::trim(line).skip("Differential Revision:"@.len() as int),
    ) == value
}

/// What a filter leaves is what was there and passes it.
proof fn lemma_filtered(s: Seq<Seq<char>>, p: spec_fn(Seq<char>) -> bool, x: Seq<char>)
    ensures
        s.filter(p).contains(x) <==> s.contains(x) && p(x),
    decreases s.len(),
{
    reveal(Seq::filter);
    if s.len() > 0 {
        let most = s.drop_last();
        let kept = most.filter(p);
        let all = s.filter(p);
        lemma_filtered(most, p, x);
        if all.contains(x) {
            let k = choose|k: int| 0 <= k < all.len() && all[k] == x;
            if k < kept.len() {
                assert(kept[k] == x);
                let i = choose|i: int| 0 <= i < most.len() && most[i] == x;
                assert(s[i] == x);
            } else {
                assert(s[s.len() - 1] == x);
            }
        }
        if s.contains(x) && p(x) {
            let i = choose|i: int| 0 <= i < s.len() && s[i] == x;
            if i < most.len() {
                assert(most[i] == x);
                let k = choose|k: int| 0 <= k < kept.len() && kept[k] == x;
                assert(all[k] == x);
            } else {
                assert(all[all.len() - 1] == x);
            }
        }
    }
}

proof fn lemma_values(text: Seq<char>, value: Seq<char>)
    ensures
        message::trailer_values(text).contains(value) <==> has_trailer(text, value),
{
    let all = pieces::lines(text);
    let p = |l: Seq<char>| message::is_trailer(l);
    let kept = all.filter(p);
    let values = message::trailer_values(text);
    assert(values.len() == kept.len());
    if values.contains(value) {
        let k = choose|k: int| 0 <= k < values.len() && values[k] == value;
        assert(kept.contains(kept[k]));
        lemma_filtered(all, p, kept[k]);
        let i = choose|i: int| 0 <= i < all.len() && all[i] == kept[k];
        assert(trails(all[i], value));
    }
    if has_trailer(text, value) {
        let i = choose|i: int| 0 <= i < all.len() && trails(#[trigger] all[i], value);
        assert(all.contains(all[i]));
        lemma_filtered(all, p, all[i]);
        let k = choose|k: int| 0 <= k < kept.len() && kept[k] == all[i];
        assert(values[k] == value);
    }
}

/// Two messages belong to the same revision if and only if both have a trailer with the same
/// value.
pub proof fn law_shared(a: Seq<char>, b: Seq<char>)
    ensures
        message::share_trailer(a, b) <==> exists|v: Seq<char>| #[trigger]
            has_trailer(a, v) && has_trailer(b, v),
{
    if message::share_trailer(a, b) {
        let v = choose|v: Seq<char>| #[trigger]
            message::trailer_values(a).contains(v) && message::trailer_values(b).contains(v);
        lemma_values(a, v);
        lemma_values(b, v);
        assert(has_trailer(a, v));
    }
    if exists|v: Seq<char>| #[trigger] has_trailer(a, v) && has_trailer(b, v) {
        let v = choose|v: Seq<char>| #[trigger] has_trailer(a, v) && has_trailer(b, v);
        lemma_values(a, v);
        lemma_values(b, v);
        assert(message::trailer_values(a).contains(v));
    }
}

/// A line about a review is ready to merge if its base was set to the stack's own, and not if it
/// failed.
pub proof fn law_ready(branch: Seq<char>, base: Seq<char>)
    ensures
        sync::is_ready(review::update_line(true, branch, base), base),
        !sync::is_ready(review::update_line(false, branch, base), base),
{
    reveal_strlit("✓");
    reveal_strlit("⚠");
    reveal_strlit(" → ");
    reveal_strlit("→ ");
    reveal_strlit(" ");
    let good = review::update_line(true, branch, base);
    let bad = review::update_line(false, branch, base);
    assert(good.subrange(0, 1) =~= "✓"@);
    let end = "→ "@ + base;
    assert(good.subrange(good.len() - end.len(), good.len() as int) =~= end);
    if "✓"@.is_prefix_of(bad) {
        assert(bad.subrange(0, 1)[0] == '✓');
    }
}

/// Nothing is ready that does not end with the base of the stack.
pub proof fn law_ready_base(line: Seq<char>, base: Seq<char>)
    ensures
        sync::is_ready(line, base) ==> {
            let end = "→ "@ + base;
            &&& line.len() >= end.len()
            &&& line.skip(line.len() - end.len()) == end
        },
{
    let end = "→ "@ + base;
    if sync::is_ready(line, base) {
        assert(line.skip(line.len() - end.len()) =~= line.subrange(
            line.len() - end.len(),
            line.len() as int,
        ));
    }
}

} // verus!
