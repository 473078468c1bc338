//! What a squash makes of the text that comes back from the editor.
use vstd::prelude::*;

use crate::text::chars;
use crate::text::lines;
use crate::text::pieces;
use crate::text::search;
use crate::tui::task::squash;

verus! {

/// Whether a line is a comment.
pub open spec fn comment(line: Seq<char>) -> bool {
    line.len() > 0 && line[0] == '#'
}

/// The lines of a text that are no comments, in their order.
pub open spec fn uncommented(lines: Seq<Seq<char>>) -> Seq<Seq<char>>
    decreases lines.len(),
{
    if lines.len() == 0 {
        seq![]
    } else if comment(lines.last()) {
        uncommented(lines.drop_last())
    } else {
        uncommented(lines.drop_last()).push(lines.last())
    }
}

/// The lines that a message is made of.
proof fn lemma_kept(all: Seq<Seq<char>>)
    ensures
        all.filter(|l: Seq<char>| !"#"@.is_prefix_of(l)) == uncommented(all),
        (forall|i: int| 0 <= i < all.len() ==> !comment(#[trigger] all[i])) ==> uncommented(all)
            == all,
        forall|i: int|
            0 <= i < uncommented(all).len() ==> all.contains(#[trigger] uncommented(all)[i]),
    decreases all.len(),
{
    reveal(Seq::filter);
    reveal_strlit("#");
    let p = |l: Seq<char>| !"#"@.is_prefix_of(l);
    if all.len() > 0 {
        let most = all.drop_last();
        lemma_kept(most);
        let last = all.last();
        assert(p(last) == !comment(last)) by {
            if comment(last) {
                assert(last.subrange(0, 1) =~= "#"@);
            } else if !p(last) {
                assert(last.subrange(0, 1)[0] == '#');
            }
        }
        if forall|i: int| 0 <= i < all.len() ==> !comment(#[trigger] all[i]) {
            assert forall|i: int| 0 <= i < most.len() implies !comment(#[trigger] most[i]) by {
                assert(most[i] == all[i]);
            }
            assert(!comment(all[all.len() - 1]));
            assert(most.push(last) =~= all);
        }
        assert forall|i: int| 0 <= i < uncommented(all).len() implies all.contains(
            #[trigger] uncommented(all)[i],
        ) by {
            if i < uncommented(most).len() {
                let x = uncommented(most)[i];
                let k = choose|k: int| 0 <= k < most.len() && most[k] == x;
                assert(all[k] == x);
            } else {
                assert(all[all.len() - 1] == last);
            }
        }
    }
}

/// A text that has no line beginning with `#`, no white space around it, and lines that
/// end with a line feed alone is the message itself where there are no trailers.
pub proof fn law_text_is_message(text: Seq<char>)
    requires
        text.len() > 0,
        !chars::is_white(text[0]),
        !chars::is_white(text.last()),
        lines::plain(text),
        forall|i: int|
            0 <= i < pieces::lines(text).len() ==> !comment(#[trigger] pieces::lines(text)[i]),
    ensures
        squash::final_message(text, seq![]) == Some(text),
{
    reveal_strlit("\n");
    assert("\n"@ =~= seq!['\n']);
    lemma_kept(pieces::lines(text));
    lines::lemma_lines_joined(text);
    lines::lemma_trim_same(text);
}

/// A text whose first character is not white space says something.
proof fn lemma_says_something(s: Seq<char>)
    requires
        s.len() > 0,
        !chars::is_white(s[0]),
    ensures
        lines::sayings(s).len() > 0,
{
    pieces::lemma_line_end(s);
    let all = pieces::lines(s);
    match pieces::line_end(s) {
        Some(i) => {
            assert(all[0] == pieces::chomp(s.take(i)));
            if i == 0 {
                assert(s[0] == '\n');
            }
            if i == 1 {
                assert(s.take(i)[0] == s[0]);
            }
            assert(all[0].len() > 0 && all[0][0] == s[0]);
        },
        None => {},
    }
    lemma_trim_nonempty(all[0]);
}

/// Trimming leaves the first character where it is not white space.
proof fn lemma_trim_nonempty(s: Seq<char>)
    requires
        s.len() > 0,
        !chars::is_white(s[0]),
    ensures
        chars::trim(s).len() > 0,
    decreases s.len(),
{
    if chars::is_white(s.last()) {
        assert(s.drop_last()[0] == s[0]);
        lemma_trim_nonempty(s.drop_last());
        lines::lemma_trim_last(s);
    } else {
        lines::lemma_trim_same(s);
    }
}

/// The lines of a message are the lines of the edited text that do not begin with `#`, in
/// their order, up to white space around them and blank lines. There is no message only
/// where none of those lines says anything.
pub proof fn law_message_lines(edited: Seq<char>)
    ensures
        match squash::final_message(edited, seq![]) {
            Some(m) => {
                &&& lines::sayings(m) == lines::all_said(uncommented(pieces::lines(edited)))
                &&& !chars::is_white(m[0])
                &&& !chars::is_white(m.last())
            },
            None => lines::all_said(uncommented(pieces::lines(edited))).len() == 0,
        },
{
    reveal_strlit("\n");
    assert("\n"@ =~= seq!['\n']);
    let all = pieces::lines(edited);
    let kept = uncommented(all);
    let joined = pieces::join(kept, "\n"@);
    let m = chars::trim(joined);
    lemma_kept(all);
    lines::lemma_lines_single(edited);
    assert forall|i: int| 0 <= i < kept.len() implies lines::one_line(#[trigger] kept[i]) by {
        let k = choose|k: int| 0 <= k < all.len() && all[k] == kept[i];
        assert(lines::one_line(all[k]));
    }
    lines::lemma_says_join(kept);
    lines::lemma_says_trim(joined);
    lines::lemma_trimmed(joined);
    if m.len() == 0 {
        assert(m =~= Seq::<char>::empty());
        assert(lines::sayings(m) =~= Seq::<Seq<char>>::empty());
    }
}

/// The trailers are appended: what the text gives without them stands first, whatever the
/// trailers are.
pub proof fn law_message_first(edited: Seq<char>, trailers: Seq<Seq<char>>)
    ensures
        match (
            squash::final_message(edited, seq![]),
            squash::final_message(edited, trailers),
        ) {
            (Some(m), Some(f)) => m.len() <= f.len() && f.take(m.len() as int) == m,
            (None, None) => true,
            _ => false,
        },
{
    lemma_first(squash::without_comments(edited), trailers, trailers.len() as int);
}

proof fn lemma_first(m: Seq<char>, trailers: Seq<Seq<char>>, n: int)
    ensures
        ({
            let f = squash::with_trailers(m, trailers, n);
            m.len() <= f.len() && f.take(m.len() as int) == m
        }),
    decreases n,
{
    if n > 0 {
        lemma_first(m, trailers, n - 1);
        let b = squash::with_trailers(m, trailers, n - 1);
        let f = squash::with_trailers(m, trailers, n);
        assert(f.take(m.len() as int) =~= b.take(m.len() as int));
    } else {
        assert(m.take(m.len() as int) =~= m);
    }
}

/// One trailer more changes nothing where it occurs already, and stands after an empty line
/// at the end where it does not.
pub proof fn law_one_trailer(edited: Seq<char>, trailers: Seq<Seq<char>>, t: Seq<char>)
    ensures
        match (
            squash::final_message(edited, trailers),
            squash::final_message(edited, trailers.push(t)),
        ) {
            (Some(m), Some(f)) => if search::contains(m, t) {
                f == m
            } else {
                f == m + seq!['\n', '\n'] + t
            },
            (None, None) => true,
            _ => false,
        },
{
    reveal_strlit("\n\n");
    assert("\n\n"@ =~= seq!['\n', '\n']);
    let m = squash::without_comments(edited);
    lemma_same_trailers(m, trailers, t, trailers.len() as int);
}

proof fn lemma_same_trailers(m: Seq<char>, trailers: Seq<Seq<char>>, t: Seq<char>, n: int)
    requires
        n <= trailers.len(),
    ensures
        squash::with_trailers(m, trailers.push(t), n) == squash::with_trailers(m, trailers, n),
    decreases n,
{
    if n > 0 {
        lemma_same_trailers(m, trailers, t, n - 1);
    }
}

} // verus!
