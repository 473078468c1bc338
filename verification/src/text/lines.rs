//! What a text says, line by line, whatever white space stands around its lines.
use vstd::prelude::*;

use super::chars;
use super::pieces;

verus! {

/// A line without white space around it, unless nothing else is there.
pub open spec fn said(line: Seq<char>) -> Seq<Seq<char>> {
    if chars::trim(line).len() > 0 {
        seq![chars::trim(line)]
    } else {
        seq![]
    }
}

/// The lines that are not blank, each without white space around it.
pub open spec fn all_said(lines: Seq<Seq<char>>) -> Seq<Seq<char>>
    decreases lines.len(),
{
    if lines.len() == 0 {
        seq![]
    } else {
        said(lines[0]) + all_said(lines.drop_first())
    }
}

/// The lines of a text that are not blank, each without white space around it.
pub open spec fn sayings(s: Seq<char>) -> Seq<Seq<char>> {
    all_said(pieces::lines(s))
}

/// Whether a text is without line feeds.
pub open spec fn one_line(s: Seq<char>) -> bool {
    forall|i: int| 0 <= i < s.len() ==> #[trigger] s[i] != '\n'
}

/// A leading character of white space does not matter to what trimming leaves.
pub proof fn lemma_trim_first(s: Seq<char>)
    requires
        s.len() > 0,
        chars::is_white(s[0]),
    ensures
        chars::trim(s.drop_first()) == chars::trim(s),
{
}

/// Nor does a trailing one.
pub proof fn lemma_trim_last(s: Seq<char>)
    requires
        s.len() > 0,
        chars::is_white(s.last()),
    ensures
        chars::trim(s.drop_last()) == chars::trim(s),
    decreases s.len(),
{
    let white = chars::CharSet::White;
    if chars::is_white(s[0]) {
        if s.len() == 1 {
            assert(s.drop_last() =~= Seq::<char>::empty());
            assert(s.drop_first() =~= Seq::<char>::empty());
        } else {
            assert(s.drop_first().last() == s.last());
            assert(s.drop_last().drop_first() =~= s.drop_first().drop_last());
            lemma_trim_last(s.drop_first());
            lemma_trim_first(s);
            assert(s.drop_last()[0] == s[0]);
            lemma_trim_first(s.drop_last());
        }
    } else {
        assert(s.drop_last()[0] == s[0]);
        assert(chars::trim_start_set(s, white) == s);
        assert(chars::trim_start_set(s.drop_last(), white) == s.drop_last());
    }
}

/// A text that neither begins nor ends with white space is left as it is.
pub proof fn lemma_trim_same(s: Seq<char>)
    requires
        s.len() > 0 ==> !chars::is_white(s[0]) && !chars::is_white(s.last()),
    ensures
        chars::trim(s) == s,
{
    let white = chars::CharSet::White;
    assert(chars::trim_start_set(s, white) == s);
    assert(chars::trim_end_set(s, white) == s);
}

/// What trimming the end leaves begins as the text does, and does not end with white
/// space.
proof fn lemma_trim_end(s: Seq<char>)
    ensures
        ({
            let t = chars::trim_end_set(s, chars::CharSet::White);
            &&& t.len() <= s.len()
            &&& t.len() > 0 ==> t[0] == s[0] && !chars::is_white(t.last())
        }),
    decreases s.len(),
{
    if s.len() > 0 && chars::is_white(s.last()) {
        lemma_trim_end(s.drop_last());
    }
}

/// What trimming the start leaves does not begin with white space.
proof fn lemma_trim_start(s: Seq<char>)
    ensures
        ({
            let t = chars::trim_start_set(s, chars::CharSet::White);
            t.len() > 0 ==> !chars::is_white(t[0])
        }),
    decreases s.len(),
{
    if s.len() > 0 && chars::is_white(s[0]) {
        lemma_trim_start(s.drop_first());
    }
}

/// What trimming leaves neither begins nor ends with white space.
pub proof fn lemma_trimmed(s: Seq<char>)
    ensures
        chars::trim(s).len() > 0 ==> !chars::is_white(chars::trim(s)[0]) && !chars::is_white(
            chars::trim(s).last(),
        ),
        chars::trim(chars::trim(s)) == chars::trim(s),
{
    lemma_trim_start(s);
    lemma_trim_end(chars::trim_start_set(s, chars::CharSet::White));
    lemma_trim_same(chars::trim(s));
}

/// A carriage return at the end of a line does not matter to what it says.
proof fn lemma_chomp(s: Seq<char>)
    ensures
        chars::trim(pieces::chomp(s)) == chars::trim(s),
{
    if s.len() > 0 && s.last() == '\r' {
        lemma_trim_last(s);
    }
}

/// Nothing says nothing.
proof fn lemma_nothing()
    ensures
        said(seq![]) == Seq::<Seq<char>>::empty(),
        sayings(seq![]) == Seq::<Seq<char>>::empty(),
{
    assert(chars::trim(seq![]) =~= Seq::<char>::empty());
    assert(pieces::lines(seq![]) =~= Seq::<Seq<char>>::empty());
}

/// One line first, and then others.
proof fn lemma_said_first(line: Seq<char>, lines: Seq<Seq<char>>)
    ensures
        all_said(seq![line] + lines) == said(line) + all_said(lines),
{
    let all = seq![line] + lines;
    assert(all[0] == line);
    assert(all.drop_first() =~= lines);
}

/// Some lines first, and then others.
pub proof fn lemma_said_both(a: Seq<Seq<char>>, b: Seq<Seq<char>>)
    ensures
        all_said(a + b) == all_said(a) + all_said(b),
    decreases a.len(),
{
    if a.len() == 0 {
        assert(a + b =~= b);
        assert(all_said(a) + all_said(b) =~= all_said(b));
    } else {
        let t = a.drop_first();
        lemma_said_both(t, b);
        assert((a + b).drop_first() =~= t + b);
        assert((a + b)[0] == a[0]);
        assert(said(a[0]) + (all_said(t) + all_said(b)) =~= said(a[0]) + all_said(t) + all_said(
            b,
        ));
    }
}

/// A text without line feeds says what it says as a line.
pub proof fn lemma_one_line(s: Seq<char>)
    requires
        one_line(s),
    ensures
        sayings(s) == said(s),
{
    if s.len() == 0 {
        assert(s =~= Seq::<char>::empty());
        lemma_nothing();
    } else {
        pieces::lemma_line_end(s);
        assert(pieces::lines(s) == seq![s]);
        assert(seq![s] + Seq::<Seq<char>>::empty() =~= seq![s]);
        lemma_said_first(s, seq![]);
        assert(said(s) + all_said(seq![]) =~= said(s));
    }
}

/// The first line feed of a text that has one in a known place.
pub proof fn lemma_first_end(a: Seq<char>, b: Seq<char>)
    requires
        one_line(a),
    ensures
        pieces::line_end(a + seq!['\n'] + b) == Some(a.len() as int),
{
    let s = a + seq!['\n'] + b;
    pieces::lemma_line_end(s);
    let n = a.len() as int;
    assert(s[n] == '\n');
    match pieces::line_end(s) {
        Some(i) => {
            if i < n {
                assert(s[i] == a[i]);
            }
        },
        None => {},
    }
}

/// A text of two parts with a line feed between them says what the parts say.
pub proof fn lemma_parts(a: Seq<char>, b: Seq<char>)
    ensures
        sayings(a + seq!['\n'] + b) == sayings(a) + sayings(b),
    decreases a.len(),
{
    let s = a + seq!['\n'] + b;
    pieces::lemma_line_end(a);
    match pieces::line_end(a) {
        None => {
            lemma_first_end(a, b);
            assert(s.take(a.len() as int) =~= a);
            assert(s.skip(a.len() as int + 1) =~= b);
            lemma_said_first(pieces::chomp(a), pieces::lines(b));
            lemma_chomp(a);
            lemma_one_line(a);
        },
        Some(i) => {
            let first = a.take(i);
            let rest = a.skip(i + 1);
            assert(a =~= first + seq!['\n'] + rest);
            assert(s =~= first + seq!['\n'] + (rest + seq!['\n'] + b));
            lemma_first_end(first, rest + seq!['\n'] + b);
            assert(s.take(i) =~= first);
            assert(s.skip(i + 1) =~= rest + seq!['\n'] + b);
            lemma_parts(rest, b);
            lemma_said_first(
                pieces::chomp(first),
                pieces::lines(rest + seq!['\n'] + b),
            );
            lemma_said_first(pieces::chomp(first), pieces::lines(rest));
            let l = said(pieces::chomp(first));
            assert(l + (sayings(rest) + sayings(b)) =~= l + sayings(rest) + sayings(b));
        },
    }
}

/// A leading character of white space does not matter to what a text says.
proof fn lemma_says_first(s: Seq<char>)
    requires
        s.len() > 0,
        chars::is_white(s[0]),
    ensures
        sayings(s.drop_first()) == sayings(s),
{
    let t = s.drop_first();
    pieces::lemma_line_end(s);
    match pieces::line_end(s) {
        None => {
            assert forall|i: int| 0 <= i < t.len() implies #[trigger] t[i] != '\n' by {
                assert(t[i] == s[i + 1]);
            }
            lemma_one_line(s);
            lemma_one_line(t);
            lemma_trim_first(s);
        },
        Some(i) => {
            let a = s.take(i);
            let b = s.skip(i + 1);
            assert(s =~= a + seq!['\n'] + b);
            lemma_parts(a, b);
            if i == 0 {
                assert(t =~= b);
                assert(a =~= Seq::<char>::empty());
                lemma_nothing();
                assert(sayings(a) + sayings(b) =~= sayings(b));
            } else {
                let c = a.drop_first();
                assert(t =~= c + seq!['\n'] + b);
                lemma_parts(c, b);
                assert forall|k: int| 0 <= k < c.len() implies #[trigger] c[k] != '\n' by {
                    assert(c[k] == s[k + 1]);
                }
                lemma_one_line(a);
                lemma_one_line(c);
                assert(a[0] == s[0]);
                lemma_trim_first(a);
            }
        },
    }
}

/// Nor does a trailing one.
proof fn lemma_says_last(s: Seq<char>)
    requires
        s.len() > 0,
        chars::is_white(s.last()),
    ensures
        sayings(s.drop_last()) == sayings(s),
    decreases s.len(),
{
    let t = s.drop_last();
    pieces::lemma_line_end(s);
    match pieces::line_end(s) {
        None => {
            lemma_one_line(s);
            lemma_one_line(t);
            lemma_trim_last(s);
        },
        Some(i) => {
            let a = s.take(i);
            let b = s.skip(i + 1);
            assert(s =~= a + seq!['\n'] + b);
            lemma_parts(a, b);
            if b.len() == 0 {
                assert(t =~= a);
                assert(b =~= Seq::<char>::empty());
                lemma_nothing();
                assert(sayings(a) + sayings(b) =~= sayings(a));
            } else {
                assert(b.last() == s.last());
                lemma_says_last(b);
                assert(t =~= a + seq!['\n'] + b.drop_last());
                lemma_parts(a, b.drop_last());
            }
        },
    }
}

proof fn lemma_says_trim_start(s: Seq<char>)
    ensures
        sayings(chars::trim_start_set(s, chars::CharSet::White)) == sayings(s),
    decreases s.len(),
{
    if s.len() > 0 && chars::is_white(s[0]) {
        lemma_says_first(s);
        lemma_says_trim_start(s.drop_first());
    }
}

proof fn lemma_says_trim_end(s: Seq<char>)
    ensures
        sayings(chars::trim_end_set(s, chars::CharSet::White)) == sayings(s),
    decreases s.len(),
{
    if s.len() > 0 && chars::is_white(s.last()) {
        lemma_says_last(s);
        lemma_says_trim_end(s.drop_last());
    }
}

/// A text says what it says once it is trimmed.
pub proof fn lemma_says_trim(s: Seq<char>)
    ensures
        sayings(chars::trim(s)) == sayings(s),
{
    lemma_says_trim_start(s);
    lemma_says_trim_end(chars::trim_start_set(s, chars::CharSet::White));
}

/// Lines that are put together say what they said.
pub proof fn lemma_says_join(lines: Seq<Seq<char>>)
    requires
        forall|i: int| 0 <= i < lines.len() ==> one_line(#[trigger] lines[i]),
    ensures
        sayings(pieces::join(lines, seq!['\n'])) == all_said(lines),
    decreases lines.len(),
{
    if lines.len() == 0 {
        lemma_nothing();
    } else if lines.len() == 1 {
        lemma_one_line(lines[0]);
        assert(lines =~= seq![lines[0]] + Seq::<Seq<char>>::empty());
        lemma_said_first(lines[0], seq![]);
        assert(said(lines[0]) + all_said(seq![]) =~= said(lines[0]));
    } else {
        let most = lines.drop_last();
        let last = lines.last();
        assert forall|i: int| 0 <= i < most.len() implies one_line(#[trigger] most[i]) by {
            assert(most[i] == lines[i]);
        }
        lemma_says_join(most);
        lemma_parts(pieces::join(most, seq!['\n']), last);
        lemma_one_line(last);
        assert(lines =~= most + seq![last]);
        lemma_said_both(most, seq![last]);
        assert(seq![last] =~= seq![last] + Seq::<Seq<char>>::empty());
        lemma_said_first(last, seq![]);
        assert(said(last) + all_said(seq![]) =~= said(last));
    }
}

/// The lines of a text are without line feeds.
pub proof fn lemma_lines_single(s: Seq<char>)
    ensures
        forall|i: int|
            0 <= i < pieces::lines(s).len() ==> one_line(#[trigger] pieces::lines(s)[i]),
    decreases s.len(),
{
    if s.len() > 0 {
        pieces::lemma_line_end(s);
        match pieces::line_end(s) {
            Some(i) => {
                lemma_lines_single(s.skip(i + 1));
                let first = pieces::chomp(s.take(i));
                assert(one_line(first));
                assert forall|k: int| 0 <= k < pieces::lines(s).len() implies one_line(
                    #[trigger] pieces::lines(s)[k],
                ) by {
                    if k > 0 {
                        assert(pieces::lines(s)[k] == pieces::lines(s.skip(i + 1))[k - 1]);
                    }
                }
            },
            None => {
                assert(one_line(s));
            },
        }
    }
}

/// The lines of a text that a line feed and another text follow.
pub proof fn lemma_lines_parts(a: Seq<char>, b: Seq<char>)
    requires
        a.len() > 0,
        a.last() != '\n',
        a.last() != '\r',
    ensures
        pieces::lines(a + seq!['\n'] + b) == pieces::lines(a) + pieces::lines(b),
    decreases a.len(),
{
    let s = a + seq!['\n'] + b;
    pieces::lemma_line_end(a);
    match pieces::line_end(a) {
        None => {
            lemma_first_end(a, b);
            assert(s.take(a.len() as int) =~= a);
            assert(s.skip(a.len() as int + 1) =~= b);
        },
        Some(i) => {
            let first = a.take(i);
            let rest = a.skip(i + 1);
            assert(s =~= first + seq!['\n'] + (rest + seq!['\n'] + b));
            lemma_first_end(first, rest + seq!['\n'] + b);
            assert(s.take(i) =~= first);
            assert(s.skip(i + 1) =~= rest + seq!['\n'] + b);
            lemma_lines_parts(rest, b);
            let l = seq![pieces::chomp(first)];
            assert(l + (pieces::lines(rest) + pieces::lines(b)) =~= l + pieces::lines(rest)
                + pieces::lines(b));
        },
    }
}

/// Whether every line of a text ends with a line feed alone.
pub open spec fn plain(s: Seq<char>) -> bool {
    forall|i: int| 0 <= i < s.len() - 1 && #[trigger] s[i] == '\r' ==> s[i + 1] != '\n'
}

/// The first piece, and the others.
pub proof fn lemma_join_first(first: Seq<char>, rest: Seq<Seq<char>>, sep: Seq<char>)
    requires
        rest.len() > 0,
    ensures
        pieces::join(seq![first] + rest, sep) == first + sep + pieces::join(rest, sep),
    decreases rest.len(),
{
    let all = seq![first] + rest;
    assert(all.last() == rest.last());
    if rest.len() == 1 {
        assert(all.drop_last() =~= seq![first]);
        assert(pieces::join(seq![first], sep) == first);
        assert(pieces::join(rest, sep) == rest.last());
    } else {
        assert(all.drop_last() =~= seq![first] + rest.drop_last());
        lemma_join_first(first, rest.drop_last(), sep);
        let r = pieces::join(rest.drop_last(), sep);
        assert((first + sep + r) + sep + rest.last() =~= first + sep + (r + sep + rest.last()));
    }
}

/// The lines of a text, put together again.
pub proof fn lemma_lines_joined(s: Seq<char>)
    requires
        s.len() > 0,
        s.last() != '\n',
        plain(s),
    ensures
        pieces::lines(s).len() > 0,
        pieces::join(pieces::lines(s), seq!['\n']) == s,
    decreases s.len(),
{
    pieces::lemma_line_end(s);
    match pieces::line_end(s) {
        None => {},
        Some(i) => {
            let first = s.take(i);
            let rest = s.skip(i + 1);
            assert(rest.len() > 0);
            assert(rest.last() == s.last());
            assert forall|k: int| 0 <= k < rest.len() - 1 && #[trigger] rest[k] == '\r' implies rest[k
                + 1] != '\n' by {
                assert(s[k + i + 1] == '\r');
                assert(s[k + i + 2] == rest[k + 1]);
            }
            lemma_lines_joined(rest);
            assert(pieces::chomp(first) == first) by {
                if first.len() > 0 && first.last() == '\r' {
                    assert(s[i - 1] == '\r');
                }
            }
            lemma_join_first(first, pieces::lines(rest), seq!['\n']);
            assert(first + seq!['\n'] + rest =~= s);
        },
    }
}

} // verus!
