//! Cutting a text into pieces, and joining pieces into a text.
use vstd::prelude::*;

use super::chars;
use super::chars::{piece, to_chars, trimmed, white};
use super::search;
use super::search::find_from;
use super::views;

verus! {

broadcast use views::group_views;

/// The parts of `s` between the occurrences of `pat`.
pub open spec fn split(s: Seq<char>, pat: Seq<char>) -> Seq<Seq<char>>
    decreases s.len(),
{
    match search::find(s, pat) {
        Some(i) => {
            proof {
                search::lemma_find(s, pat);
            }
            if pat.len() == 0 {
                seq![s]
            } else {
                seq![s.take(i)] + split(s.skip(i + pat.len()), pat)
            }
        },
        None => seq![s],
    }
}

/// The parts of `s` between the first `n - 1` occurrences of `pat`, and the rest.
pub open spec fn splitn(s: Seq<char>, n: nat, pat: Seq<char>) -> Seq<Seq<char>>
    decreases n,
{
    if n == 0 {
        seq![]
    } else if n == 1 {
        seq![s]
    } else {
        match search::find(s, pat) {
            Some(i) => seq![s.take(i)] + splitn(s.skip(i + pat.len()), (n - 1) as nat, pat),
            None => seq![s],
        }
    }
}

/// A line without the carriage return at its end.
pub open spec fn chomp(s: Seq<char>) -> Seq<char> {
    if s.len() > 0 && s.last() == '\r' {
        s.drop_last()
    } else {
        s
    }
}

/// Where the first line feed stands.
pub open spec fn line_end(s: Seq<char>) -> Option<int>
    decreases s.len(),
{
    if s.len() == 0 {
        None
    } else if s[0] == '\n' {
        Some(0)
    } else {
        match line_end(s.drop_first()) {
            Some(i) => Some(i + 1),
            None => None,
        }
    }
}

/// The place that `line_end` gives holds a line feed, and none stands before it.
pub proof fn lemma_line_end(s: Seq<char>)
    ensures
        match line_end(s) {
            Some(i) => 0 <= i < s.len() && s[i] == '\n' && forall|k: int|
                0 <= k < i ==> s[k] != '\n',
            None => forall|k: int| 0 <= k < s.len() ==> s[k] != '\n',
        },
    decreases s.len(),
{
    if s.len() > 0 && s[0] != '\n' {
        let t = s.drop_first();
        lemma_line_end(t);
        assert forall|k: int| 1 <= k < s.len() implies s[k] == t[k - 1] by {}
    }
}

/// The lines of `s`: each ends at a line feed, before which one carriage return
/// is dropped; what follows the last line feed is a line if it is not empty.
pub open spec fn lines(s: Seq<char>) -> Seq<Seq<char>>
    decreases s.len(),
{
    if s.len() == 0 {
        seq![]
    } else {
        match line_end(s) {
            Some(i) => {
                proof {
                    lemma_line_end(s);
                }
                seq![chomp(s.take(i))] + lines(s.skip(i + 1))
            },
            None => seq![s],
        }
    }
}

/// How many characters stand before the first white space.
pub open spec fn word_len(s: Seq<char>) -> nat
    decreases s.len(),
{
    if s.len() == 0 || chars::is_white(s[0]) {
        0
    } else {
        1 + word_len(s.drop_first())
    }
}

/// A word is inside its text.
pub proof fn lemma_word_len(s: Seq<char>)
    ensures
        word_len(s) <= s.len(),
    decreases s.len(),
{
    if s.len() > 0 && !chars::is_white(s[0]) {
        lemma_word_len(s.drop_first());
    }
}

/// Taking white space off the start leaves no more than there was.
pub proof fn lemma_trim_start_len(s: Seq<char>, set: chars::CharSet)
    ensures
        chars::trim_start_set(s, set).len() <= s.len(),
    decreases s.len(),
{
    if s.len() > 0 && set.has(s[0]) {
        lemma_trim_start_len(s.drop_first(), set);
    }
}

/// The words of `s`: its longest parts without white space.
pub open spec fn words(s: Seq<char>) -> Seq<Seq<char>>
    decreases s.len(),
{
    let t = chars::trim_start_set(s, chars::CharSet::White);
    proof {
        lemma_trim_start_len(s, chars::CharSet::White);
        lemma_word_len(t);
    }
    if t.len() == 0 || word_len(t) == 0 {
        seq![]
    } else {
        seq![t.take(word_len(t) as int)] + words(t.skip(word_len(t) as int))
    }
}

/// The pieces with `sep` between them.
pub open spec fn join(pieces: Seq<Seq<char>>, sep: Seq<char>) -> Seq<char>
    decreases pieces.len(),
{
    if pieces.len() == 0 {
        seq![]
    } else if pieces.len() == 1 {
        pieces[0]
    } else {
        join(pieces.drop_last(), sep) + sep + pieces.last()
    }
}

/// The pieces one after the other, each followed by `end`.
pub open spec fn ended(pieces: Seq<Seq<char>>, end: Seq<char>) -> Seq<char>
    decreases pieces.len(),
{
    if pieces.len() == 0 {
        seq![]
    } else {
        ended(pieces.drop_last(), end) + pieces.last() + end
    }
}

/// The texts that are not empty.
pub open spec fn non_empty(pieces: Seq<Seq<char>>) -> Seq<Seq<char>> {
    pieces.filter(|p: Seq<char>| p.len() > 0)
}

/// Every text trimmed.
pub open spec fn trim_all(pieces: Seq<Seq<char>>) -> Seq<Seq<char>> {
    pieces.map_values(|p: Seq<char>| chars::trim(p))
}

/// Filtering a longer sequence.
pub proof fn lemma_filter_push<A>(s: Seq<A>, e: A, p: spec_fn(A) -> bool)
    ensures
        s.push(e).filter(p) == if p(e) {
            s.filter(p).push(e)
        } else {
            s.filter(p)
        },
{
    reveal(Seq::filter);
    assert(s.push(e).drop_last() =~= s);
}

/// Nothing is left of nothing.
pub proof fn lemma_filter_empty<A>(p: spec_fn(A) -> bool)
    ensures
        Seq::<A>::empty().filter(p) == Seq::<A>::empty(),
{
    reveal(Seq::filter);
}

/// The parts of `s` between the occurrences of `pat`.
pub fn split_text(s: &str, pat: &str) -> (r: Vec<String>)
    requires
        pat@.len() > 0,
    ensures
        views::strs(r@) == split(s@, pat@),
{
    let v = to_chars(s);
    let p = to_chars(pat);
    let mut out: Vec<String> = Vec::new();
    let mut at: usize = 0;
    proof {
        assert(v@.skip(0) =~= v@);
        assert(views::strs(out@) + split(s@, pat@) =~= split(s@, pat@));
    }
    loop
        invariant
            at <= v@.len(),
            p@.len() > 0,
            v@ == s@,
            p@ == pat@,
            views::strs(out@) + split(v@.skip(at as int), p@) == split(s@, pat@),
        decreases v.len() - at,
    {
        let ghost rest = v@.skip(at as int);
        let ghost before = views::strs(out@);
        match find_from(&v, at, &p) {
            Some(i) => {
                out.push(piece(&v, at, i));
                proof {
                    assert(v@.len() == v.len());
                    assert(v@.subrange(at as int, i as int) =~= rest.take(i - at));
                    assert(rest.skip(i - at + p@.len()) =~= v@.skip(i + p@.len()));
                    let tail = split(v@.skip(i + p@.len()), p@);
                    assert(before.push(rest.take(i - at)) + tail =~= before + (seq![
                        rest.take(i - at),
                    ] + tail));
                }
                at = i + p.len();
            },
            None => {
                out.push(piece(&v, at, v.len()));
                proof {
                    assert(v@.subrange(at as int, v@.len() as int) =~= rest);
                    assert(before.push(rest) =~= before + seq![rest]);
                }
                return out;
            },
        }
    }
}

/// The parts of `s` between the first `n - 1` occurrences of `pat`, and the rest.
pub fn splitn_text(s: &str, n: usize, pat: &str) -> (r: Vec<String>)
    requires
        pat@.len() > 0,
        n > 0,
    ensures
        views::strs(r@) == splitn(s@, n as nat, pat@),
{
    let v = to_chars(s);
    let p = to_chars(pat);
    let mut out: Vec<String> = Vec::new();
    let mut at: usize = 0;
    let mut left: usize = n;
    proof {
        assert(v@.skip(0) =~= v@);
        assert(views::strs(out@) + splitn(s@, n as nat, pat@) =~= splitn(s@, n as nat, pat@));
    }
    while left > 1
        invariant
            at <= v@.len(),
            left >= 1,
            p@.len() > 0,
            v@ == s@,
            p@ == pat@,
            views::strs(out@) + splitn(v@.skip(at as int), left as nat, p@) == splitn(
                s@,
                n as nat,
                pat@,
            ),
        decreases left,
    {
        let ghost rest = v@.skip(at as int);
        let ghost before = views::strs(out@);
        match find_from(&v, at, &p) {
            Some(i) => {
                out.push(piece(&v, at, i));
                proof {
                    assert(v@.len() == v.len());
                    assert(v@.subrange(at as int, i as int) =~= rest.take(i - at));
                    assert(rest.skip(i - at + p@.len()) =~= v@.skip(i + p@.len()));
                    let tail = splitn(v@.skip(i + p@.len()), (left - 1) as nat, p@);
                    assert(before.push(rest.take(i - at)) + tail =~= before + (seq![
                        rest.take(i - at),
                    ] + tail));
                }
                at = i + p.len();
                left -= 1;
            },
            None => {
                out.push(piece(&v, at, v.len()));
                proof {
                    assert(v@.subrange(at as int, v@.len() as int) =~= rest);
                    assert(before.push(rest) =~= before + seq![rest]);
                }
                return out;
            },
        }
    }
    let ghost rest = v@.skip(at as int);
    let ghost before = views::strs(out@);
    out.push(piece(&v, at, v.len()));
    proof {
        assert(v@.subrange(at as int, v@.len() as int) =~= rest);
        assert(before.push(rest) =~= before + seq![rest]);
    }
    out
}

/// Where the first line feed from `from` on stands.
fn line_end_from(v: &Vec<char>, from: usize) -> (r: Option<usize>)
    requires
        from <= v@.len(),
    ensures
        match r {
            Some(i) => from <= i < v@.len() && line_end(v@.skip(from as int)) == Some(i - from),
            None => line_end(v@.skip(from as int)) is None,
        },
{
    let mut i: usize = from;
    let ghost s = v@.skip(from as int);
    while i < v.len()
        invariant
            from <= i <= v@.len(),
            s == v@.skip(from as int),
            line_end(s) == (match line_end(v@.skip(i as int)) {
                Some(k) => Some(k + (i - from)),
                None => None::<int>,
            }),
        decreases v.len() - i,
    {
        if v[i] == '\n' {
            return Some(i);
        }
        proof {
            assert(v@.skip(i as int).drop_first() =~= v@.skip(i + 1));
        }
        i += 1;
    }
    None
}

/// The lines of `s`.
pub fn lines_of(s: &str) -> (r: Vec<String>)
    ensures
        views::strs(r@) == lines(s@),
{
    let v = to_chars(s);
    let mut out: Vec<String> = Vec::new();
    let mut at: usize = 0;
    proof {
        assert(v@.skip(0) =~= v@);
        assert(views::strs(out@) + lines(s@) =~= lines(s@));
    }
    while at < v.len()
        invariant
            at <= v@.len(),
            v@ == s@,
            views::strs(out@) + lines(v@.skip(at as int)) == lines(s@),
        decreases v.len() - at,
    {
        let ghost rest = v@.skip(at as int);
        let ghost before = views::strs(out@);
        match line_end_from(&v, at) {
            Some(i) => {
                let stop: usize = if i > at && v[i - 1] == '\r' {
                    i - 1
                } else {
                    i
                };
                out.push(piece(&v, at, stop));
                proof {
                    let line = rest.take(i - at);
                    assert(line.len() > 0 ==> line.last() == v@[i - 1]);
                    assert(v@.subrange(at as int, stop as int) =~= chomp(line));
                    assert(rest.skip(i - at + 1) =~= v@.skip(i + 1));
                    let tail = lines(v@.skip(i + 1));
                    assert(before.push(chomp(line)) + tail =~= before + (seq![chomp(line)] + tail));
                }
                at = i + 1;
            },
            None => {
                out.push(piece(&v, at, v.len()));
                proof {
                    assert(v@.subrange(at as int, v@.len() as int) =~= rest);
                    assert(before.push(rest) =~= before + seq![rest]);
                }
                return out;
            },
        }
    }
    proof {
        assert(v@.skip(at as int) =~= Seq::<char>::empty());
        assert(views::strs(out@) + lines(v@.skip(at as int)) =~= views::strs(out@));
    }
    out
}

/// The words of `s`.
pub fn words_of(s: &str) -> (r: Vec<String>)
    ensures
        views::strs(r@) == words(s@),
{
    let v = to_chars(s);
    let mut out: Vec<String> = Vec::new();
    let mut at: usize = 0;
    proof {
        assert(v@.skip(0) =~= v@);
        assert(views::strs(out@) + words(s@) =~= words(s@));
    }
    loop
        invariant
            at <= v@.len(),
            v@ == s@,
            views::strs(out@) + words(v@.skip(at as int)) == words(s@),
        decreases v.len() - at,
    {
        let ghost rest = v@.skip(at as int);
        let ghost before = views::strs(out@);
        let mut lo: usize = at;
        while lo < v.len() && white(v[lo])
            invariant
                at <= lo <= v@.len(),
                chars::trim_start_set(v@.skip(at as int), chars::CharSet::White)
                    == chars::trim_start_set(v@.skip(lo as int), chars::CharSet::White),
            decreases v.len() - lo,
        {
            proof {
                assert(v@.skip(lo as int).drop_first() =~= v@.skip(lo + 1));
            }
            lo += 1;
        }
        if lo == v.len() {
            proof {
                assert(before + Seq::<Seq<char>>::empty() =~= before);
            }
            return out;
        }
        let mut hi: usize = lo;
        while hi < v.len() && !white(v[hi])
            invariant
                lo <= hi <= v@.len(),
                word_len(v@.skip(lo as int)) == (hi - lo) + word_len(v@.skip(hi as int)),
            decreases v.len() - hi,
        {
            proof {
                assert(v@.skip(hi as int).drop_first() =~= v@.skip(hi + 1));
            }
            hi += 1;
        }
        out.push(piece(&v, lo, hi));
        proof {
            let t = v@.skip(lo as int);
            assert(word_len(v@.skip(hi as int)) == 0);
            assert(word_len(t) == hi - lo);
            assert(v@.subrange(lo as int, hi as int) =~= t.take(hi - lo));
            assert(t.skip(hi - lo) =~= v@.skip(hi as int));
            assert(hi > lo) by {
                assert(t[0] == v@[lo as int]);
            }
            let tail = words(v@.skip(hi as int));
            assert(before.push(t.take(hi - lo)) + tail =~= before + (seq![t.take(hi - lo)] + tail));
        }
        at = hi;
    }
}

/// The pieces with `sep` between them.
pub fn joined(pieces: &Vec<String>, sep: &str) -> (r: String)
    ensures
        r@ == join(views::strs(pieces@), sep@),
{
    let mut out = String::new();
    let mut i: usize = 0;
    let ghost all = views::strs(pieces@);
    while i < pieces.len()
        invariant
            i <= pieces@.len(),
            all == views::strs(pieces@),
            out@ == join(all.take(i as int), sep@),
        decreases pieces.len() - i,
    {
        if i > 0 {
            out.append(sep);
        }
        out.append(pieces[i].as_str());
        proof {
            assert(all.take(i + 1).drop_last() =~= all.take(i as int));
            if i == 0 {
                assert(out@ =~= all[0]);
            }
        }
        i += 1;
    }
    proof {
        assert(all.take(i as int) =~= all);
    }
    out
}

/// The pieces one after the other, each followed by `end`.
pub fn ended_text(pieces: &Vec<String>, end: &str) -> (r: String)
    ensures
        r@ == ended(views::strs(pieces@), end@),
{
    let mut out = String::new();
    let mut i: usize = 0;
    let ghost all = views::strs(pieces@);
    while i < pieces.len()
        invariant
            i <= pieces@.len(),
            all == views::strs(pieces@),
            out@ == ended(all.take(i as int), end@),
        decreases pieces.len() - i,
    {
        out.append(pieces[i].as_str());
        out.append(end);
        proof {
            assert(all.take(i + 1).drop_last() =~= all.take(i as int));
        }
        i += 1;
    }
    proof {
        assert(all.take(i as int) =~= all);
    }
    out
}

/// The trimmed lines of `s` that are not empty.
pub fn filled_lines(s: &str) -> (r: Vec<String>)
    ensures
        views::strs(r@) == non_empty(trim_all(lines(s@))),
{
    let ls = lines_of(s);
    let ghost all = trim_all(lines(s@));
    let ghost p = |p: Seq<char>| p.len() > 0;
    let mut out: Vec<String> = Vec::new();
    let mut i: usize = 0;
    proof {
        lemma_filter_empty(p);
        assert(all.take(0) =~= Seq::<Seq<char>>::empty());
    }
    while i < ls.len()
        invariant
            i <= ls@.len(),
            views::strs(ls@) == lines(s@),
            all == trim_all(lines(s@)),
            p == (|p: Seq<char>| p.len() > 0),
            views::strs(out@) == all.take(i as int).filter(p),
        decreases ls.len() - i,
    {
        let t = trimmed(ls[i].as_str());
        proof {
            assert(views::strs(ls@)[i as int] == ls@[i as int]@);
            assert(all.take(i + 1) =~= all.take(i as int).push(t@));
            lemma_filter_push(all.take(i as int), t@, p);
        }
        if !t.as_str().is_empty() {
            out.push(t);
        }
        i += 1;
    }
    proof {
        assert(views::strs(ls@).len() == ls@.len());
        assert(all.take(i as int) =~= all);
    }
    out
}

} // verus!
