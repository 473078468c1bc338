//! Finding, stripping and replacing parts of a text.
use vstd::prelude::*;

use super::chars::{piece, to_chars};

verus! {

/// Where `pat` first occurs in `s`.
pub open spec fn find(s: Seq<char>, pat: Seq<char>) -> Option<int>
    decreases s.len(),
{
    if pat.is_prefix_of(s) {
        Some(0)
    } else if s.len() == 0 {
        None
    } else {
        match find(s.drop_first(), pat) {
            Some(i) => Some(i + 1),
            None => None,
        }
    }
}

/// Where `pat` last occurs in `s`.
pub open spec fn rfind(s: Seq<char>, pat: Seq<char>) -> Option<int>
    decreases s.len(),
{
    if pat.is_suffix_of(s) {
        Some(s.len() - pat.len())
    } else if s.len() == 0 {
        None
    } else {
        rfind(s.drop_last(), pat)
    }
}

/// Whether `pat` occurs in `s`.
pub open spec fn contains(s: Seq<char>, pat: Seq<char>) -> bool {
    find(s, pat) is Some
}

/// A place that `find` gives is inside the text, and the text there is `pat`.
pub proof fn lemma_find(s: Seq<char>, pat: Seq<char>)
    ensures
        find(s, pat) matches Some(i) ==> 0 <= i && i + pat.len() <= s.len() && s.subrange(
            i,
            i + pat.len(),
        ) == pat,
    decreases s.len(),
{
    if pat.is_prefix_of(s) {
        assert(s.subrange(0, pat.len() as int) =~= pat);
    } else if s.len() > 0 {
        lemma_find(s.drop_first(), pat);
        if let Some(i) = find(s.drop_first(), pat) {
            assert(s.subrange(i + 1, i + 1 + pat.len()) =~= s.drop_first().subrange(
                i,
                i + pat.len(),
            ));
        }
    }
}

/// `pat` occurs in `s` exactly where a part of `s` equals it.
pub proof fn lemma_contains(s: Seq<char>, pat: Seq<char>)
    ensures
        contains(s, pat) <==> exists|i: int|
            #![trigger s.subrange(i, i + pat.len())]
            0 <= i && i + pat.len() <= s.len() && s.subrange(i, i + pat.len()) == pat,
    decreases s.len(),
{
    lemma_find(s, pat);
    if exists|i: int|
        #![trigger s.subrange(i, i + pat.len())]
        0 <= i && i + pat.len() <= s.len() && s.subrange(i, i + pat.len()) == pat {
        let i = choose|i: int|
            #![trigger s.subrange(i, i + pat.len())]
            0 <= i && i + pat.len() <= s.len() && s.subrange(i, i + pat.len()) == pat;
        if i == 0 {
            assert(pat.is_prefix_of(s));
        } else {
            let t = s.drop_first();
            assert(t.subrange(i - 1, i - 1 + pat.len()) =~= s.subrange(i, i + pat.len()));
            lemma_contains(t, pat);
        }
    }
}

/// A place that `rfind` gives is inside the text, and the text there is `pat`.
pub proof fn lemma_rfind(s: Seq<char>, pat: Seq<char>)
    ensures
        rfind(s, pat) matches Some(i) ==> 0 <= i && i + pat.len() <= s.len() && s.subrange(
            i,
            i + pat.len(),
        ) == pat,
    decreases s.len(),
{
    if pat.is_suffix_of(s) {
        assert(s.subrange(s.len() - pat.len(), s.len() as int) =~= pat);
    } else if s.len() > 0 {
        lemma_rfind(s.drop_last(), pat);
        if let Some(i) = rfind(s.drop_last(), pat) {
            assert(s.subrange(i, i + pat.len()) =~= s.drop_last().subrange(i, i + pat.len()));
        }
    }
}

/// Whether the characters of `v` from `at` on begin with `pat`.
pub fn matches_at(v: &Vec<char>, at: usize, pat: &Vec<char>) -> (r: bool)
    requires
        at <= v@.len(),
    ensures
        r == pat@.is_prefix_of(v@.skip(at as int)),
{
    if v.len() - at < pat.len() {
        return false;
    }
    let mut k: usize = 0;
    while k < pat.len()
        invariant
            at <= v@.len(),
            k <= pat@.len(),
            at + pat.len() <= v.len(),
            forall|j: int| 0 <= j < k ==> #[trigger] pat@[j] == v@.skip(at as int)[j],
        decreases pat.len() - k,
    {
        if v[at + k] != pat[k] {
            proof {
                assert(v@.skip(at as int)[k as int] != pat@[k as int]);
            }
            return false;
        }
        k += 1;
    }
    proof {
        assert(v@.skip(at as int).subrange(0, pat@.len() as int) =~= pat@);
    }
    true
}

/// Where `pat` first occurs in the characters of `v` from `from` on.
pub fn find_from(v: &Vec<char>, from: usize, pat: &Vec<char>) -> (r: Option<usize>)
    requires
        from <= v@.len(),
    ensures
        match r {
            Some(i) => from <= i && i + pat@.len() <= v@.len() && find(v@.skip(from as int), pat@)
                == Some(i - from),
            None => find(v@.skip(from as int), pat@) is None,
        },
{
    let mut i: usize = from;
    let ghost s = v@.skip(from as int);
    proof {
        lemma_find(s, pat@);
    }
    loop
        invariant
            from <= i <= v@.len(),
            s == v@.skip(from as int),
            find(s, pat@) == (match find(v@.skip(i as int), pat@) {
                Some(k) => Some(k + (i - from)),
                None => None::<int>,
            }),
            find(s, pat@) matches Some(k) ==> 0 <= k && k + pat@.len() <= s.len(),
        decreases v.len() - i,
    {
        if matches_at(v, i, pat) {
            return Some(i);
        }
        if i >= v.len() {
            return None;
        }
        proof {
            assert(v@.skip(i as int).drop_first() =~= v@.skip(i + 1));
        }
        i += 1;
    }
}

/// Where `pat` first occurs in `s`, counted in characters.
pub fn find_in(s: &str, pat: &str) -> (r: Option<usize>)
    ensures
        match r {
            Some(i) => i + pat@.len() <= s@.len() <= usize::MAX && find(s@, pat@) == Some(i as int),
            None => find(s@, pat@) is None,
        },
{
    let v = to_chars(s);
    let p = to_chars(pat);
    let n: usize = v.len();
    proof {
        assert(v@.skip(0) =~= v@);
    }
    find_from(&v, 0, &p)
}

/// Whether `pat` occurs in `s`.
pub fn occurs(s: &str, pat: &str) -> (r: bool)
    ensures
        r == contains(s@, pat@),
{
    find_in(s, pat).is_some()
}

/// Where `pat` last occurs in `s`, counted in characters.
pub fn rfind_in(s: &str, pat: &str) -> (r: Option<usize>)
    ensures
        match r {
            Some(i) => i + pat@.len() <= s@.len() <= usize::MAX && rfind(s@, pat@) == Some(
                i as int,
            ),
            None => rfind(s@, pat@) is None,
        },
{
    let v = to_chars(s);
    let p = to_chars(pat);
    let mut n: usize = v.len();
    proof {
        lemma_rfind(v@, p@);
        assert(v@.take(n as int) =~= v@);
    }
    loop
        invariant
            n <= v@.len() <= usize::MAX,
            v@ == s@,
            p@ == pat@,
            rfind(v@, p@) == rfind(v@.take(n as int), p@),
            rfind(v@, p@) matches Some(k) ==> 0 <= k && k + p@.len() <= v@.len(),
        decreases n,
    {
        if n >= p.len() && ends_at(&v, n, &p) {
            return Some(n - p.len());
        }
        if n == 0 {
            return None;
        }
        proof {
            assert(v@.take(n as int).drop_last() =~= v@.take(n - 1));
        }
        n -= 1;
    }
}

/// Whether the first `n` characters of `v` end with `pat`.
pub fn ends_at(v: &Vec<char>, n: usize, pat: &Vec<char>) -> (r: bool)
    requires
        pat@.len() <= n <= v@.len(),
    ensures
        r == pat@.is_suffix_of(v@.take(n as int)),
{
    let r = matches_at(v, n - pat.len(), pat);
    let ghost a = v@.skip(n - pat@.len());
    let ghost b = v@.take(n as int);
    proof {
        assert(a.subrange(0, pat@.len() as int) =~= b.subrange(b.len() - pat@.len(), b.len() as int));
    }
    r
}

/// Whether `s` begins with `pat`.
pub fn starts(s: &str, pat: &str) -> (r: bool)
    ensures
        r == pat@.is_prefix_of(s@),
{
    let v = to_chars(s);
    let p = to_chars(pat);
    proof {
        assert(v@.skip(0) =~= v@);
    }
    matches_at(&v, 0, &p)
}

/// Whether `s` ends with `pat`.
pub fn ends(s: &str, pat: &str) -> (r: bool)
    ensures
        r == pat@.is_suffix_of(s@),
{
    let v = to_chars(s);
    let p = to_chars(pat);
    if v.len() < p.len() {
        return false;
    }
    proof {
        assert(v@.take(v@.len() as int) =~= v@);
    }
    ends_at(&v, v.len(), &p)
}

/// What follows `pat` at the start of `s`, if `s` begins with it.
pub open spec fn strip_prefix(s: Seq<char>, pat: Seq<char>) -> Option<Seq<char>> {
    if pat.is_prefix_of(s) {
        Some(s.skip(pat.len() as int))
    } else {
        None
    }
}

/// What precedes `pat` at the end of `s`, if `s` ends with it.
pub open spec fn strip_suffix(s: Seq<char>, pat: Seq<char>) -> Option<Seq<char>> {
    if pat.is_suffix_of(s) {
        Some(s.take(s.len() - pat.len()))
    } else {
        None
    }
}

/// `s` without `pat` at its start, or `s` itself.
pub open spec fn without_prefix(s: Seq<char>, pat: Seq<char>) -> Seq<char> {
    match strip_prefix(s, pat) {
        Some(t) => t,
        None => s,
    }
}

/// `s` without `pat` at its end, or `s` itself.
pub open spec fn without_suffix(s: Seq<char>, pat: Seq<char>) -> Seq<char> {
    match strip_suffix(s, pat) {
        Some(t) => t,
        None => s,
    }
}

/// `s` with every leading copy of `pat` taken off.
pub open spec fn without_prefixes(s: Seq<char>, pat: Seq<char>) -> Seq<char>
    decreases s.len(),
{
    if pat.len() > 0 && pat.is_prefix_of(s) {
        without_prefixes(s.skip(pat.len() as int), pat)
    } else {
        s
    }
}

/// `s` with every trailing copy of `pat` taken off.
pub open spec fn without_suffixes(s: Seq<char>, pat: Seq<char>) -> Seq<char>
    decreases s.len(),
{
    if pat.len() > 0 && pat.is_suffix_of(s) {
        without_suffixes(s.take(s.len() - pat.len()), pat)
    } else {
        s
    }
}

/// What follows `pat` at the start of `s`, if `s` begins with it.
pub fn after_prefix(s: &str, pat: &str) -> (r: Option<String>)
    ensures
        match r {
            Some(t) => strip_prefix(s@, pat@) == Some(t@),
            None => strip_prefix(s@, pat@) is None,
        },
{
    let v = to_chars(s);
    let p = to_chars(pat);
    proof {
        assert(v@.skip(0) =~= v@);
    }
    if matches_at(&v, 0, &p) {
        proof {
            assert(v@.subrange(p@.len() as int, v@.len() as int) =~= v@.skip(p@.len() as int));
        }
        Some(piece(&v, p.len(), v.len()))
    } else {
        None
    }
}

/// What precedes `pat` at the end of `s`, if `s` ends with it.
pub fn before_suffix(s: &str, pat: &str) -> (r: Option<String>)
    ensures
        match r {
            Some(t) => strip_suffix(s@, pat@) == Some(t@),
            None => strip_suffix(s@, pat@) is None,
        },
{
    let v = to_chars(s);
    let p = to_chars(pat);
    if v.len() < p.len() {
        return None;
    }
    proof {
        assert(v@.take(v@.len() as int) =~= v@);
    }
    if ends_at(&v, v.len(), &p) {
        proof {
            assert(v@.subrange(0, v@.len() - p@.len()) =~= v@.take(v@.len() - p@.len()));
        }
        Some(piece(&v, 0, v.len() - p.len()))
    } else {
        None
    }
}

/// `s` without `pat` at its start, or `s` itself.
pub fn dropped_prefix(s: &str, pat: &str) -> (r: String)
    ensures
        r@ == without_prefix(s@, pat@),
{
    match after_prefix(s, pat) {
        Some(t) => t,
        None => s.to_owned(),
    }
}

/// `s` without `pat` at its end, or `s` itself.
pub fn dropped_suffix(s: &str, pat: &str) -> (r: String)
    ensures
        r@ == without_suffix(s@, pat@),
{
    match before_suffix(s, pat) {
        Some(t) => t,
        None => s.to_owned(),
    }
}

/// `s` with every leading copy of `pat` taken off.
pub fn dropped_prefixes(s: &str, pat: &str) -> (r: String)
    requires
        pat@.len() > 0,
    ensures
        r@ == without_prefixes(s@, pat@),
{
    let v = to_chars(s);
    let p = to_chars(pat);
    let mut k: usize = 0;
    proof {
        assert(v@.skip(0) =~= v@);
    }
    while matches_at(&v, k, &p)
        invariant
            k <= v@.len(),
            p@.len() > 0,
            without_prefixes(v@, p@) == without_prefixes(v@.skip(k as int), p@),
        decreases v.len() - k,
    {
        proof {
            assert(v@.skip(k as int).skip(p@.len() as int) =~= v@.skip(k + p@.len()));
        }
        k += p.len();
    }
    proof {
        assert(v@.subrange(k as int, v@.len() as int) =~= v@.skip(k as int));
    }
    piece(&v, k, v.len())
}

/// `s` with every trailing copy of `pat` taken off.
pub fn dropped_suffixes(s: &str, pat: &str) -> (r: String)
    requires
        pat@.len() > 0,
    ensures
        r@ == without_suffixes(s@, pat@),
{
    let v = to_chars(s);
    let p = to_chars(pat);
    let mut n: usize = v.len();
    proof {
        assert(v@.take(n as int) =~= v@);
    }
    while n >= p.len() && ends_at(&v, n, &p)
        invariant
            n <= v@.len(),
            p@.len() > 0,
            without_suffixes(v@, p@) == without_suffixes(v@.take(n as int), p@),
        decreases n,
    {
        proof {
            assert(v@.take(n as int).take(n - p@.len()) =~= v@.take(n - p@.len()));
        }
        n -= p.len();
    }
    proof {
        assert(v@.subrange(0, n as int) =~= v@.take(n as int));
    }
    piece(&v, 0, n)
}

/// `s` with each occurrence of `from`, taken from the left, replaced by `to`.
pub open spec fn replace(s: Seq<char>, from: Seq<char>, to: Seq<char>) -> Seq<char>
    decreases s.len(),
{
    match find(s, from) {
        Some(i) => {
            proof {
                lemma_find(s, from);
            }
            if from.len() == 0 {
                s
            } else {
                s.take(i) + to + replace(s.skip(i + from.len()), from, to)
            }
        },
        None => s,
    }
}

/// `s` with each occurrence of `from`, taken from the left, replaced by `to`.
pub fn replaced(s: &str, from: &str, to: &str) -> (r: String)
    requires
        from@.len() > 0,
    ensures
        r@ == replace(s@, from@, to@),
{
    let v = to_chars(s);
    let p = to_chars(from);
    let mut out = String::new();
    let mut at: usize = 0;
    proof {
        assert(v@.skip(0) =~= v@);
        assert(out@ + replace(v@, p@, to@) =~= replace(v@, p@, to@));
    }
    loop
        invariant
            at <= v@.len(),
            p@.len() > 0,
            v@ == s@,
            p@ == from@,
            out@ + replace(v@.skip(at as int), p@, to@) == replace(s@, from@, to@),
        decreases v.len() - at,
    {
        match find_from(&v, at, &p) {
            Some(i) => {
                let ghost rest = v@.skip(at as int);
                let ghost before = out@;
                out.append(piece(&v, at, i).as_str());
                out.append(to);
                proof {
                    assert(v@.subrange(at as int, i as int) =~= rest.take(i - at));
                    assert(rest.skip(i - at + p@.len()) =~= v@.skip(i + p@.len()));
                    let tail = replace(v@.skip(i + p@.len()), p@, to@);
                    assert(out@ + tail =~= before + (rest.take(i - at) + to@ + tail));
                }
                at = i + p.len();
            },
            None => {
                proof {
                    assert(v@.subrange(at as int, v@.len() as int) =~= v@.skip(at as int));
                }
                out.append(piece(&v, at, v.len()).as_str());
                return out;
            },
        }
    }
}

} // verus!
