//! Characters, strings as vectors of characters, and trimming.
use vstd::prelude::*;

use super::views;

verus! {

broadcast use views::group_views;

/// `String::push` appends one character.
pub assume_specification[ String::push ](s: &mut String, c: char)
    ensures
        final(s)@ == old(s)@.push(c),
;

/// A class of characters that can be trimmed off the ends of a text.
#[derive(Clone, Copy)]
pub enum CharSet {
    /// Unicode `White_Space`.
    White,
    /// One character.
    Only(char),
    /// Round brackets.
    Brackets,
}

/// The characters with the Unicode property `White_Space`.
pub open spec fn is_white(c: char) -> bool {
    ||| '\u{9}' <= c <= '\u{d}'
    ||| c == ' '
    ||| c == '\u{85}'
    ||| c == '\u{a0}'
    ||| c == '\u{1680}'
    ||| '\u{2000}' <= c <= '\u{200a}'
    ||| c == '\u{2028}'
    ||| c == '\u{2029}'
    ||| c == '\u{202f}'
    ||| c == '\u{205f}'
    ||| c == '\u{3000}'
}

/// Whether `c` is white space.
pub fn white(c: char) -> (r: bool)
    ensures
        r == is_white(c),
{
    ('\u{9}' <= c && c <= '\u{d}') || c == ' ' || c == '\u{85}' || c == '\u{a0}' || c == '\u{1680}'
        || ('\u{2000}' <= c && c <= '\u{200a}') || c == '\u{2028}' || c == '\u{2029}' || c
        == '\u{202f}' || c == '\u{205f}' || c == '\u{3000}'
}

impl CharSet {
    /// The characters of the class.
    pub open spec fn has(self, c: char) -> bool {
        match self {
            CharSet::White => is_white(c),
            CharSet::Only(d) => c == d,
            CharSet::Brackets => c == '(' || c == ')',
        }
    }

    /// Whether `c` is in the class.
    pub fn holds(self, c: char) -> (r: bool)
        ensures
            r == self.has(c),
    {
        match self {
            CharSet::White => white(c),
            CharSet::Only(d) => c == d,
            CharSet::Brackets => c == '(' || c == ')',
        }
    }
}

/// A decimal digit of ASCII.
pub open spec fn is_digit(c: char) -> bool {
    '0' <= c <= '9'
}

/// Whether `c` is a decimal digit of ASCII.
pub fn digit(c: char) -> (r: bool)
    ensures
        r == is_digit(c),
{
    '0' <= c && c <= '9'
}

/// A hexadecimal digit of ASCII.
pub open spec fn is_hex(c: char) -> bool {
    is_digit(c) || 'a' <= c <= 'f' || 'A' <= c <= 'F'
}

/// Whether `c` is a hexadecimal digit of ASCII.
pub fn hex(c: char) -> (r: bool)
    ensures
        r == is_hex(c),
{
    digit(c) || ('a' <= c && c <= 'f') || ('A' <= c && c <= 'F')
}

/// `c` with an upper-case letter of ASCII replaced by its lower-case one.
pub open spec fn lower(c: char) -> char {
    if 'A' <= c <= 'Z' {
        (c as u32 + 32) as char
    } else {
        c
    }
}

/// The lower-case form of `c`, as far as ASCII goes.
pub fn to_lower(c: char) -> (r: char)
    ensures
        r == lower(c),
{
    if 'A' <= c && c <= 'Z' {
        let b: u8 = c as u8;
        (b + 32) as char
    } else {
        c
    }
}

/// The characters of a string.
pub fn to_chars(s: &str) -> (v: Vec<char>)
    ensures
        v@ == s@,
{
    let mut v: Vec<char> = Vec::new();
    for c in it: s.chars()
        invariant
            v@ == s@.take(it.index()),
            it.seq() == s@,
    {
        v.push(c);
        proof {
            assert(s@.take(it.index() + 1) =~= s@.take(it.index()).push(c));
        }
    }
    proof {
        assert(s@.take(s@.len() as int) =~= s@);
    }
    v
}

/// The string made of the characters of `v` from `lo` up to `hi`.
pub fn piece(v: &Vec<char>, lo: usize, hi: usize) -> (s: String)
    requires
        lo <= hi <= v@.len(),
    ensures
        s@ == v@.subrange(lo as int, hi as int),
{
    let mut s = String::new();
    let mut i: usize = lo;
    while i < hi
        invariant
            lo <= i <= hi <= v@.len(),
            s@ == v@.subrange(lo as int, i as int),
        decreases hi - i,
    {
        s.push(v[i]);
        proof {
            assert(v@.subrange(lo as int, i + 1) =~= v@.subrange(lo as int, i as int).push(
                v@[i as int],
            ));
        }
        i += 1;
    }
    s
}

/// Whether two strings are the same text.
pub fn same(a: &str, b: &str) -> (r: bool)
    ensures
        r == (a@ == b@),
{
    let x = to_chars(a);
    let y = to_chars(b);
    if x.len() != y.len() {
        return false;
    }
    let mut i: usize = 0;
    while i < x.len()
        invariant
            i <= x@.len() == y@.len(),
            forall|k: int| 0 <= k < i ==> x@[k] == y@[k],
            x@ == a@,
            y@ == b@,
        decreases x.len() - i,
    {
        if x[i] != y[i] {
            return false;
        }
        i += 1;
    }
    proof {
        assert(x@ =~= y@);
    }
    true
}

/// Two texts, one after the other.
pub fn concat2(a: &str, b: &str) -> (s: String)
    ensures
        s@ == a@ + b@,
{
    let mut s = a.to_owned();
    s.append(b);
    s
}

/// Three texts, one after the other.
pub fn concat3(a: &str, b: &str, c: &str) -> (s: String)
    ensures
        s@ == a@ + b@ + c@,
{
    let mut s = concat2(a, b);
    s.append(c);
    s
}

/// Four texts, one after the other.
pub fn concat4(a: &str, b: &str, c: &str, d: &str) -> (s: String)
    ensures
        s@ == a@ + b@ + c@ + d@,
{
    let mut s = concat3(a, b, c);
    s.append(d);
    s
}

/// Five texts, one after another.
pub fn concat5(a: &str, b: &str, c: &str, d: &str, e: &str) -> (s: String)
    ensures
        s@ == a@ + b@ + c@ + d@ + e@,
{
    let mut s = concat4(a, b, c, d);
    s.append(e);
    s
}

/// Six texts, one after another.
pub fn concat6(a: &str, b: &str, c: &str, d: &str, e: &str, f: &str) -> (s: String)
    ensures
        s@ == a@ + b@ + c@ + d@ + e@ + f@,
{
    let mut s = concat5(a, b, c, d, e);
    s.append(f);
    s
}

/// Seven texts, one after another.
pub fn concat7(a: &str, b: &str, c: &str, d: &str, e: &str, f: &str, g: &str) -> (s: String)
    ensures
        s@ == a@ + b@ + c@ + d@ + e@ + f@ + g@,
{
    let mut s = concat6(a, b, c, d, e, f);
    s.append(g);
    s
}

/// A copy of a vector of strings.
pub fn copy_strs(v: &Vec<String>) -> (r: Vec<String>)
    ensures
        views::strs(r@) == views::strs(v@),
{
    let mut r: Vec<String> = Vec::new();
    let mut i: usize = 0;
    while i < v.len()
        invariant
            i <= v@.len(),
            views::strs(r@) == views::strs(v@.take(i as int)),
        decreases v.len() - i,
    {
        r.push(v[i].clone());
        proof {
            assert(v@.take(i + 1) =~= v@.take(i as int).push(v@[i as int]));
        }
        i += 1;
    }
    proof {
        assert(v@.take(i as int) =~= v@);
    }
    r
}

/// A copy of an optional string.
pub fn copy_opt(o: &Option<String>) -> (r: Option<String>)
    ensures
        views::opt(r) == views::opt(*o),
{
    match o {
        Some(s) => Some(s.clone()),
        None => None,
    }
}

/// What is left of `s` once the leading characters of the class are taken off.
pub open spec fn trim_start_set(s: Seq<char>, set: CharSet) -> Seq<char>
    decreases s.len(),
{
    if s.len() > 0 && set.has(s[0]) {
        trim_start_set(s.drop_first(), set)
    } else {
        s
    }
}

/// What is left of `s` once the trailing characters of the class are taken off.
pub open spec fn trim_end_set(s: Seq<char>, set: CharSet) -> Seq<char>
    decreases s.len(),
{
    if s.len() > 0 && set.has(s.last()) {
        trim_end_set(s.drop_last(), set)
    } else {
        s
    }
}

/// What is left of `s` once the characters of the class are taken off both ends.
pub open spec fn trim_set(s: Seq<char>, set: CharSet) -> Seq<char> {
    trim_end_set(trim_start_set(s, set), set)
}

/// `s` without leading and trailing white space.
pub open spec fn trim(s: Seq<char>) -> Seq<char> {
    trim_set(s, CharSet::White)
}

/// Where the first character outside the class stands.
fn skip_set(v: &Vec<char>, set: CharSet) -> (k: usize)
    ensures
        k <= v@.len(),
        v@.skip(k as int) == trim_start_set(v@, set),
{
    let mut k: usize = 0;
    proof {
        assert(v@.skip(0) =~= v@);
    }
    while k < v.len() && set.holds(v[k])
        invariant
            k <= v@.len(),
            trim_start_set(v@, set) == trim_start_set(v@.skip(k as int), set),
        decreases v.len() - k,
    {
        proof {
            assert(v@.skip(k as int).drop_first() =~= v@.skip(k + 1));
        }
        k += 1;
    }
    k
}

/// Where the text ends once trailing characters of the class, down to `lo`, are off.
fn drop_set(v: &Vec<char>, lo: usize, set: CharSet) -> (k: usize)
    requires
        lo <= v@.len(),
    ensures
        lo <= k <= v@.len(),
        v@.subrange(lo as int, k as int) == trim_end_set(v@.skip(lo as int), set),
{
    let mut k: usize = v.len();
    proof {
        assert(v@.subrange(lo as int, k as int) =~= v@.skip(lo as int));
    }
    while k > lo && set.holds(v[k - 1])
        invariant
            lo <= k <= v@.len(),
            trim_end_set(v@.skip(lo as int), set) == trim_end_set(
                v@.subrange(lo as int, k as int),
                set,
            ),
        decreases k,
    {
        proof {
            assert(v@.subrange(lo as int, k as int).drop_last() =~= v@.subrange(
                lo as int,
                k - 1,
            ));
        }
        k -= 1;
    }
    k
}

/// `s` without the characters of the class at its ends.
pub fn trimmed_set(s: &str, set: CharSet) -> (r: String)
    ensures
        r@ == trim_set(s@, set),
{
    let v = to_chars(s);
    let lo = skip_set(&v, set);
    let hi = drop_set(&v, lo, set);
    piece(&v, lo, hi)
}

/// `s` without the characters of the class at its start.
pub fn trimmed_start_set(s: &str, set: CharSet) -> (r: String)
    ensures
        r@ == trim_start_set(s@, set),
{
    let v = to_chars(s);
    let lo = skip_set(&v, set);
    proof {
        assert(v@.subrange(lo as int, v@.len() as int) =~= v@.skip(lo as int));
    }
    piece(&v, lo, v.len())
}

/// `s` without the characters of the class at its end.
pub fn trimmed_end_set(s: &str, set: CharSet) -> (r: String)
    ensures
        r@ == trim_end_set(s@, set),
{
    let v = to_chars(s);
    let hi = drop_set(&v, 0, set);
    proof {
        assert(v@.skip(0) =~= v@);
    }
    piece(&v, 0, hi)
}

/// `s` without white space at its ends.
pub fn trimmed(s: &str) -> (r: String)
    ensures
        r@ == trim(s@),
{
    trimmed_set(s, CharSet::White)
}

} // verus!
