//! The length of a text in UTF-8, and cutting a text at a number of bytes.
use vstd::prelude::*;
use vstd::utf8;

use super::chars::{piece, to_chars};

verus! {

/// How many bytes `c` takes in UTF-8.
pub open spec fn width(c: char) -> nat {
    if (c as u32) < 0x80 {
        1
    } else if (c as u32) < 0x800 {
        2
    } else if (c as u32) < 0x10000 {
        3
    } else {
        4
    }
}

/// How many bytes `s` takes in UTF-8.
pub open spec fn byte_len(s: Seq<char>) -> nat
    decreases s.len(),
{
    if s.len() == 0 {
        0
    } else {
        width(s[0]) + byte_len(s.drop_first())
    }
}

/// Whether `s` has a character boundary after `n` bytes, or is no longer than that.
pub open spec fn cuts(s: Seq<char>, n: int) -> bool
    decreases s.len(),
{
    s.len() == 0 || n == 0 || (width(s[0]) <= n && cuts(s.drop_first(), n - width(s[0])))
}

/// The first `n` bytes of `s`, or all of it where it is shorter.
pub open spec fn cut(s: Seq<char>, n: int) -> Seq<char>
    decreases s.len(),
{
    if s.len() == 0 || width(s[0]) > n {
        seq![]
    } else {
        seq![s[0]] + cut(s.drop_first(), n - width(s[0]))
    }
}

/// `byte_len` is the length of the UTF-8 encoding.
pub proof fn lemma_byte_len(s: Seq<char>)
    ensures
        byte_len(s) == utf8::encode_utf8(s).len(),
    decreases s.len(),
{
    if s.len() > 0 {
        utf8::char_is_scalar(s[0]);
        lemma_byte_len(s.drop_first());
    }
}

/// `cuts` holds exactly where the encoding has a character boundary after `n`
/// bytes, or ends before that.
pub proof fn lemma_cuts(s: Seq<char>, n: int)
    requires
        n >= 0,
    ensures
        cuts(s, n) <==> (n >= utf8::encode_utf8(s).len() || utf8::is_char_boundary(
            utf8::encode_utf8(s),
            n,
        )),
    decreases s.len(),
{
    let b = utf8::encode_utf8(s);
    utf8::encode_utf8_valid_utf8(s);
    lemma_byte_len(s);
    if s.len() > 0 {
        let t = s.drop_first();
        let w = width(s[0]);
        lemma_byte_len(t);
        utf8::encode_utf8_first_scalar(s);
        assert(utf8::encode_scalar(s[0] as u32).len() == w);
        assert(utf8::length_of_first_scalar(b) == w);
        assert(utf8::pop_first_scalar(b) =~= utf8::encode_utf8(t));
        if n >= w {
            lemma_cuts(t, n - w);
        } else if n > 0 {
            utf8::encode_utf8_valid_utf8(t);
            reveal_with_fuel(utf8::is_char_boundary, 2);
            assert(!utf8::is_char_boundary(utf8::encode_utf8(t), n - w));
        }
    }
}

/// A cut is a prefix of the text, no longer than asked for.
pub proof fn lemma_cut(s: Seq<char>, n: int)
    requires
        n >= 0,
    ensures
        byte_len(cut(s, n)) <= n,
        cut(s, n).is_prefix_of(s),
        cut(s, n).len() <= s.len(),
    decreases s.len(),
{
    if s.len() > 0 && width(s[0]) <= n {
        let t = s.drop_first();
        let rest = cut(t, n - width(s[0]));
        lemma_cut(t, n - width(s[0]));
        let c = cut(s, n);
        assert(c.drop_first() =~= rest);
        assert forall|i: int| 0 <= i < c.len() implies c[i] == s[i] by {
            if i > 0 {
                assert(rest[i - 1] == t[i - 1]);
            }
        }
        assert(s.subrange(0, c.len() as int) =~= c);
    } else {
        assert(s.subrange(0, 0) =~= cut(s, n));
    }
}

/// The characters of a text are no fewer than a quarter of its bytes, and no more
/// than its bytes.
pub proof fn lemma_byte_len_bounds(s: Seq<char>)
    ensures
        s.len() <= byte_len(s) <= 4 * s.len(),
    decreases s.len(),
{
    if s.len() > 0 {
        lemma_byte_len_bounds(s.drop_first());
    }
}

/// The length of two texts together.
pub proof fn lemma_byte_len_add(a: Seq<char>, b: Seq<char>)
    ensures
        byte_len(a + b) == byte_len(a) + byte_len(b),
    decreases a.len(),
{
    if a.len() == 0 {
        assert(a + b =~= b);
    } else {
        assert((a + b).drop_first() =~= a.drop_first() + b);
        lemma_byte_len_add(a.drop_first(), b);
    }
}

/// How many bytes `c` takes in UTF-8.
pub fn width_of(c: char) -> (r: usize)
    ensures
        r == width(c),
{
    let u: u32 = c as u32;
    if u < 0x80 {
        1
    } else if u < 0x800 {
        2
    } else if u < 0x10000 {
        3
    } else {
        4
    }
}

/// How many bytes `s` takes in UTF-8, as long as that can be counted.
pub fn length(s: &str) -> (r: usize)
    ensures
        byte_len(s@) <= usize::MAX ==> r == byte_len(s@),
{
    proof {
        lemma_byte_len(s@);
    }
    s.len()
}

/// How the first `n` bytes of `v` end: how many characters they hold, and whether
/// they end at a character boundary.
fn cut_point(v: &Vec<char>, n: usize) -> (r: (usize, bool))
    ensures
        r.0 <= v@.len(),
        r.1 == cuts(v@, n as int),
        v@.take(r.0 as int) == cut(v@, n as int),
{
    let mut k: usize = 0;
    let mut left: usize = n;
    proof {
        assert(v@.skip(0) =~= v@);
        assert(v@.take(0) + cut(v@, n as int) =~= cut(v@, n as int));
    }
    while k < v.len() && width_of(v[k]) <= left
        invariant
            k <= v@.len(),
            cuts(v@, n as int) == cuts(v@.skip(k as int), left as int),
            v@.take(k as int) + cut(v@.skip(k as int), left as int) == cut(v@, n as int),
        decreases v.len() - k,
    {
        let w: usize = width_of(v[k]);
        proof {
            let rest = v@.skip(k as int);
            assert(rest.drop_first() =~= v@.skip(k + 1));
            let tail = cut(v@.skip(k + 1), left - w);
            assert(v@.take(k + 1) + tail =~= v@.take(k as int) + (seq![rest[0]] + tail));
            assert(left > 0);
        }
        left -= w;
        k += 1;
    }
    proof {
        assert(v@.take(k as int) + Seq::<char>::empty() =~= v@.take(k as int));
    }
    (k, k == v.len() || left == 0)
}

/// How many bytes `s` takes, or the largest number there is where it takes more.
pub fn saturated(s: &str) -> (r: usize)
    ensures
        r == if byte_len(s@) <= usize::MAX {
            byte_len(s@)
        } else {
            usize::MAX as nat
        },
{
    let v = to_chars(s);
    let mut n: usize = 0;
    let mut k: usize = 0;
    proof {
        assert(v@.skip(0) =~= v@);
    }
    while k < v.len()
        invariant
            k <= v@.len(),
            v@ == s@,
            byte_len(s@) == n + byte_len(v@.skip(k as int)),
        decreases v.len() - k,
    {
        let w: usize = width_of(v[k]);
        proof {
            assert(v@.skip(k as int).drop_first() =~= v@.skip(k + 1));
        }
        if n > usize::MAX - w {
            return usize::MAX;
        }
        n += w;
        k += 1;
    }
    n
}

/// Whether `s` can be cut after `n` bytes.
pub fn can_cut(s: &str, n: usize) -> (r: bool)
    ensures
        r == cuts(s@, n as int),
{
    let v = to_chars(s);
    cut_point(&v, n).1
}

/// The first `n` bytes of `s`, or all of it where it is shorter.
pub fn cut_text(s: &str, n: usize) -> (r: String)
    requires
        cuts(s@, n as int),
    ensures
        r@ == cut(s@, n as int),
{
    let v = to_chars(s);
    let k = cut_point(&v, n).0;
    proof {
        assert(v@.subrange(0, k as int) =~= v@.take(k as int));
    }
    piece(&v, 0, k)
}

/// Whether `s` is longer than `n` bytes.
pub fn longer_than(s: &str, n: usize) -> (r: bool)
    ensures
        r == (byte_len(s@) > n),
{
    let v = to_chars(s);
    let mut k: usize = 0;
    let mut left: usize = n;
    proof {
        assert(v@.skip(0) =~= v@);
    }
    while k < v.len()
        invariant
            k <= v@.len(),
            v@ == s@,
            byte_len(s@) == (n - left) + byte_len(v@.skip(k as int)),
            left <= n,
        decreases v.len() - k,
    {
        let w: usize = width_of(v[k]);
        proof {
            assert(v@.skip(k as int).drop_first() =~= v@.skip(k + 1));
        }
        if w > left {
            return true;
        }
        left -= w;
        k += 1;
    }
    false
}

} // verus!
