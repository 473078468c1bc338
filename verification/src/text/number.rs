//! Decimal numbers in text.
use vstd::prelude::*;

use super::chars;
use super::chars::{digit, piece, to_chars};

verus! {

/// The character of a decimal digit.
pub open spec fn digit_char(d: nat) -> char {
    (48 + d) as char
}

/// `n` in decimal, without leading zeros.
pub open spec fn dec(n: nat) -> Seq<char>
    decreases n,
{
    if n < 10 {
        seq![digit_char(n)]
    } else {
        dec(n / 10).push(digit_char(n % 10))
    }
}

/// `d` in decimal with at least two digits, where `d` is below one hundred.
pub open spec fn dec2(n: nat) -> Seq<char> {
    seq![digit_char(n / 10), digit_char(n % 10)]
}

/// The number that the digits of `s` stand for.
pub open spec fn value(s: Seq<char>) -> nat
    decreases s.len(),
{
    if s.len() == 0 {
        0
    } else {
        (value(s.drop_last()) * 10 + (s.last() as u32 - 48)) as nat
    }
}

/// Whether `s` is made of decimal digits, and is not empty.
pub open spec fn all_digits(s: Seq<char>) -> bool {
    s.len() > 0 && forall|i: int| 0 <= i < s.len() ==> chars::is_digit(#[trigger] s[i])
}

/// The digits of `s` after an optional plus sign.
pub open spec fn unsigned(s: Seq<char>) -> Seq<char> {
    if s.len() > 0 && s[0] == '+' {
        s.skip(1)
    } else {
        s
    }
}

/// The number of 32 bits that `s` is written as: digits, after an optional plus sign.
pub open spec fn parse_u32(s: Seq<char>) -> Option<u32> {
    if all_digits(unsigned(s)) && value(unsigned(s)) <= u32::MAX {
        Some(value(unsigned(s)) as u32)
    } else {
        None
    }
}

/// How many decimal digits `s` begins with.
pub open spec fn digit_run(s: Seq<char>) -> nat
    decreases s.len(),
{
    if s.len() == 0 || !chars::is_digit(s[0]) {
        0
    } else {
        1 + digit_run(s.drop_first())
    }
}

/// The decimal digits that `s` begins with.
pub open spec fn leading_digits(s: Seq<char>) -> Seq<char> {
    s.take(digit_run(s) as int)
}

/// The digits at the start of a text are inside it.
pub proof fn lemma_digit_run(s: Seq<char>)
    ensures
        digit_run(s) <= s.len(),
        forall|i: int| 0 <= i < digit_run(s) ==> chars::is_digit(#[trigger] s[i]),
    decreases s.len(),
{
    if s.len() > 0 && chars::is_digit(s[0]) {
        let t = s.drop_first();
        lemma_digit_run(t);
        assert forall|i: int| 0 <= i < digit_run(s) implies chars::is_digit(#[trigger] s[i]) by {
            if i > 0 {
                assert(s[i] == t[i - 1]);
            }
        }
    }
}

/// A number in decimal is made of digits and is read back as the number.
pub proof fn lemma_dec(n: nat)
    ensures
        all_digits(dec(n)),
        value(dec(n)) == n,
    decreases n,
{
    if n < 10 {
        let s = dec(n);
        assert(s.drop_last() =~= Seq::<char>::empty());
        assert(value(Seq::<char>::empty()) == 0);
        assert(s.last() as u32 == 48 + n);
    } else {
        lemma_dec(n / 10);
        let s = dec(n);
        assert(s.drop_last() =~= dec(n / 10));
        assert(s.last() as u32 == 48 + n % 10);
    }
}

/// Writing a number of 32 bits in decimal and reading it gives the number back.
pub proof fn lemma_parse_dec(n: u32)
    ensures
        parse_u32(dec(n as nat)) == Some(n),
{
    lemma_dec(n as nat);
    let s = dec(n as nat);
    assert(chars::is_digit(s[0]));
    assert(unsigned(s) == s);
}

/// The character of a decimal digit.
fn digit_of(d: u8) -> (c: char)
    requires
        d < 10,
    ensures
        c == digit_char(d as nat),
{
    (48 + d) as char
}

/// `n` in decimal.
pub fn decimal(n: u64) -> (s: String)
    ensures
        s@ == dec(n as nat),
    decreases n,
{
    let d: u8 = (n % 10) as u8;
    let mut s = if n < 10 {
        String::new()
    } else {
        decimal(n / 10)
    };
    s.push(digit_of(d));
    proof {
        if n < 10 {
            assert(s@ =~= seq![digit_char(n as nat)]);
        }
    }
    s
}

/// The number of 32 bits that `s` is written as.
pub fn to_u32(s: &str) -> (r: Option<u32>)
    ensures
        r == parse_u32(s@),
{
    let v = to_chars(s);
    let lo: usize = if v.len() > 0 && v[0] == '+' {
        1
    } else {
        0
    };
    let ghost t = unsigned(s@);
    proof {
        assert(v@.skip(lo as int) =~= t);
    }
    if lo == v.len() {
        return None;
    }
    let mut acc: u64 = 0;
    let mut i: usize = lo;
    while i < v.len()
        invariant
            lo <= i <= v@.len(),
            t == unsigned(s@),
            v@.skip(lo as int) == t,
            forall|k: int| 0 <= k < i - lo ==> chars::is_digit(#[trigger] t[k]),
            acc <= 0x1_0000_0000,
            value(t.take(i - lo)) <= u32::MAX ==> acc == value(t.take(i - lo)),
            value(t.take(i - lo)) > u32::MAX ==> acc == 0x1_0000_0000,
        decreases v.len() - i,
    {
        let c = v[i];
        proof {
            assert(t[i - lo] == c);
        }
        if !digit(c) {
            proof {
                assert(!chars::is_digit(t[i - lo]));
                assert(!all_digits(t));
            }
            return None;
        }
        let d: u64 = (c as u32 - 48) as u64;
        proof {
            assert(t.take(i + 1 - lo).drop_last() =~= t.take(i - lo));
            assert(t.take(i + 1 - lo).last() == c);
        }
        let next: u64 = acc * 10 + d;
        acc = if next > 0xffff_ffff {
            0x1_0000_0000
        } else {
            next
        };
        i += 1;
    }
    proof {
        assert(t.take(i - lo) =~= t);
        assert(all_digits(t));
    }
    if acc > 0xffff_ffff {
        None
    } else {
        Some(acc as u32)
    }
}

/// The decimal digits that the characters of `s` from `at` on begin with.
pub fn digits_at(s: &str, at: usize) -> (r: String)
    requires
        at <= s@.len(),
    ensures
        r@ == leading_digits(s@.skip(at as int)),
{
    let v = to_chars(s);
    let mut k: usize = at;
    while k < v.len() && digit(v[k])
        invariant
            at <= k <= v@.len(),
            digit_run(v@.skip(at as int)) == (k - at) + digit_run(v@.skip(k as int)),
        decreases v.len() - k,
    {
        proof {
            assert(v@.skip(k as int).drop_first() =~= v@.skip(k + 1));
        }
        k += 1;
    }
    proof {
        assert(digit_run(v@.skip(k as int)) == 0);
        assert(v@.subrange(at as int, k as int) =~= v@.skip(at as int).take(k - at));
    }
    piece(&v, at, k)
}

} // verus!
