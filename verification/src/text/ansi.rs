//! Terminal escape codes in text.
use vstd::prelude::*;

use super::chars::to_chars;

verus! {

/// `s` without its escape codes: each begins with the escape character and ends
/// with the next `m`. `inside` tells whether `s` begins inside one.
pub open spec fn plain(s: Seq<char>, inside: bool) -> Seq<char>
    decreases s.len(),
{
    if s.len() == 0 {
        seq![]
    } else if s[0] == '\u{1b}' {
        plain(s.drop_first(), true)
    } else if inside {
        plain(s.drop_first(), s[0] != 'm')
    } else {
        seq![s[0]] + plain(s.drop_first(), false)
    }
}

/// `s` without its escape codes.
pub fn strip_ansi(s: &str) -> (r: String)
    ensures
        r@ == plain(s@, false),
{
    let v = to_chars(s);
    let mut out = String::new();
    let mut inside = false;
    let mut i: usize = 0;
    proof {
        assert(v@.skip(0) =~= v@);
        assert(out@ + plain(v@, false) =~= plain(v@, false));
    }
    while i < v.len()
        invariant
            i <= v@.len(),
            v@ == s@,
            out@ + plain(v@.skip(i as int), inside) == plain(s@, false),
        decreases v.len() - i,
    {
        let c = v[i];
        let ghost before = out@;
        let ghost rest = v@.skip(i as int);
        proof {
            assert(rest.drop_first() =~= v@.skip(i + 1));
        }
        if c == '\u{1b}' {
            inside = true;
        } else if inside {
            if c == 'm' {
                inside = false;
            }
        } else {
            out.push(c);
            proof {
                let tail = plain(v@.skip(i + 1), false);
                assert(before.push(c) + tail =~= before + (seq![c] + tail));
            }
        }
        i += 1;
    }
    proof {
        assert(out@ + plain(v@.skip(i as int), inside) =~= out@);
    }
    out
}

/// How many characters of `s` are seen, its escape codes left out.
/// That is the length of what [`strip_ansi`] leaves.
pub fn strip_ansi_len(s: &str) -> (r: usize)
    ensures
        r == plain(s@, false).len(),
{
    let v = to_chars(strip_ansi(s).as_str());
    v.len()
}

/// What is left of a text without its escape codes holds no escape character, and
/// leaving them out again changes nothing.
pub proof fn law_plain_is_plain(s: Seq<char>, inside: bool)
    ensures
        !plain(s, inside).contains('\u{1b}'),
        plain(plain(s, inside), false) == plain(s, inside),
    decreases s.len(),
{
    let t = plain(s, inside);
    if s.len() > 0 {
        let rest = s.drop_first();
        if s[0] == '\u{1b}' {
            law_plain_is_plain(rest, true);
        } else if inside {
            law_plain_is_plain(rest, s[0] != 'm');
        } else {
            law_plain_is_plain(rest, false);
            let u = plain(rest, false);
            assert(t.drop_first() =~= u);
            if t.contains('\u{1b}') {
                let k = choose|k: int| 0 <= k < t.len() && t[k] == '\u{1b}';
                assert(u[k - 1] == '\u{1b}');
            }
        }
    }
}

/// A text without escape characters is left as it is.
pub proof fn law_plain_kept(s: Seq<char>)
    requires
        !s.contains('\u{1b}'),
    ensures
        plain(s, false) == s,
    decreases s.len(),
{
    if s.len() > 0 {
        let rest = s.drop_first();
        assert(s[0] != '\u{1b}');
        if rest.contains('\u{1b}') {
            let k = choose|k: int| 0 <= k < rest.len() && rest[k] == '\u{1b}';
            assert(s[k + 1] == '\u{1b}');
        }
        law_plain_kept(rest);
        assert(seq![s[0]] + rest =~= s);
    }
}

} // verus!
