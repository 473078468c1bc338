//! The order of texts, and sorting by it.
use vstd::prelude::*;

use super::chars::to_chars;
use super::views;

verus! {

broadcast use views::group_views;

/// Whether `a` stands before `b` or is the same text, character by character.
pub open spec fn le(a: Seq<char>, b: Seq<char>) -> bool
    decreases a.len(),
{
    if a.len() == 0 {
        true
    } else if b.len() == 0 {
        false
    } else if a[0] != b[0] {
        a[0] < b[0]
    } else {
        le(a.drop_first(), b.drop_first())
    }
}

/// Whether each text stands before those after it, or is the same.
pub open spec fn sorted(s: Seq<Seq<char>>) -> bool {
    forall|i: int, j: int| 0 <= i < j < s.len() ==> le(#[trigger] s[i], #[trigger] s[j])
}

/// Of two texts, one stands before the other, or they are the same.
pub proof fn lemma_le_total(a: Seq<char>, b: Seq<char>)
    ensures
        le(a, b) || le(b, a),
    decreases a.len(),
{
    if a.len() > 0 && b.len() > 0 && a[0] == b[0] {
        lemma_le_total(a.drop_first(), b.drop_first());
    }
}

/// What stands before a text stands before all that follow it.
pub proof fn lemma_le_trans(a: Seq<char>, b: Seq<char>, c: Seq<char>)
    requires
        le(a, b),
        le(b, c),
    ensures
        le(a, c),
    decreases a.len(),
{
    if a.len() > 0 && b.len() > 0 && c.len() > 0 && a[0] == b[0] && b[0] == c[0] {
        lemma_le_trans(a.drop_first(), b.drop_first(), c.drop_first());
    }
}

/// Whether `a` stands before `b` or is the same text.
pub fn before(a: &str, b: &str) -> (r: bool)
    ensures
        r == le(a@, b@),
{
    let x = to_chars(a);
    let y = to_chars(b);
    let mut i: usize = 0;
    proof {
        assert(x@.skip(0) =~= x@);
        assert(y@.skip(0) =~= y@);
    }
    while i < x.len() && i < y.len()
        invariant
            i <= x@.len(),
            i <= y@.len(),
            x@ == a@,
            y@ == b@,
            le(a@, b@) == le(x@.skip(i as int), y@.skip(i as int)),
        decreases x.len() - i,
    {
        proof {
            assert(x@.skip(i as int).drop_first() =~= x@.skip(i + 1));
            assert(y@.skip(i as int).drop_first() =~= y@.skip(i + 1));
        }
        if x[i] != y[i] {
            return x[i] < y[i];
        }
        i += 1;
    }
    i == x.len()
}

/// Puts a text into its place in a sorted list.
fn put_in(v: &mut Vec<String>, s: String)
    requires
        sorted(views::strs(old(v)@)),
    ensures
        sorted(views::strs(final(v)@)),
        views::strs(final(v)@).to_multiset() =~= views::strs(old(v)@).to_multiset().insert(s@),
{
    let ghost t = views::strs(v@);
    let mut k: usize = v.len();
    while k > 0 && !before(v[k - 1].as_str(), s.as_str())
        invariant
            k <= v@.len(),
            t == views::strs(v@),
            sorted(t),
            forall|j: int| k <= j < t.len() ==> le(s@, #[trigger] t[j]),
        decreases k,
    {
        proof {
            assert(t[k - 1] == v@[k - 1]@);
            lemma_le_total(s@, t[k - 1]);
        }
        k -= 1;
    }
    proof {
        if k > 0 {
            assert(t[k - 1] == v@[k - 1]@);
            assert(le(t[k - 1], s@));
            assert forall|j: int| 0 <= j < k implies le(#[trigger] t[j], s@) by {
                if j < k - 1 {
                    assert(le(t[j], t[k - 1]));
                    lemma_le_trans(t[j], t[k - 1], s@);
                }
            }
        }
        let u = t.insert(k as int, s@);
        assert forall|i: int, j: int| 0 <= i < j < u.len() implies le(
            #[trigger] u[i],
            #[trigger] u[j],
        ) by {
            let a = if i < k {
                i
            } else {
                i - 1
            };
            let b = if j < k {
                j
            } else {
                j - 1
            };
            if i != k {
                assert(u[i] == t[a]);
            }
            if j != k {
                assert(u[j] == t[b]);
            }
        }
        t.insert_ensures(k as int, s@);
        vstd::seq_lib::to_multiset_insert(t, k as int, s@);
    }
    v.insert(k, s);
    proof {
        assert(views::strs(v@) =~= t.insert(k as int, s@));
    }
}

/// The texts in their order.
pub fn sort(names: Vec<String>) -> (r: Vec<String>)
    ensures
        sorted(views::strs(r@)),
        views::strs(r@).to_multiset() =~= views::strs(names@).to_multiset(),
{
    let ghost all = views::strs(names@);
    let mut v: Vec<String> = Vec::new();
    let mut i: usize = 0;
    proof {
        assert(all.take(0) =~= Seq::<Seq<char>>::empty());
    }
    while i < names.len()
        invariant
            i <= names@.len(),
            all == views::strs(names@),
            sorted(views::strs(v@)),
            views::strs(v@).to_multiset() =~= all.take(i as int).to_multiset(),
        decreases names.len() - i,
    {
        put_in(&mut v, names[i].clone());
        proof {
            assert(all.take(i + 1) =~= all.take(i as int).push(all[i as int]));
            all.take(i as int).to_multiset_ensures();
        }
        i += 1;
    }
    proof {
        assert(all.take(i as int) =~= all);
    }
    v
}

} // verus!
