//! A table from texts to values, in the order in which the texts were first put in.
use vstd::prelude::*;

use crate::text::chars::same;

verus! {

/// The value of `k`, if there is one.
pub open spec fn lookup<T>(t: Seq<(Seq<char>, T)>, k: Seq<char>) -> Option<T>
    decreases t.len(),
{
    if t.len() == 0 {
        None
    } else if t[0].0 == k {
        Some(t[0].1)
    } else {
        lookup(t.drop_first(), k)
    }
}

/// The table in which `k` has the value `v` and all else is as in `t`: in the place
/// that `k` has in `t`, or at the end.
pub open spec fn put<T>(t: Seq<(Seq<char>, T)>, k: Seq<char>, v: T) -> Seq<(Seq<char>, T)>
    decreases t.len(),
{
    if t.len() == 0 {
        seq![(k, v)]
    } else if t[0].0 == k {
        seq![(k, v)] + t.drop_first()
    } else {
        seq![t[0]] + put(t.drop_first(), k, v)
    }
}

/// What was put in is found, and putting it in changes no other value.
pub proof fn law_put_lookup<T>(t: Seq<(Seq<char>, T)>, k: Seq<char>, v: T, j: Seq<char>)
    ensures
        lookup(put(t, k, v), j) == if j == k {
            Some(v)
        } else {
            lookup(t, j)
        },
    decreases t.len(),
{
    let p = put(t, k, v);
    if t.len() == 0 {
        assert(p.drop_first() =~= Seq::empty());
        assert(lookup(p.drop_first(), j) is None);
    } else if t[0].0 == k {
        assert(p.drop_first() =~= t.drop_first());
    } else {
        assert(p.drop_first() =~= put(t.drop_first(), k, v));
        law_put_lookup(t.drop_first(), k, v, j);
    }
}

/// Whether no two entries have the same key.
pub open spec fn distinct_keys<T>(t: Seq<(Seq<char>, T)>) -> bool {
    forall|i: int, j: int| 0 <= i < j < t.len() ==> (#[trigger] t[i]).0 != (#[trigger] t[j]).0
}

/// Nothing occurs twice: there is no entry at first, and putting one in keeps the keys
/// distinct and brings in no other key.
pub proof fn law_keys_distinct<T>(t: Seq<(Seq<char>, T)>, k: Seq<char>, v: T)
    requires
        distinct_keys(t),
    ensures
        distinct_keys(Seq::<(Seq<char>, T)>::empty()),
        distinct_keys(put(t, k, v)),
        forall|i: int|
            0 <= i < put(t, k, v).len() ==> ((#[trigger] put(t, k, v)[i]).0 == k
                || exists|j: int| 0 <= j < t.len() && (#[trigger] t[j]).0 == put(t, k, v)[i].0),
    decreases t.len(),
{
    let p = put(t, k, v);
    if t.len() == 0 {
    } else if t[0].0 == k {
        assert forall|i: int, j: int| 0 <= i < j < p.len() implies (#[trigger] p[i]).0 != (
        #[trigger] p[j]).0 by {
            assert(p[i].0 == t[i].0);
            assert(p[j] == t[j]);
        }
        assert forall|i: int| 0 <= i < p.len() implies ((#[trigger] p[i]).0 == k || exists|j: int|
            0 <= j < t.len() && (#[trigger] t[j]).0 == p[i].0) by {
            assert(t[i].0 == p[i].0);
        }
    } else {
        let d = t.drop_first();
        assert forall|i: int, j: int| 0 <= i < j < d.len() implies (#[trigger] d[i]).0 != (
        #[trigger] d[j]).0 by {
            assert(d[i] == t[i + 1]);
            assert(d[j] == t[j + 1]);
        }
        law_keys_distinct(d, k, v);
        let q = put(d, k, v);
        assert(p =~= seq![t[0]] + q);
        assert forall|i: int| 0 <= i < p.len() implies ((#[trigger] p[i]).0 == k || exists|j: int|
            0 <= j < t.len() && (#[trigger] t[j]).0 == p[i].0) by {
            if i == 0 {
                assert(t[0].0 == p[0].0);
            } else {
                assert(p[i] == q[i - 1]);
                if q[i - 1].0 != k {
                    let j = choose|j: int| 0 <= j < d.len() && (#[trigger] d[j]).0 == q[i - 1].0;
                    assert(t[j + 1].0 == p[i].0);
                }
            }
        }
        assert forall|i: int, j: int| 0 <= i < j < p.len() implies (#[trigger] p[i]).0 != (
        #[trigger] p[j]).0 by {
            assert(p[j] == q[j - 1]);
            if i == 0 {
                if q[j - 1].0 != k {
                    let m = choose|m: int| 0 <= m < d.len() && (#[trigger] d[m]).0 == q[j - 1].0;
                    assert(d[m] == t[m + 1]);
                    assert(t[0].0 != t[m + 1].0);
                }
            } else {
                assert(p[i] == q[i - 1]);
            }
        }
    }
}

/// A table from texts to values.
pub struct StrMap<V> {
    /// The texts with their values.
    pub entries: Vec<(String, V)>,
}

/// The texts with their values, as they are seen in contracts.
pub open spec fn pairs<V: View>(s: Seq<(String, V)>) -> Seq<(Seq<char>, V::V)> {
    s.map_values(|e: (String, V)| (e.0@, e.1@))
}

impl<V: View> View for StrMap<V> {
    type V = Seq<(Seq<char>, V::V)>;

    open spec fn view(&self) -> Seq<(Seq<char>, V::V)> {
        pairs(self.entries@)
    }
}

impl<V: View> StrMap<V> {
    /// The table without entries.
    pub fn new() -> (r: StrMap<V>)
        ensures
            r@ == Seq::<(Seq<char>, V::V)>::empty(),
    {
        let r = StrMap { entries: Vec::new() };
        proof {
            assert(r@ =~= Seq::<(Seq<char>, V::V)>::empty());
        }
        r
    }

    /// Where `k` stands.
    fn position(&self, k: &str) -> (r: Option<usize>)
        ensures
            match r {
                Some(i) => i < self@.len() && self@[i as int].0 == k@ && lookup(self@, k@) == Some(
                    self@[i as int].1,
                ) && forall|j: int| 0 <= j < i ==> (#[trigger] self@[j]).0 != k@,
                None => lookup(self@, k@) is None && forall|j: int|
                    0 <= j < self@.len() ==> (#[trigger] self@[j]).0 != k@,
            },
    {
        let mut i: usize = 0;
        proof {
            assert(self@.skip(0) =~= self@);
        }
        while i < self.entries.len()
            invariant
                i <= self@.len() == self.entries@.len(),
                lookup(self@, k@) == lookup(self@.skip(i as int), k@),
                forall|j: int| 0 <= j < i ==> (#[trigger] self@[j]).0 != k@,
            decreases self.entries.len() - i,
        {
            proof {
                assert(self@.skip(i as int)[0] == self@[i as int]);
                assert(self@.skip(i as int).drop_first() =~= self@.skip(i + 1));
            }
            if same(self.entries[i].0.as_str(), k) {
                return Some(i);
            }
            i += 1;
        }
        None
    }

    /// The value of `k`.
    pub fn get(&self, k: &str) -> (r: Option<&V>)
        ensures
            match r {
                Some(v) => lookup(self@, k@) == Some(v@),
                None => lookup(self@, k@) is None,
            },
    {
        match self.position(k) {
            Some(i) => Some(&self.entries[i].1),
            None => None,
        }
    }

    /// Whether `k` has a value.
    pub fn contains_key(&self, k: &str) -> (r: bool)
        ensures
            r == (lookup(self@, k@) is Some),
    {
        self.position(k).is_some()
    }

    /// Whether no text has a value.
    pub fn is_empty(&self) -> (r: bool)
        ensures
            r == (self@.len() == 0),
    {
        self.entries.len() == 0
    }

    /// Gives `k` the value `v`.
    pub fn insert(&mut self, k: String, v: V)
        ensures
            final(self)@ == put(old(self)@, k@, v@),
    {
        let ghost t = self@;
        match self.position(k.as_str()) {
            Some(i) => {
                proof {
                    lemma_put_at(t, k@, v@, i as int);
                }
                self.entries.set(i, (k, v));
                proof {
                    assert(self@ =~= t.update(i as int, (k@, v@)));
                }
            },
            None => {
                proof {
                    lemma_put_new(t, k@, v@);
                }
                self.entries.push((k, v));
                proof {
                    assert(self@ =~= t.push((k@, v@)));
                }
            },
        }
    }
}

/// Putting in a text that first stands at `i` changes the entry at `i`.
proof fn lemma_put_at<T>(t: Seq<(Seq<char>, T)>, k: Seq<char>, v: T, i: int)
    requires
        0 <= i < t.len(),
        t[i].0 == k,
        forall|j: int| 0 <= j < i ==> (#[trigger] t[j]).0 != k,
    ensures
        put(t, k, v) == t.update(i, (k, v)),
    decreases t.len(),
{
    if i == 0 {
        assert(put(t, k, v) =~= t.update(0, (k, v)));
    } else {
        let r = t.drop_first();
        assert forall|j: int| 0 <= j < i - 1 implies (#[trigger] r[j]).0 != k by {
            assert(r[j] == t[j + 1]);
        }
        lemma_put_at(r, k, v, i - 1);
        assert(t[0].0 != k);
        assert(put(t, k, v) =~= t.update(i, (k, v)));
    }
}

/// Putting in a new text appends it.
proof fn lemma_put_new<T>(t: Seq<(Seq<char>, T)>, k: Seq<char>, v: T)
    requires
        forall|j: int| 0 <= j < t.len() ==> (#[trigger] t[j]).0 != k,
    ensures
        put(t, k, v) == t.push((k, v)),
    decreases t.len(),
{
    if t.len() == 0 {
        assert(put(t, k, v) =~= t.push((k, v)));
    } else {
        let r = t.drop_first();
        assert forall|j: int| 0 <= j < r.len() implies (#[trigger] r[j]).0 != k by {
            assert(r[j] == t[j + 1]);
        }
        lemma_put_new(r, k, v);
        assert(t[0].0 != k);
        assert(put(t, k, v) =~= t.push((k, v)));
    }
}

} // verus!
