//! What the operations on the list of commits do to each of its places.
use vstd::prelude::*;

use crate::stack;
use crate::stack::PatchView;
use crate::text::number;
use crate::text::pieces;

verus! {

/// Moving a commit shifts those between its old and its new place by one, towards the old
/// place, and leaves the others where they are.
pub proof fn law_moved_places(p: Seq<PatchView>, from: int, to: int, k: int)
    requires
        0 <= from < p.len(),
        0 <= to < p.len(),
        0 <= k < p.len(),
    ensures
        ({
            let q = stack::moved(p, from, to);
            &&& q.len() == p.len()
            &&& q[to] == p[from]
            &&& from <= k < to ==> q[k] == p[k + 1]
            &&& to < k <= from ==> q[k] == p[k - 1]
            &&& k < from && k < to ==> q[k] == p[k]
            &&& k > from && k > to ==> q[k] == p[k]
        }),
{
}

/// What a commit becomes that others are folded into: it is the same commit, its subject says
/// how many were folded, and their subjects follow its body on lines of their own.
pub proof fn law_folded_text(t: PatchView, first: Seq<char>, second: Seq<char>)
    ensures
        ({
            let one = stack::fold_into(t, seq![first]);
            let two = stack::fold_into(t, seq![first, second]);
            &&& one.hash == t.hash
            &&& one.author == t.author
            &&& one.status == t.status
            &&& one.pr_number == t.pr_number
            &&& one.subject == t.subject + " (+"@ + number::dec(1) + " squashed)"@
            &&& two.subject == t.subject + " (+"@ + number::dec(2) + " squashed)"@
            &&& t.body.len() == 0 ==> one.body == first && two.body == first + seq!['\n'] + second
            &&& t.body.len() > 0 ==> one.body == t.body + seq!['\n'] + first && two.body == t.body
                + seq!['\n'] + first + seq!['\n'] + second
        }),
{
    reveal_strlit("\n");
    assert("\n"@ =~= seq!['\n']);
    let both = seq![first, second];
    assert(both.drop_last() =~= seq![first]);
    assert(pieces::join(seq![first], "\n"@) == first);
    assert(pieces::join(both, "\n"@) =~= first + seq!['\n'] + second);
    assert(t.body + seq!['\n'] + (first + seq!['\n'] + second) =~= t.body + seq!['\n'] + first + seq![
        '\n',
    ] + second);
}

/// Squashing two commits leaves the older one with the newer one's subject in its body, takes
/// the newer one out, and keeps all the others in their order.
pub proof fn law_squash_two(p: Seq<PatchView>, i: usize, j: usize, swapped: bool)
    requires
        i < j < p.len(),
    ensures
        ({
            let sel = if swapped {
                seq![j, i]
            } else {
                seq![i, j]
            };
            let q = stack::squashed(p, sel);
            &&& q == p.update(
                i as int,
                stack::fold_into(p[i as int], seq![p[j as int].subject]),
            ).remove(j as int)
        }),
{
    let sel = if swapped {
        seq![j, i]
    } else {
        seq![i, j]
    };
    assert(sel.drop_last() =~= seq![sel[0]]);
    assert(stack::lowest(seq![sel[0]]) == sel[0]);
    assert(stack::lowest(sel) == i);
    assert forall|k: int| #[trigger] stack::folded(sel, k) == (k == j) by {
        if k == j {
            if swapped {
                assert(sel[0] == j);
            } else {
                assert(sel[1] == j);
            }
        }
    }
    lemma_one_subject(p, sel, j as int, 0);
    let q = p.update(i as int, stack::fold_into(p[i as int], seq![p[j as int].subject]));
    lemma_one_out(q, sel, j as int, 0);
    assert(q.skip(0) =~= q);
}

proof fn lemma_one_subject(p: Seq<PatchView>, sel: Seq<usize>, j: int, from: int)
    requires
        0 <= from <= p.len(),
        0 <= j < p.len(),
        forall|k: int| #[trigger] stack::folded(sel, k) == (k == j),
    ensures
        from <= j ==> stack::folded_subjects(p, sel, from) == seq![p[j].subject],
        from > j ==> stack::folded_subjects(p, sel, from) == Seq::<Seq<char>>::empty(),
    decreases p.len() - from,
{
    if from < p.len() {
        assert(stack::folded(sel, from) == (from == j));
        lemma_one_subject(p, sel, j, from + 1);
        if from == j {
            assert(seq![p[j].subject] + Seq::<Seq<char>>::empty() =~= seq![p[j].subject]);
        }
    }
}

proof fn lemma_one_out(q: Seq<PatchView>, sel: Seq<usize>, j: int, from: int)
    requires
        0 <= from <= q.len(),
        0 <= j < q.len(),
        forall|k: int| #[trigger] stack::folded(sel, k) == (k == j),
    ensures
        from <= j ==> stack::unfolded(q, sel, from) == q.skip(from).remove(j - from),
        from > j ==> stack::unfolded(q, sel, from) == q.skip(from),
    decreases q.len() - from,
{
    if from < q.len() {
        assert(stack::folded(sel, from) == (from == j));
        lemma_one_out(q, sel, j, from + 1);
        if from == j {
            assert(q.skip(from).remove(0) =~= q.skip(from + 1));
        } else if from < j {
            assert(seq![q[from]] + q.skip(from + 1).remove(j - from - 1) =~= q.skip(from).remove(
                j - from,
            ));
        } else {
            assert(seq![q[from]] + q.skip(from + 1) =~= q.skip(from));
        }
    } else {
        assert(q.skip(from) =~= Seq::<PatchView>::empty());
    }
}

/// A squash without places is refused, and so is one with places outside the stack, unless it
/// is about one place alone.
pub proof fn law_squash_refused(p: Seq<PatchView>, i: usize, j: usize)
    ensures
        stack::squash_error(p, seq![]) is Some,
        stack::squash_error(p, seq![i]) is None,
        i != j && (i >= p.len() || j >= p.len()) ==> stack::squash_error(p, seq![i, j]) is Some,
        i < p.len() && j < p.len() ==> stack::squash_error(p, seq![i, j]) is None,
{
    let two = seq![i, j];
    assert(two[0] == i && two[1] == j);
}

} // verus!
