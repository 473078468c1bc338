//! The stack: the commits between the base branch and HEAD, oldest first.
use vstd::prelude::*;

use crate::text::chars::copy_opt;
use crate::text::number;
use crate::text::number::decimal;
use crate::text::pieces;
use crate::text::pieces::joined;
use crate::text::views;

verus! {

broadcast use views::group_views;

/// Where a commit stands on its way into the base branch.
#[derive(Debug, Clone, Copy, PartialEq, Eq, Structural)]
pub enum PatchStatus {
    Clean,
    Conflict,
    Editing,
    Submitted,
    Merged,
}

impl Default for PatchStatus {
    fn default() -> (r: PatchStatus)
        ensures
            r == PatchStatus::Clean,
    {
        PatchStatus::Clean
    }
}

/// A single commit entry in the stack.
#[derive(Debug, PartialEq)]
pub struct PatchEntry {
    pub hash: String,
    pub subject: String,
    pub body: String,
    pub author: String,
    pub timestamp: String,
    /// The branch that carries the commit to review.
    pub pr_branch: Option<String>,
    /// If a PR has been created for this commit
    pub pr_number: Option<u32>,
    pub pr_url: Option<String>,
    /// Current status in the stack
    pub status: PatchStatus,
}

/// A commit entry as it is seen in contracts.
#[verifier::ext_equal]
pub struct PatchView {
    pub hash: Seq<char>,
    pub subject: Seq<char>,
    pub body: Seq<char>,
    pub author: Seq<char>,
    pub timestamp: Seq<char>,
    pub pr_branch: Option<Seq<char>>,
    pub pr_number: Option<u32>,
    pub pr_url: Option<Seq<char>>,
    pub status: PatchStatus,
}

impl View for PatchEntry {
    type V = PatchView;

    open spec fn view(&self) -> PatchView {
        PatchView {
            hash: self.hash@,
            subject: self.subject@,
            body: self.body@,
            author: self.author@,
            timestamp: self.timestamp@,
            pr_branch: views::opt(self.pr_branch),
            pr_number: self.pr_number,
            pr_url: views::opt(self.pr_url),
            status: self.status,
        }
    }
}

impl Clone for PatchEntry {
    fn clone(&self) -> (r: PatchEntry)
        ensures
            r@ == self@,
    {
        PatchEntry {
            hash: self.hash.clone(),
            subject: self.subject.clone(),
            body: self.body.clone(),
            author: self.author.clone(),
            timestamp: self.timestamp.clone(),
            pr_branch: copy_opt(&self.pr_branch),
            pr_number: self.pr_number,
            pr_url: copy_opt(&self.pr_url),
            status: self.status,
        }
    }
}

impl PatchEntry {
    /// Create a minimal entry (useful for testing and placeholders).
    pub fn new(hash: &str, subject: &str) -> (r: PatchEntry)
        ensures
            r@ == (PatchView {
                hash: hash@,
                subject: subject@,
                body: seq![],
                author: seq![],
                timestamp: seq![],
                pr_branch: None,
                pr_number: None,
                pr_url: None,
                status: PatchStatus::Clean,
            }),
    {
        PatchEntry {
            hash: hash.to_owned(),
            subject: subject.to_owned(),
            body: String::new(),
            author: String::new(),
            timestamp: String::new(),
            pr_branch: None,
            pr_number: None,
            pr_url: None,
            status: PatchStatus::default(),
        }
    }
}

/// The entries that a vector holds.
pub open spec fn patches(v: Seq<PatchEntry>) -> Seq<PatchView> {
    v.map_values(|p: PatchEntry| p@)
}

/// A copy of a vector of entries.
pub fn copy_patches(v: &Vec<PatchEntry>) -> (r: Vec<PatchEntry>)
    ensures
        patches(r@) == patches(v@),
{
    let mut r: Vec<PatchEntry> = Vec::new();
    let mut i: usize = 0;
    while i < v.len()
        invariant
            i <= v@.len(),
            patches(r@) == patches(v@.take(i as int)),
        decreases v.len() - i,
    {
        r.push(v[i].clone());
        proof {
            assert(patches(r@) =~= patches(v@.take(i + 1))) by {
                assert(v@.take(i + 1) =~= v@.take(i as int).push(v@[i as int]));
                assert(patches(v@.take(i + 1)) =~= patches(v@.take(i as int)).push(v@[i as int]@));
                assert(patches(r@) =~= patches(r@.drop_last()).push(r@.last()@));
                assert(r@.drop_last().push(r@.last()) =~= r@);
            }
        }
        i += 1;
    }
    proof {
        assert(v@.take(i as int) =~= v@);
    }
    r
}

/// The full stack state — an ordered list of patches from bottom (oldest) to top (newest).
#[derive(Debug, PartialEq)]
pub struct Stack {
    /// Base branch this stack is built on (e.g. "main", "origin/main")
    pub base: String,
    /// Ordered patches, index 0 = bottom of stack (oldest)
    pub patches: Vec<PatchEntry>,
}

/// The stack as it is seen in contracts.
#[verifier::ext_equal]
pub struct StackView {
    pub base: Seq<char>,
    pub patches: Seq<PatchView>,
}

impl View for Stack {
    type V = StackView;

    open spec fn view(&self) -> StackView {
        StackView { base: self.base@, patches: patches(self.patches@) }
    }
}

impl Clone for Stack {
    fn clone(&self) -> (r: Stack)
        ensures
            r@ == self@,
    {
        Stack { base: self.base.clone(), patches: copy_patches(&self.patches) }
    }
}

/// Why an operation on the stack was refused.
#[derive(Debug, Clone, Copy, PartialEq, Eq, Structural)]
pub enum StackError {
    EmptySelection,
    OutOfBounds,
}

impl StackError {
    /// The error in words.
    pub fn message(&self) -> (r: String)
        ensures
            r@ == match self {
                StackError::EmptySelection => "no patches selected"@,
                StackError::OutOfBounds => "index out of bounds"@,
            },
    {
        match self {
            StackError::EmptySelection => "no patches selected".to_owned(),
            StackError::OutOfBounds => "index out of bounds".to_owned(),
        }
    }
}

/// Whether all selected places are the same one.
pub open spec fn one_place(sel: Seq<usize>) -> bool {
    forall|i: int, j: int| 0 <= i < sel.len() && 0 <= j < sel.len() ==> sel[i] == sel[j]
}

/// Whether every selected place holds an entry of a stack of `n`.
pub open spec fn in_bounds(sel: Seq<usize>, n: nat) -> bool {
    forall|i: int| 0 <= i < sel.len() ==> (#[trigger] sel[i]) < n
}

/// The lowest selected place.
pub open spec fn lowest(sel: Seq<usize>) -> usize
    decreases sel.len(),
{
    if sel.len() <= 1 {
        sel[0]
    } else {
        let m = lowest(sel.drop_last());
        if sel.last() < m {
            sel.last()
        } else {
            m
        }
    }
}

/// Whether the entry at `i` is folded into the lowest selected one.
pub open spec fn folded(sel: Seq<usize>, i: int) -> bool {
    exists|k: int| 0 <= k < sel.len() && #[trigger] sel[k] == i && i != lowest(sel)
}

/// The subjects of the folded entries from place `i` on, oldest first.
pub open spec fn folded_subjects(p: Seq<PatchView>, sel: Seq<usize>, i: int) -> Seq<Seq<char>>
    decreases p.len() - i,
{
    if i < 0 || i >= p.len() {
        seq![]
    } else if folded(sel, i) {
        seq![p[i].subject] + folded_subjects(p, sel, i + 1)
    } else {
        folded_subjects(p, sel, i + 1)
    }
}

/// The entries from place `i` on that are not folded.
pub open spec fn unfolded(p: Seq<PatchView>, sel: Seq<usize>, i: int) -> Seq<PatchView>
    decreases p.len() - i,
{
    if i < 0 || i >= p.len() {
        seq![]
    } else if folded(sel, i) {
        unfolded(p, sel, i + 1)
    } else {
        seq![p[i]] + unfolded(p, sel, i + 1)
    }
}

/// An entry into which entries with these subjects are folded.
pub open spec fn fold_into(t: PatchView, subjects: Seq<Seq<char>>) -> PatchView {
    let more = pieces::join(subjects, "\n"@);
    PatchView {
        body: if t.body.len() == 0 {
            more
        } else {
            t.body + "\n"@ + more
        },
        subject: t.subject + " (+"@ + number::dec(subjects.len()) + " squashed)"@,
        ..t
    }
}

/// The stack with the selected entries folded into the lowest of them.
pub open spec fn squashed(p: Seq<PatchView>, sel: Seq<usize>) -> Seq<PatchView> {
    let t = lowest(sel) as int;
    unfolded(p.update(t, fold_into(p[t], folded_subjects(p, sel, 0))), sel, 0)
}

/// What squashing the selected entries answers.
pub open spec fn squash_error(p: Seq<PatchView>, sel: Seq<usize>) -> Option<StackError> {
    if sel.len() == 0 {
        Some(StackError::EmptySelection)
    } else if one_place(sel) || in_bounds(sel, p.len()) {
        None
    } else {
        Some(StackError::OutOfBounds)
    }
}

/// The entries with the one at `from` taken out and put back at `to`.
pub open spec fn moved(p: Seq<PatchView>, from: int, to: int) -> Seq<PatchView> {
    p.remove(from).insert(to, p[from])
}

/// The lowest selected place is selected, and none is below it.
pub proof fn lemma_lowest(sel: Seq<usize>)
    requires
        sel.len() > 0,
    ensures
        sel.contains(lowest(sel)),
        forall|i: int| 0 <= i < sel.len() ==> lowest(sel) <= #[trigger] sel[i],
    decreases sel.len(),
{
    if sel.len() == 1 {
        assert(sel[0] == lowest(sel));
    } else {
        let d = sel.drop_last();
        lemma_lowest(d);
        let m = lowest(d);
        let k = choose|k: int| 0 <= k < d.len() && d[k] == m;
        assert(sel[k] == m);
        assert(sel[sel.len() - 1] == sel.last());
        assert forall|i: int| 0 <= i < sel.len() implies lowest(sel) <= #[trigger] sel[i] by {
            if i < d.len() {
                assert(d[i] == sel[i]);
            }
        }
    }
}

impl Stack {
    /// A stack on `base`.
    pub fn new(base: String, patches: Vec<PatchEntry>) -> (r: Stack)
        ensures
            r@ == (StackView { base: base@, patches: self::patches(patches@) }),
    {
        Stack { base, patches }
    }

    /// How many patches there are.
    pub fn len(&self) -> (r: usize)
        ensures
            r == self@.patches.len(),
    {
        self.patches.len()
    }

    /// Whether there is no patch.
    pub fn is_empty(&self) -> (r: bool)
        ensures
            r == (self@.patches.len() == 0),
    {
        self.patches.len() == 0
    }

    /// Squash patches at `indices` into the lowest-indexed one.
    pub fn squash(&mut self, indices: &[usize]) -> (r: Result<(), StackError>)
        ensures
            match squash_error(old(self)@.patches, indices@) {
                Some(e) => r == Err::<(), StackError>(e) && final(self)@ == old(self)@,
                None => r is Ok && final(self)@ == (StackView {
                    patches: if one_place(indices@) {
                        old(self)@.patches
                    } else {
                        squashed(old(self)@.patches, indices@)
                    },
                    ..old(self)@
                }),
            },
    {
        let n: usize = self.patches.len();
        if indices.len() == 0 {
            return Err(StackError::EmptySelection);
        }
        let ghost p = self@.patches;
        let ghost sel = indices@;
        let first: usize = indices[0];
        let mut low: usize = first;
        let mut single = true;
        let mut inside = true;
        let mut marks: Vec<bool> = Vec::new();
        let mut i: usize = 0;
        while i < n
            invariant
                i <= n,
                marks@.len() == i,
                forall|j: int| 0 <= j < i ==> !#[trigger] marks@[j],
            decreases n - i,
        {
            marks.push(false);
            i += 1;
        }
        let mut k: usize = 0;
        while k < indices.len()
            invariant
                k <= sel.len(),
                sel == indices@,
                sel.len() > 0,
                first == sel[0],
                n == p.len(),
                marks@.len() == n,
                single == (forall|j: int| 0 <= j < k ==> #[trigger] sel[j] == first),
                inside == (forall|j: int| 0 <= j < k ==> #[trigger] sel[j] < n),
                k == 0 ==> low == first,
                k > 0 ==> low == lowest(sel.take(k as int)),
                forall|m: int|
                    0 <= m < n ==> #[trigger] marks@[m] == (exists|j: int|
                        0 <= j < k && #[trigger] sel[j] == m),
            decreases sel.len() - k,
        {
            let x: usize = indices[k];
            let ghost before = marks@;
            if x != first {
                single = false;
            }
            if x < n {
                marks.set(x, true);
            } else {
                inside = false;
            }
            proof {
                assert(sel.take(k + 1).drop_last() =~= sel.take(k as int));
                assert(sel.take(k + 1).last() == x);
                assert(sel[k as int] == x);
                assert forall|m: int| 0 <= m < n implies #[trigger] marks@[m] == (exists|j: int|
                    0 <= j < k + 1 && #[trigger] sel[j] == m) by {
                    if m == x {
                        assert(sel[k as int] == m);
                    } else {
                        assert(marks@[m] == before[m]);
                        if before[m] {
                            let j = choose|j: int| 0 <= j < k && #[trigger] sel[j] == m;
                            assert(sel[j] == m);
                        }
                    }
                }
            }
            if x < low {
                low = x;
            }
            k += 1;
        }
        proof {
            assert(sel.take(k as int) =~= sel);
            lemma_lowest(sel);
            assert(single == one_place(sel)) by {
                if single {
                    assert forall|a: int, b: int|
                        0 <= a < sel.len() && 0 <= b < sel.len() implies sel[a] == sel[b] by {}
                }
            }
        }
        if single {
            return Ok(());
        }
        if !inside {
            return Err(StackError::OutOfBounds);
        }
        proof {
            assert forall|m: int| 0 <= m < n implies folded(sel, m) == (#[trigger] marks@[m] && m
                != low) by {
                if marks@[m] && m != low {
                    let j = choose|j: int| 0 <= j < k && #[trigger] sel[j] == m;
                    assert(sel[j] == m);
                }
            }
        }
        let target: usize = low;

        let mut subjects: Vec<String> = Vec::new();
        let mut a: usize = 0;
        proof {
            assert(views::strs(subjects@) + folded_subjects(p, sel, 0) =~= folded_subjects(
                p,
                sel,
                0,
            ));
        }
        while a < n
            invariant
                a <= n == p.len() == self.patches@.len() == marks@.len(),
                p == patches(self.patches@),
                forall|m: int|
                    0 <= m < n ==> folded(sel, m) == (#[trigger] marks@[m] && m != target),
                views::strs(subjects@) + folded_subjects(p, sel, a as int) == folded_subjects(
                    p,
                    sel,
                    0,
                ),
            decreases n - a,
        {
            if marks[a] && a != target {
                let ghost before = views::strs(subjects@);
                subjects.push(self.patches[a].subject.clone());
                proof {
                    let tail = folded_subjects(p, sel, a + 1);
                    assert(before.push(p[a as int].subject) + tail =~= before + (seq![
                        p[a as int].subject,
                    ] + tail));
                }
            }
            a += 1;
        }
        proof {
            assert(views::strs(subjects@) + Seq::<Seq<char>>::empty() =~= views::strs(subjects@));
        }
        let addendum = joined(&subjects, "\n");

        let mut entry = self.patches.remove(target);
        if entry.body.as_str().is_empty() {
            entry.body = addendum;
        } else {
            entry.body.append("\n");
            entry.body.append(addendum.as_str());
        }
        entry.subject.append(" (+");
        entry.subject.append(decimal(subjects.len() as u64).as_str());
        entry.subject.append(" squashed)");
        let ghost made = entry@;
        self.patches.insert(target, entry);
        let ghost q = p.update(target as int, made);
        proof {
            assert(self@.patches =~= q);
            assert(views::strs(subjects@).len() == subjects@.len());
            assert(made == fold_into(p[target as int], folded_subjects(p, sel, 0)));
        }

        let mut b: usize = n;
        proof {
            assert(q.take(n as int) + unfolded(q, sel, n as int) =~= q);
        }
        while b > 0
            invariant
                b <= n == q.len() == marks@.len(),
                self@.base == old(self)@.base,
                self@.patches == q.take(b as int) + unfolded(q, sel, b as int),
                forall|m: int|
                    0 <= m < n ==> folded(sel, m) == (#[trigger] marks@[m] && m != target),
            decreases b,
        {
            b -= 1;
            let ghost tail = unfolded(q, sel, b + 1);
            if marks[b] && b != target {
                let ghost before = self@.patches;
                let ghost raw = self.patches@;
                proof {
                    assert(patches(raw).len() == raw.len());
                }
                let _gone = self.patches.remove(b);
                proof {
                    assert(patches(raw.remove(b as int)) =~= patches(raw).remove(b as int));
                    assert(self@.patches =~= before.remove(b as int));
                    assert(before.remove(b as int) =~= q.take(b as int) + tail);
                }
            } else {
                proof {
                    assert(q.take(b + 1) + tail =~= q.take(b as int) + (seq![q[b as int]] + tail));
                }
            }
        }
        proof {
            assert(q.take(0) + unfolded(q, sel, 0) =~= unfolded(q, sel, 0));
        }
        Ok(())
    }

    /// Move a patch from `from` to `to` position.
    pub fn reorder(&mut self, from: usize, to: usize) -> (r: Result<(), StackError>)
        ensures
            if from < old(self)@.patches.len() && to < old(self)@.patches.len() {
                r is Ok && final(self)@ == (StackView {
                    patches: moved(old(self)@.patches, from as int, to as int),
                    ..old(self)@
                })
            } else {
                r == Err::<(), StackError>(StackError::OutOfBounds) && final(self)@ == old(self)@
            },
    {
        if from >= self.patches.len() || to >= self.patches.len() {
            return Err(StackError::OutOfBounds);
        }
        let ghost p = self@.patches;
        if from == to {
            proof {
                assert(moved(p, from as int, to as int) =~= p);
            }
            return Ok(());
        }
        let entry = self.patches.remove(from);
        self.patches.insert(to, entry);
        proof {
            assert(patches(self.patches@) =~= moved(p, from as int, to as int));
        }
        Ok(())
    }

    /// Insert a new patch at the given position.
    pub fn insert_at(&mut self, index: usize, entry: PatchEntry) -> (r: Result<(), StackError>)
        ensures
            if index <= old(self)@.patches.len() {
                r is Ok && final(self)@ == (StackView {
                    patches: old(self)@.patches.insert(index as int, entry@),
                    ..old(self)@
                })
            } else {
                r == Err::<(), StackError>(StackError::OutOfBounds) && final(self)@ == old(self)@
            },
    {
        if index > self.patches.len() {
            return Err(StackError::OutOfBounds);
        }
        let ghost p = self@.patches;
        self.patches.insert(index, entry);
        proof {
            assert(patches(self.patches@) =~= p.insert(index as int, entry@));
        }
        Ok(())
    }

    /// Drop a patch from the stack.
    pub fn drop_patch(&mut self, index: usize) -> (r: Result<PatchEntry, StackError>)
        ensures
            if index < old(self)@.patches.len() {
                r is Ok && r->Ok_0@ == old(self)@.patches[index as int] && final(self)@ == (
                StackView { patches: old(self)@.patches.remove(index as int), ..old(self)@ })
            } else {
                r == Err::<PatchEntry, StackError>(StackError::OutOfBounds) && final(self)@ == old(
                    self,
                )@
            },
    {
        if index >= self.patches.len() {
            return Err(StackError::OutOfBounds);
        }
        let ghost p = self@.patches;
        let entry = self.patches.remove(index);
        proof {
            assert(patches(self.patches@) =~= p.remove(index as int));
        }
        Ok(entry)
    }
}

/// Moving a patch and moving it back leaves the stack as it was.
pub proof fn law_reorder_back(p: Seq<PatchView>, from: int, to: int)
    requires
        0 <= from < p.len(),
        0 <= to < p.len(),
    ensures
        moved(moved(p, from, to), to, from) == p,
{
    let q = moved(p, from, to);
    assert(q[to] == p[from]);
    assert(q.remove(to) =~= p.remove(from));
    assert(p.remove(from).insert(from, p[from]) =~= p);
}

/// Moving a patch loses none, adds none, and puts the patch where it was asked to go.
pub proof fn law_reorder_permutes(p: Seq<PatchView>, from: int, to: int)
    requires
        0 <= from < p.len(),
        0 <= to < p.len(),
    ensures
        moved(p, from, to).to_multiset() == p.to_multiset(),
        moved(p, from, to)[to] == p[from],
        moved(p, from, to).len() == p.len(),
{
    broadcast use vstd::seq_lib::group_to_multiset_ensures;

    let r = p.remove(from);
    assert(r.insert(to, p[from]).to_multiset() == r.to_multiset().insert(p[from])) by {
        vstd::seq_lib::to_multiset_insert(r, to, p[from]);
    }
    assert(p.to_multiset() == r.to_multiset().insert(p[from])) by {
        vstd::seq_lib::to_multiset_insert(r, from, p[from]);
        assert(r.insert(from, p[from]) =~= p);
    }
}

/// Dropping a patch that was just inserted gives the patch back and leaves the
/// stack as it was.
pub proof fn law_insert_drop(p: Seq<PatchView>, index: int, entry: PatchView)
    requires
        0 <= index <= p.len(),
    ensures
        p.insert(index, entry)[index] == entry,
        p.insert(index, entry).remove(index) == p,
{
    assert(p.insert(index, entry).remove(index) =~= p);
}

/// Squashing removes exactly the folded patches: as many as there are squashed
/// subjects.
pub proof fn law_squash_len(p: Seq<PatchView>, sel: Seq<usize>)
    requires
        sel.len() > 0,
        in_bounds(sel, p.len()),
    ensures
        squashed(p, sel).len() + folded_subjects(p, sel, 0).len() == p.len(),
{
    lemma_lowest(sel);
    let t = lowest(sel) as int;
    let q = p.update(t, fold_into(p[t], folded_subjects(p, sel, 0)));
    lemma_fold_lens(p, q, sel, 0);
}

/// The folded entries and the others together are all of them.
proof fn lemma_fold_lens(p: Seq<PatchView>, q: Seq<PatchView>, sel: Seq<usize>, i: int)
    requires
        p.len() == q.len(),
        0 <= i <= p.len(),
    ensures
        unfolded(q, sel, i).len() + folded_subjects(p, sel, i).len() == p.len() - i,
    decreases p.len() - i,
{
    if i < p.len() {
        lemma_fold_lens(p, q, sel, i + 1);
    }
}

/// A patch that is not selected is still in the stack after squashing, unchanged,
/// and so is the squashed patch, with the folded subjects in its body.
pub proof fn law_squash_keeps(p: Seq<PatchView>, sel: Seq<usize>, i: int)
    requires
        sel.len() > 0,
        in_bounds(sel, p.len()),
        0 <= i < p.len(),
        !folded(sel, i),
    ensures
        squashed(p, sel).contains(
            if i == lowest(sel) {
                fold_into(p[i], folded_subjects(p, sel, 0))
            } else {
                p[i]
            },
        ),
{
    lemma_lowest(sel);
    let t = lowest(sel) as int;
    let q = p.update(t, fold_into(p[t], folded_subjects(p, sel, 0)));
    lemma_unfolded_has(q, sel, 0, i);
}

/// An entry that is not folded stays.
proof fn lemma_unfolded_has(q: Seq<PatchView>, sel: Seq<usize>, from: int, i: int)
    requires
        0 <= from <= i < q.len(),
        !folded(sel, i),
    ensures
        unfolded(q, sel, from).contains(q[i]),
    decreases q.len() - from,
{
    let u = unfolded(q, sel, from);
    let r = unfolded(q, sel, from + 1);
    if from == i {
        assert(u[0] == q[i]);
    } else {
        lemma_unfolded_has(q, sel, from + 1, i);
        let k = choose|k: int| 0 <= k < r.len() && r[k] == q[i];
        if folded(sel, from) {
            assert(u[k] == q[i]);
        } else {
            assert(u[k + 1] == q[i]);
        }
    }
}

/// Whether two selections hold the same places, in whatever order and however often.
pub open spec fn same_places(a: Seq<usize>, b: Seq<usize>) -> bool {
    forall|x: usize| #[trigger] a.contains(x) <==> b.contains(x)
}

/// What squashing answers, and what it leaves, does not rest on the order in which the
/// places are given, nor on how often one is given.
pub proof fn law_squash_by_places(p: Seq<PatchView>, a: Seq<usize>, b: Seq<usize>)
    requires
        same_places(a, b),
    ensures
        squash_error(p, a) == squash_error(p, b),
        one_place(a) == one_place(b),
        a.len() > 0 ==> squashed(p, a) == squashed(p, b),
{
    lemma_places(a, b, p.len());
    lemma_places(b, a, p.len());
    if a.len() > 0 {
        assert(a.contains(a[0]));
        assert(b.len() > 0);
        lemma_lowest(a);
        lemma_lowest(b);
        assert(lowest(a) == lowest(b)) by {
            let i = choose|i: int| 0 <= i < a.len() && a[i] == lowest(b);
            let j = choose|j: int| 0 <= j < b.len() && b[j] == lowest(a);
            assert(a.contains(lowest(b)));
            assert(b.contains(lowest(a)));
            assert(lowest(a) <= a[i]);
            assert(lowest(b) <= b[j]);
        }
        assert forall|i: int| folded(a, i) == folded(b, i) by {
            if folded(a, i) {
                let k = choose|k: int| 0 <= k < a.len() && #[trigger] a[k] == i && i != lowest(a);
                assert(a.contains(a[k]));
                let m = choose|m: int| 0 <= m < b.len() && b[m] == a[k];
                assert(b[m] == i);
            }
            if folded(b, i) {
                let k = choose|k: int| 0 <= k < b.len() && #[trigger] b[k] == i && i != lowest(b);
                assert(b.contains(b[k]));
                assert(a.contains(b[k]));
                let m = choose|m: int| 0 <= m < a.len() && a[m] == b[k];
                assert(a[m] == i);
            }
        }
        lemma_same_folds(p, a, b, 0);
        let t = lowest(a) as int;
        lemma_same_folds(p.update(t, fold_into(p[t], folded_subjects(p, a, 0))), a, b, 0);
    } else {
        if b.len() > 0 {
            assert(b.contains(b[0]));
            assert(a.contains(b[0]));
        }
    }
}

/// Selections that hold the same places are alike.
proof fn lemma_places(a: Seq<usize>, b: Seq<usize>, n: nat)
    requires
        same_places(a, b),
    ensures
        one_place(a) ==> one_place(b),
        in_bounds(a, n) ==> in_bounds(b, n),
{
    assert forall|i: int| 0 <= i < b.len() implies a.contains(#[trigger] b[i]) by {
        assert(b.contains(b[i]));
    }
    if one_place(a) {
        assert forall|i: int, j: int| 0 <= i < b.len() && 0 <= j < b.len() implies b[i] == b[j] by {
            assert(a.contains(b[i]));
            assert(a.contains(b[j]));
        }
    }
    if in_bounds(a, n) {
        assert forall|i: int| 0 <= i < b.len() implies (#[trigger] b[i]) < n by {
            let k = choose|k: int| 0 <= k < a.len() && a[k] == b[i];
            assert(a[k] < n);
        }
    }
}

/// Where the same entries are folded, the same are left.
proof fn lemma_same_folds(p: Seq<PatchView>, a: Seq<usize>, b: Seq<usize>, i: int)
    requires
        forall|k: int| #[trigger] folded(a, k) == folded(b, k),
    ensures
        folded_subjects(p, a, i) == folded_subjects(p, b, i),
        unfolded(p, a, i) == unfolded(p, b, i),
    decreases p.len() - i,
{
    if 0 <= i < p.len() {
        assert(folded(a, i) == folded(b, i));
        lemma_same_folds(p, a, b, i + 1);
    }
}

} // verus!
