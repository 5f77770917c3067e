//! A binary max-heap of drift records, keyed by the drift in minutes.
//!
//! Popping always yields a record whose drift is at least the drift of
//! everything still in the heap; draining therefore produces the records in
//! descending drift order, and the drain may stop at the first record below
//! a threshold, since nothing at or above it can remain.
use vstd::prelude::*;

use crate::BlockTimeDriftTable;

verus! {

/// Index of the parent of heap slot `i`.
pub open spec fn parent(i: int) -> int {
    (i - 1) / 2
}

/// The binary max-heap shape: every non-root slot is at most its parent,
/// compared by drift.
pub open spec fn heap_wf(s: Seq<BlockTimeDriftTable>) -> bool {
    forall|i: int| 1 <= i < s.len() ==> (#[trigger] s[i]).drift <= s[parent(i)].drift
}

/// In a well-shaped heap the root is a maximum.
pub proof fn lemma_root_max(s: Seq<BlockTimeDriftTable>, i: int)
    requires
        heap_wf(s),
        0 <= i < s.len(),
    ensures
        s[0].drift >= s[i].drift,
    decreases i,
{
    if i > 0 {
        assert(0 <= parent(i) < i) by (nonlinear_arith)
            requires
                i >= 1,
        ;
        lemma_root_max(s, parent(i));
    }
}

/// Store the data in a binary heap to bubble up the longest drifts.
pub struct BlockHeap {
    data: Vec<BlockTimeDriftTable>,
}

impl View for BlockHeap {
    type V = Seq<BlockTimeDriftTable>;

    closed spec fn view(&self) -> Seq<BlockTimeDriftTable> {
        self.data@
    }
}

/// Exchanging two slots of a sequence leaves its multiset of records
/// unchanged.
proof fn lemma_swap_multiset(s: Seq<BlockTimeDriftTable>, i: int, j: int)
    requires
        0 <= i < s.len(),
        0 <= j < s.len(),
    ensures
        s.update(i, s[j]).update(j, s[i]).to_multiset() == s.to_multiset(),
{
    broadcast use vstd::multiset::group_multiset_axioms;
    broadcast use vstd::seq_lib::group_to_multiset_ensures;

    let s1 = s.update(i, s[j]);
    let s2 = s1.update(j, s[i]);
    vstd::seq_lib::to_multiset_update(s, i, s[j]);
    vstd::seq_lib::to_multiset_update(s1, j, s[i]);
    assert(s1[j] == s[j]);
    assert(s.contains(s[i]));
    assert(s.contains(s[j]));
    assert(s2.to_multiset() =~= s.to_multiset());
}

/// Exchange the records at slots `i` and `j`.
fn swap_records(v: &mut Vec<BlockTimeDriftTable>, i: usize, j: usize)
    requires
        i < old(v).len(),
        j < old(v).len(),
    ensures
        final(v)@ == old(v)@.update(i as int, old(v)@[j as int]).update(
            j as int,
            old(v)@[i as int],
        ),
{
    let a = v[i].clone();
    let b = v[j].clone();
    v.set(i, b);
    v.set(j, a);
}

impl BlockHeap {
    /// The heap has its shape invariant.
    pub closed spec fn wf(&self) -> bool {
        heap_wf(self.data@)
    }

    /// Create an empty heap.
    pub fn new() -> (r: Self)
        ensures
            r.wf(),
            r@ == Seq::<BlockTimeDriftTable>::empty(),
    {
        BlockHeap { data: Vec::new() }
    }

    /// The number of records held.
    pub fn len(&self) -> (n: usize)
        ensures
            n == self@.len(),
    {
        self.data.len()
    }

    /// Add a record, keeping the heap shape: the record is sifted up until
    /// its parent's drift is at least its own.
    pub fn push(&mut self, item: BlockTimeDriftTable)
        requires
            old(self).wf(),
        ensures
            final(self).wf(),
            final(self)@.to_multiset() == old(self)@.to_multiset().insert(item),
            final(self)@.len() == old(self)@.len() + 1,
    {
        broadcast use vstd::seq_lib::group_to_multiset_ensures;

        let ghost orig = self.data@;
        self.data.push(item);
        let mut j: usize = self.data.len() - 1;
        assert(orig.push(item).to_multiset() =~= orig.to_multiset().insert(item));
        loop
            invariant
                self.data@.len() == orig.len() + 1,
                j < self.data@.len(),
                self.data@.to_multiset() == orig.to_multiset().insert(item),
                forall|i: int|
                    1 <= i < self.data@.len() && i != j ==> (#[trigger] self.data@[i]).drift
                        <= self.data@[parent(i)].drift,
                j > 0 ==> forall|c: int|
                    0 <= c < self.data@.len() && parent(c) == j ==> (#[trigger] self.data@[c]).drift
                        <= self.data@[parent(j as int)].drift,
            ensures
                heap_wf(self.data@),
                self.data@.len() == orig.len() + 1,
                self.data@.to_multiset() == orig.to_multiset().insert(item),
            decreases j,
        {
            if j == 0 {
                break ;
            }
            let p = (j - 1) / 2;
            assert(p as int == parent(j as int) && 0 <= parent(j as int) < j as int)
                by (nonlinear_arith)
                requires
                    j >= 1,
                    p as int == (j as int - 1) / 2,
            ;
            if self.data[p].drift < self.data[j].drift {
                let ghost pre = self.data@;
                swap_records(&mut self.data, p, j);
                proof {
                    lemma_swap_multiset(pre, p as int, j as int);
                }
                j = p;
            } else {
                break ;
            }
        }
    }

    /// Remove and return a record of maximal drift, or `None` on an empty
    /// heap.  The last record replaces the root, which is then sifted down.
    pub fn pop(&mut self) -> (r: Option<BlockTimeDriftTable>)
        requires
            old(self).wf(),
        ensures
            final(self).wf(),
            match r {
                None => old(self)@.len() == 0 && final(self)@ == old(self)@,
                Some(m) => old(self)@.len() > 0 && m == old(self)@[0] && final(self)@.len() == old(
                    self,
                )@.len() - 1 && final(self)@.to_multiset() == old(self)@.to_multiset().remove(m)
                    && (forall|i: int|
                    0 <= i < old(self)@.len() ==> m.drift >= (#[trigger] old(self)@[i]).drift) && (
                forall|i: int|
                    0 <= i < final(self)@.len() ==> m.drift >= (#[trigger] final(self)@[i]).drift),
            },
    {
        broadcast use vstd::seq_lib::group_to_multiset_ensures;

        if self.data.len() == 0 {
            return None;
        }
        let ghost pre = self.data@;
        proof {
            assert forall|i: int| 0 <= i < pre.len() implies pre[0].drift >= (
            #[trigger] pre[i]).drift by {
                lemma_root_max(pre, i);
            }
        }
        let m = self.data.swap_remove(0);
        proof {
            assert(pre.update(0, pre.last()) =~= pre.update(0, pre[pre.len() - 1]));
            vstd::seq_lib::to_multiset_update(pre, 0, pre[pre.len() - 1]);
            let upd = pre.update(0, pre[pre.len() - 1]);
            assert(upd.drop_last() =~= upd.remove(upd.len() - 1));
            assert(upd.remove(upd.len() - 1).to_multiset() =~= upd.to_multiset().remove(
                upd[upd.len() - 1],
            ));
            assert(self.data@.to_multiset() =~= pre.to_multiset().remove(pre[0]));
        }
        let mut j: usize = 0;
        loop
            invariant
                heap_wf(pre),
                pre.len() >= 1,
                self.data@.len() == pre.len() - 1,
                j <= self.data@.len(),
                self.data@.to_multiset() == pre.to_multiset().remove(pre[0]),
                forall|i: int|
                    0 <= i < self.data@.len() ==> pre[0].drift >= (#[trigger] self.data@[i]).drift,
                forall|i: int|
                    1 <= i < self.data@.len() && parent(i) != j ==> (
                    #[trigger] self.data@[i]).drift <= self.data@[parent(i)].drift,
                j > 0 ==> forall|c: int|
                    0 <= c < self.data@.len() && parent(c) == j ==> (#[trigger] self.data@[c]).drift
                        <= self.data@[parent(j as int)].drift,
            ensures
                heap_wf(self.data@),
                self.data@.len() == pre.len() - 1,
                self.data@.to_multiset() == pre.to_multiset().remove(pre[0]),
                forall|i: int|
                    0 <= i < self.data@.len() ==> pre[0].drift >= (#[trigger] self.data@[i]).drift,
            decreases self.data@.len() - j,
        {
            let len = self.data.len();
            if j >= len / 2 {
                proof {
                    assert forall|i: int|
                        1 <= i < self.data@.len() implies (#[trigger] self.data@[i]).drift
                        <= self.data@[parent(i)].drift by {
                        assert(parent(i) != j) by (nonlinear_arith)
                            requires
                                1 <= i < len,
                                j >= len / 2,
                        ;
                    }
                }
                break ;
            }
            let l = 2 * j + 1;
            assert(l < len && 2 * j + 2 <= len) by (nonlinear_arith)
                requires
                    j < len / 2,
                    l == 2 * j + 1,
            ;
            let r_i = l + 1;
            let mut big = l;
            if r_i < len && self.data[r_i].drift > self.data[l].drift {
                big = r_i;
            }
            assert(parent(l as int) == j && parent(r_i as int) == j) by (nonlinear_arith)
                requires
                    l == 2 * j + 1,
                    r_i == 2 * j + 2,
            ;
            proof {
                assert forall|c: int|
                    0 <= c < self.data@.len() && parent(c) == j implies c == l || c == r_i by {
                    assert(parent(0) == -1);
                    assert(c >= 1);
                    assert(c == 2 * (j as int) + 1 || c == 2 * (j as int) + 2) by (nonlinear_arith)
                        requires
                            parent(c) == j as int,
                            c >= 1,
                            j >= 0,
                    ;
                }
            }
            if self.data[big].drift > self.data[j].drift {
                let ghost mid = self.data@;
                swap_records(&mut self.data, j, big);
                proof {
                    lemma_swap_multiset(mid, j as int, big as int);
                    assert forall|c: int|
                        0 <= c < self.data@.len() && parent(c) == big implies (
                    #[trigger] self.data@[c]).drift <= self.data@[parent(big as int)].drift by {
                        assert(j < big < c && parent(c) >= 1) by (nonlinear_arith)
                            requires
                                parent(c) == big,
                                big == 2 * j + 1 || big == 2 * j + 2,
                                c >= 0,
                        ;
                    }
                }
                j = big;
            } else {
                proof {
                    assert forall|i: int|
                        1 <= i < self.data@.len() implies (#[trigger] self.data@[i]).drift
                        <= self.data@[parent(i)].drift by {
                        if parent(i) == j {
                            assert(i == l || i == r_i);
                        }
                    }
                }
                break ;
            }
        }
        Some(m)
    }
}

} // verus!
