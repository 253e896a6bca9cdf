//! Reassembly pipeline: the sequencer of the download reorder buffer.
//! Downloads complete in any order; the sequencer buffers each completed
//! path under the ordinal parsed from its filename and releases paths
//! strictly in ordinal order. The surrounding threads and channels only
//! ever call `record` for an arrival and `next_ready` to drain, so the
//! ordering guarantee lives entirely in this state machine.

use vstd::prelude::*;
use crate::names::{file_to_int, path_has_ordinal, spec_file_token};
use crate::digits::spec_parse_i32;

verus! {

/// The ordinal a completed path announces: the decimal token that leads
/// its filename.
pub open spec fn ord_of(path: Seq<char>) -> Option<int> {
    spec_parse_i32(spec_file_token(path))
}

/// The reorder buffer between unordered completion and ordered display.
pub struct Sequencer {
    /// Ordinals not yet emitted, in emission order; the front is the next
    /// ordinal owed to the display stage.
    pub orders: Vec<i32>,
    /// Completed but not yet emitted: each announced ordinal with its
    /// path.
    pub completed: Vec<(i32, String)>,
    /// How many ordinals the buffer was created for.
    pub total: Ghost<int>,
    /// The ordinals emitted so far, in emission order.
    pub emitted: Ghost<Seq<i32>>,
}

impl Sequencer {
    /// The sequencer's invariant: what was emitted is exactly the
    /// ordinals `0, 1, 2, …` in order, what is pending continues that
    /// sequence, no ordinal is buffered twice, and every buffered path
    /// announces the ordinal it is buffered under.
    pub open spec fn wf(self) -> bool {
        &&& self.emitted@.len() + self.orders@.len() == self.total@
        &&& forall|i: int| 0 <= i < self.emitted@.len() ==> self.emitted@[i] as int == i
        &&& forall|i: int|
            0 <= i < self.orders@.len() ==> self.orders@[i] as int == self.emitted@.len() + i
        &&& forall|i: int, j: int|
            0 <= i < j < self.completed@.len() ==> self.completed@[i].0 != self.completed@[j].0
        &&& forall|i: int|
            0 <= i < self.completed@.len() ==> ord_of(#[trigger] self.completed@[i].1@)
                == Some(self.completed@[i].0 as int)
    }

    /// A fresh buffer expecting the ordinals `0 .. total`, none completed
    /// and none emitted.
    pub fn new(total: usize) -> (s: Sequencer)
        requires
            total <= i32::MAX as usize,
        ensures
            s.wf(),
            s.total@ == total,
            s.emitted@ == Seq::<i32>::empty(),
            s.orders@.len() == total,
            s.completed@.len() == 0,
    {
        let mut orders: Vec<i32> = Vec::new();
        let mut i: usize = 0;
        while i < total
            invariant
                0 <= i <= total,
                total <= i32::MAX as usize,
                orders@.len() == i as int,
                forall|k: int| 0 <= k < i ==> orders@[k] as int == k,
            decreases total - i,
        {
            orders.push(i as i32);
            i = i + 1;
        }
        Sequencer {
            orders,
            completed: Vec::new(),
            total: Ghost(total as int),
            emitted: Ghost(Seq::empty()),
        }
    }

    /// Records one completed download. The path's leading filename token
    /// names its ordinal; a path with no parsable ordinal, or an ordinal
    /// already buffered, is refused and changes nothing.
    pub fn record(&mut self, path: String) -> (accepted: bool)
        requires
            old(self).wf(),
        ensures
            final(self).wf(),
            final(self).orders@ == old(self).orders@,
            final(self).emitted@ == old(self).emitted@,
            final(self).total@ == old(self).total@,
            accepted ==> {
                &&& ord_of(path@) is Some
                &&& final(self).completed@ == old(self).completed@.push(
                    ((ord_of(path@)->Some_0) as i32, path),
                )
                &&& forall|i: int|
                    0 <= i < old(self).completed@.len() ==> old(self).completed@[i].0 as int
                        != ord_of(path@)->Some_0
            },
            !accepted ==> {
                &&& final(self).completed@ == old(self).completed@
                &&& (ord_of(path@) is None || exists|i: int|
                    0 <= i < old(self).completed@.len()
                        && #[trigger] old(self).completed@[i].0 as int == ord_of(
                        path@,
                    )->Some_0)
            },
    {
        let num = match file_to_int(path.as_str()) {
            Some(v) => v,
            None => {
                return false;
            },
        };
        let mut i: usize = 0;
        while i < self.completed.len()
            invariant
                self == old(self),
                old(self).wf(),
                ord_of(path@) == Some(num as int),
                0 <= i <= self.completed@.len(),
                forall|k: int| 0 <= k < i ==> self.completed@[k].0 != num,
            decreases self.completed@.len() - i,
        {
            if self.completed[i].0 == num {
                proof {
                    assert(old(self).completed@[i as int].0 as int == ord_of(path@)->Some_0);
                }
                return false;
            }
            i = i + 1;
        }
        self.completed.push((num, path));
        true
    }

    /// Hands out the next path owed to the display stage, when its
    /// ordinal has already completed: removes the front pending ordinal
    /// and its buffered path and returns the path. Returns nothing — and
    /// changes nothing — while the front ordinal is still outstanding or
    /// the buffer is drained.
    pub fn next_ready(&mut self) -> (r: Option<String>)
        requires
            old(self).wf(),
        ensures
            final(self).wf(),
            final(self).total@ == old(self).total@,
            match r {
                Some(p) => {
                    &&& old(self).orders@.len() > 0
                    &&& path_has_ordinal(p@, old(self).orders@[0] as int)
                    &&& final(self).orders@ == old(self).orders@.drop_first()
                    &&& final(self).emitted@ == old(self).emitted@.push(old(self).orders@[0])
                    &&& exists|k: int|
                        0 <= k < old(self).completed@.len() && old(self).completed@[k] == (
                        old(self).orders@[0],
                        p,
                        ) && final(self).completed@ == old(self).completed@.remove(k)
                },
                None => {
                    &&& final(self).orders@ == old(self).orders@
                    &&& final(self).emitted@ == old(self).emitted@
                    &&& final(self).completed@ == old(self).completed@
                    &&& (old(self).orders@.len() == 0 || forall|k: int|
                        0 <= k < old(self).completed@.len()
                            ==> #[trigger] old(self).completed@[k].0 != old(self).orders@[0])
                },
            },
    {
        if self.orders.len() == 0 {
            return None;
        }
        let head: i32 = self.orders[0];
        let mut k: usize = 0;
        while k < self.completed.len()
            invariant
                self == old(self),
                old(self).wf(),
                old(self).orders@.len() > 0,
                head == old(self).orders@[0],
                0 <= k <= self.completed@.len(),
                forall|j: int| 0 <= j < k ==> self.completed@[j].0 != head,
            decreases self.completed@.len() - k,
        {
            if self.completed[k].0 == head {
                let pair = self.completed.remove(k);
                self.orders.remove(0);
                proof {
                    self.emitted@ = self.emitted@.push(head);
                    let co = old(self).completed@;
                    let cn = self.completed@;
                    assert(self.orders@ =~= old(self).orders@.drop_first());
                    assert(old(self).completed@[k as int] == (head, pair.1));
                    assert forall|a: int, b: int| 0 <= a < b < cn.len() implies cn[a].0
                        != cn[b].0 by {
                        assert(cn[a] == if a < k as int {
                            co[a]
                        } else {
                            co[a + 1]
                        });
                        assert(cn[b] == if b < k as int {
                            co[b]
                        } else {
                            co[b + 1]
                        });
                    }
                    assert forall|a: int| 0 <= a < cn.len() implies ord_of(#[trigger] cn[a].1@)
                        == Some(cn[a].0 as int) by {
                        assert(cn[a] == if a < k as int {
                            co[a]
                        } else {
                            co[a + 1]
                        });
                    }
                    assert(path_has_ordinal(pair.1@, head as int));
                }
                return Some(pair.1);
            }
            k = k + 1;
        }
        None
    }

    /// How many ordinals are still owed to the display stage.
    pub fn pending(&self) -> (r: usize)
        ensures
            r == self.orders@.len(),
    {
        self.orders.len()
    }
}

/// Law: the display stage observes strictly increasing ordinals from
/// zero. Whatever order completions were recorded in, the sequence of
/// ordinals emitted so far is exactly `0, 1, 2, …` — each path handed out
/// k-th carries ordinal k.
pub proof fn lemma_emission_in_ordinal_order(s: Sequencer)
    requires
        s.wf(),
    ensures
        forall|i: int| 0 <= i < s.emitted@.len() ==> s.emitted@[i] as int == i,
        forall|i: int, j: int|
            0 <= i < j < s.emitted@.len() ==> s.emitted@[i] < s.emitted@[j],
{
}

} // verus!
