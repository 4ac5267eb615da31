//! The callback registry: maps small integer ids to owned callbacks.
//!
//! The registry is the single owner of every registered callback and the
//! only component that invokes or destroys them. Ids are allocated smallest
//! first and reused only after their callback is removed, so at most 256
//! callbacks can be registered at once.

use crate::common::{CallbackId, MouseEvent};
use vstd::prelude::*;

verus! {

/// An ordered collection of `(id, callback)` entries with strictly
/// ascending ids, so dispatch walks the callbacks in ascending-id order.
pub struct CallbackRegistry<C> {
    entries: Vec<(CallbackId, C)>,
}

impl<C> View for CallbackRegistry<C> {
    type V = Seq<(CallbackId, C)>;

    closed spec fn view(&self) -> Seq<(CallbackId, C)> {
        self.entries@
    }
}

/// The ids of the entries in `s`, in order.
pub open spec fn ids_of<C>(s: Seq<(CallbackId, C)>) -> Seq<CallbackId> {
    s.map_values(|e: (CallbackId, C)| e.0)
}

impl<C> CallbackRegistry<C> {
    /// The registered ids, in the order their callbacks are invoked.
    pub open spec fn ids(&self) -> Seq<CallbackId> {
        ids_of(self@)
    }

    /// Ids appear in strictly ascending order, hence each at most once.
    pub open spec fn wf(&self) -> bool {
        forall|i: int, j: int| 0 <= i < j < self@.len() ==> (#[trigger] self@[i]).0 < (
        #[trigger] self@[j]).0
    }

    /// An entry's id is at least its index: ids ascend strictly from 0.
    proof fn lemma_id_at_least_index(&self, i: int)
        requires
            self.wf(),
            0 <= i < self@.len(),
        ensures
            self@[i].0 >= i,
        decreases i,
    {
        if i > 0 {
            self.lemma_id_at_least_index(i - 1);
        }
    }

    /// Once one entry's id exceeds its index, so does every later one.
    proof fn lemma_id_above_index_from(&self, i: int, k: int)
        requires
            self.wf(),
            0 <= i <= k < self@.len(),
            self@[i].0 > i,
        ensures
            self@[k].0 > k,
        decreases k - i,
    {
        if k > i {
            self.lemma_id_above_index_from(i, k - 1);
        }
    }

    /// With ids drawn from `u8`, a well-formed registry holds at most 256
    /// entries.
    pub proof fn lemma_len_at_most_256(&self)
        requires
            self.wf(),
        ensures
            self@.len() <= 256,
    {
        if self@.len() > 256 {
            self.lemma_id_at_least_index(256);
        }
    }

    /// An empty registry.
    pub fn new() -> (r: Self)
        ensures
            r@ == Seq::<(CallbackId, C)>::empty(),
            r.wf(),
    {
        CallbackRegistry { entries: Vec::new() }
    }

    /// How many callbacks are registered.
    pub fn len(&self) -> (n: usize)
        ensures
            n == self@.len(),
    {
        self.entries.len()
    }

    /// Store `callback` under the smallest id not currently in use and
    /// return that id, keeping the entries ordered; `None` once all 256
    /// ids are taken.
    pub fn insert(&mut self, callback: C) -> (r: Option<CallbackId>)
        requires
            old(self).wf(),
        ensures
            final(self).wf(),
            old(self)@.len() == 256 ==> {
                &&& r is None
                &&& final(self)@ == old(self)@
            },
            old(self)@.len() < 256 ==> r is Some,
            r matches Some(id) ==> {
                &&& !old(self).ids().contains(id)
                &&& forall|j: CallbackId| j < id ==> old(self).ids().contains(j)
                &&& 0 <= id as int <= old(self)@.len()
                &&& final(self)@ == old(self)@.insert(id as int, (id, callback))
            },
    {
        proof {
            self.lemma_len_at_most_256();
        }
        let ghost pre = self@;
        let mut i: usize = 0;
        while i < self.entries.len() && self.entries[i].0 == i as u8
            invariant
                pre == old(self)@,
                self@ == pre,
                self.wf(),
                self@.len() <= 256,
                0 <= i <= self@.len(),
                forall|j: int| 0 <= j < i ==> (#[trigger] self@[j]).0 == j,
            decreases self@.len() - i,
        {
            i += 1;
        }
        if i == 256 {
            return None;
        }
        let id: CallbackId = i as u8;
        proof {
            // `id` is not yet in use: entries before index `i` carry the ids
            // 0..i, and entries from index `i` on carry larger ids.
            if i < self@.len() {
                self.lemma_id_at_least_index(i as int);
                assert(self@[i as int].0 > i);
                // A full registry would then need an id above 255.
                if self@.len() == 256 {
                    self.lemma_id_above_index_from(i as int, 255);
                }
            }
            assert forall|k: int| 0 <= k < pre.len() implies (#[trigger] pre[k]).0 != id by {
                if k < i as int {
                    assert(pre[k].0 == k);
                } else {
                    self.lemma_id_at_least_index(i as int);
                    if k > i as int {
                        assert(pre[i as int].0 < pre[k].0);
                    }
                }
            }
            assert(!ids_of(pre).contains(id)) by {
                assert forall|k: int| 0 <= k < ids_of(pre).len() implies ids_of(pre)[k] != id by {
                    assert(ids_of(pre)[k] == pre[k].0);
                }
            }
            assert forall|j: CallbackId| j < id implies ids_of(pre).contains(j) by {
                assert(ids_of(pre)[j as int] == pre[j as int].0);
                assert(ids_of(pre)[j as int] == j);
            }
        }
        self.entries.insert(i, (id, callback));
        proof {
            // The new entry sits between the smaller and the larger ids, so
            // the order is preserved.
            assert forall|a: int, b: int| 0 <= a < b < self@.len() implies (
            #[trigger] self@[a]).0 < (#[trigger] self@[b]).0 by {
                assert(self@ == pre.insert(i as int, (id, callback)));
                if a < i as int && b < i as int {
                    assert(self@[a] == pre[a] && self@[b] == pre[b]);
                } else if a < i as int && b == i as int {
                    assert(self@[a] == pre[a] && pre[a].0 == a);
                } else if a < i as int && b > i as int {
                    assert(self@[a] == pre[a] && self@[b] == pre[b - 1]);
                    assert(pre[a].0 == a && a < i as int);
                    assert(pre[b - 1].0 > i);
                } else if a == i as int && b > i as int {
                    assert(self@[b] == pre[b - 1]);
                    assert(pre[b - 1].0 > i);
                } else if a > i as int && b > i as int {
                    assert(self@[a] == pre[a - 1] && self@[b] == pre[b - 1]);
                }
            }
        }
        Some(id)
    }

    /// Remove the callback stored under `callback_id`, keeping every other
    /// entry in place; reports whether such an entry existed.
    pub fn remove(&mut self, callback_id: CallbackId) -> (r: bool)
        requires
            old(self).wf(),
        ensures
            final(self).wf(),
            r == old(self).ids().contains(callback_id),
            r ==> exists|k: int|
                {
                    &&& 0 <= k < old(self)@.len()
                    &&& (#[trigger] old(self)@[k]).0 == callback_id
                    &&& final(self)@ == old(self)@.remove(k)
                },
            !r ==> final(self)@ == old(self)@,
    {
        let ghost pre = self@;
        let mut i: usize = 0;
        while i < self.entries.len()
            invariant
                pre == old(self)@,
                self@ == pre,
                self.wf(),
                0 <= i <= self@.len(),
                forall|j: int| 0 <= j < i ==> (#[trigger] self@[j]).0 != callback_id,
            decreases self@.len() - i,
        {
            if self.entries[i].0 == callback_id {
                proof {
                    assert(ids_of(pre)[i as int] == pre[i as int].0);
                    assert(ids_of(pre).contains(callback_id));
                }
                self.entries.remove(i);
                proof {
                    assert(self@ == pre.remove(i as int));
                    assert forall|a: int, b: int|
                        0 <= a < b < self@.len() implies (#[trigger] self@[a]).0 < (
                    #[trigger] self@[b]).0 by {
                        assert(self@ == pre.remove(i as int));
                    }
                    assert((i as int) < pre.len() && pre[i as int].0 == callback_id && self@
                        == pre.remove(i as int));
                }
                return true;
            }
            i += 1;
        }
        proof {
            assert forall|k: int| 0 <= k < ids_of(pre).len() implies ids_of(pre)[k] != callback_id
                by {
                assert(ids_of(pre)[k] == pre[k].0);
            }
        }
        false
    }

    /// Remove every entry; returns how many were removed so the caller can
    /// decide whether a running dispatch loop has to stop.
    pub fn clear(&mut self) -> (n: usize)
        ensures
            final(self).wf(),
            final(self)@ == Seq::<(CallbackId, C)>::empty(),
            n == old(self)@.len(),
    {
        let n = self.entries.len();
        self.entries.truncate(0);
        n
    }
}

impl<C: Fn(MouseEvent)> CallbackRegistry<C> {
    /// Hand one event to every registered callback, in ascending-id order.
    /// Each callback must accept any event.
    pub fn invoke_all(&self, event: MouseEvent)
        requires
            forall|k: int| 0 <= k < self@.len() ==> call_requires(#[trigger] self@[k].1, (event,)),
    {
        let mut i: usize = 0;
        while i < self.entries.len()
            invariant
                0 <= i <= self@.len(),
                forall|k: int| 0 <= k < self@.len() ==> call_requires(
                    #[trigger] self@[k].1,
                    (event,),
                ),
            decreases self@.len() - i,
        {
            (self.entries[i].1)(event);
            i += 1;
        }
    }
}

} // verus!
