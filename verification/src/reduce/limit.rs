//! Letting only the first records of a scope through.

use crate::reduce::barrier::{Barrier, BarrierView};
use crate::reduce::Range;
use vstd::prelude::*;

verus! {

/// A limit as contracts see it.
pub struct LimitView {
    pub barrier: BarrierView,
    /// How many records may pass in all.
    pub limit: nat,
    /// How many records have passed.
    pub taken: nat,
}

impl LimitView {
    /// How many more records may pass.
    pub open spec fn room(self) -> nat {
        (self.limit - self.taken) as nat
    }

    /// No more records have passed than may pass.
    pub open spec fn wf(self) -> bool {
        self.taken <= self.limit && self.barrier.wf()
    }

    /// How many of `n` arriving records pass.
    pub open spec fn passing(self, n: nat) -> nat {
        if n <= self.room() {
            n
        } else {
            self.room()
        }
    }

    /// A fresh limit over a scope of more records than it lets through
    /// passes exactly as many as its bound says, and the records it drops
    /// change nothing about the end of the scope: whatever the order in
    /// which the workers' inputs end, completion is signalled exactly once
    /// if they complete the scope.
    pub proof fn lemma_limit_of_scope(self, n: nat, workers: Seq<int>)
        requires
            self.wf(),
            self.taken == 0,
            !self.barrier.released,
            n > self.limit,
            forall|i: int|
                0 <= i < workers.len() ==> 0 <= #[trigger] workers[i] < self.barrier.ended.len(),
        ensures
            self.passing(n) == self.limit,
            self.barrier.releases(workers) == (if self.barrier.run(workers).complete() {
                1nat
            } else {
                0nat
            }),
    {
        self.barrier.lemma_released_exactly_once(workers);
    }
}

/// Lets the first `limit` records of a scope through and consumes the rest
/// without forwarding them, so that the end of the scope is still seen.
pub struct Limit {
    barrier: Barrier,
    limit: usize,
    taken: usize,
}

impl View for Limit {
    type V = LimitView;

    closed spec fn view(&self) -> LimitView {
        LimitView { barrier: self.barrier@, limit: self.limit as nat, taken: self.taken as nat }
    }
}

impl Limit {
    /// A limit of `limit` records on worker `index` of `peers` workers.
    pub fn new(limit: usize, range: Range, index: usize, peers: usize) -> (l: Limit)
        requires
            index < peers,
        ensures
            l@ == (LimitView {
                barrier: BarrierView {
                    range,
                    index: index as nat,
                    ended: Seq::new(peers as nat, |w: int| false),
                    released: false,
                },
                limit: limit as nat,
                taken: 0,
            }),
            l@.wf(),
    {
        Limit { barrier: Barrier::new(range, index, peers), limit, taken: 0 }
    }

    /// How many workers the limit waits for.
    pub fn peers(&self) -> (n: usize)
        ensures
            n == self@.barrier.ended.len(),
    {
        self.barrier.peers()
    }

    /// Takes one record: it is handed on while there is room, and dropped
    /// once the limit is reached.
    pub fn on_item<T>(&mut self, item: T) -> (out: Option<T>)
        requires
            old(self)@.wf(),
        ensures
            final(self)@.wf(),
            out == (if old(self)@.taken < old(self)@.limit {
                Some(item)
            } else {
                None
            }),
            final(self)@ == (LimitView {
                taken: old(self)@.taken + old(self)@.passing(1),
                ..old(self)@
            }),
    {
        if self.taken < self.limit {
            self.taken = self.taken + 1;
            Some(item)
        } else {
            None
        }
    }

    /// Takes a run of records. Those for which there is room are handed on,
    /// in their order; the others are consumed and dropped.
    pub fn on_items<T>(&mut self, items: Vec<T>) -> (out: Vec<T>)
        requires
            old(self)@.wf(),
        ensures
            final(self)@.wf(),
            out@ == items@.take(old(self)@.passing(items@.len()) as int),
            final(self)@ == (LimitView {
                taken: old(self)@.taken + old(self)@.passing(items@.len()),
                ..old(self)@
            }),
    {
        let ghost start = self@;
        let ghost all = items@;
        let mut out: Vec<T> = Vec::new();
        for item in it: items
            invariant
                it.seq() == all,
                start.wf(),
                self@.wf(),
                self@ == (LimitView {
                    taken: start.taken + start.passing(it.index() as nat),
                    ..start
                }),
                out@ == all.take(start.passing(it.index() as nat) as int),
        {
            match self.on_item(item) {
                Some(kept) => {
                    out.push(kept);
                    assert(out@ =~= all.take(start.passing((it.index() + 1) as nat) as int));
                },
                None => {},
            }
        }
        out
    }

    /// Notes that `worker`'s input has ended, and says whether this is the
    /// signal that completes the scope. Whether records were dropped has no
    /// part in it.
    pub fn on_end(&mut self, worker: usize) -> (release: bool)
        requires
            old(self)@.wf(),
            worker < old(self)@.barrier.ended.len(),
        ensures
            final(self)@.wf(),
            release == old(self)@.barrier.releases_on(worker as int),
            final(self)@ == (LimitView {
                barrier: old(self)@.barrier.signal(worker as int),
                ..old(self)@
            }),
    {
        self.barrier.end_of_input(worker)
    }
}

} // verus!
