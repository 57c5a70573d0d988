//! Counting the records of a scope.

use crate::reduce::barrier::{Barrier, BarrierView};
use crate::reduce::Range;
use vstd::prelude::*;

verus! {

/// A counter as contracts see it.
pub struct CountView {
    pub barrier: BarrierView,
    /// How many records have arrived.
    pub count: nat,
}

impl CountView {
    /// The counter on worker `index` of `peers` workers before anything has
    /// arrived.
    pub open spec fn fresh(range: Range, index: nat, peers: nat) -> CountView {
        CountView {
            barrier: BarrierView {
                range,
                index,
                ended: Seq::new(peers, |w: int| false),
                released: false,
            },
            count: 0,
        }
    }

    /// The counter after `n` more records have arrived.
    pub open spec fn arrived(self, n: nat) -> CountView {
        CountView { count: self.count + n, ..self }
    }

    /// The counter after the end of `worker`'s input.
    pub open spec fn ended(self, worker: int) -> CountView {
        CountView { barrier: self.barrier.signal(worker), ..self }
    }

    /// What the counter emits on the end of `worker`'s input: the count, on
    /// the signal that completes the scope, and nothing on any other.
    pub open spec fn emits_on(self, worker: int) -> Option<nat> {
        if self.barrier.releases_on(worker) {
            Some(self.count)
        } else {
            None
        }
    }

    /// Everything the counter emits over the ends of input of `workers`, in
    /// that order.
    pub open spec fn emissions(self, workers: Seq<int>) -> Seq<nat>
        decreases workers.len(),
    {
        if workers.len() == 0 {
            Seq::empty()
        } else {
            let now = match self.emits_on(workers[0]) {
                Some(n) => seq![n],
                None => Seq::empty(),
            };
            now + self.ended(workers[0]).emissions(workers.skip(1))
        }
    }

    /// A counter whose scope is not complete yet emits its count once, on
    /// the signal that completes the scope, and nothing before or after; if
    /// the scope never completes it emits nothing.
    pub proof fn lemma_emits_count_once(self, workers: Seq<int>)
        requires
            self.barrier.wf(),
            forall|i: int|
                0 <= i < workers.len() ==> 0 <= #[trigger] workers[i] < self.barrier.ended.len(),
        ensures
            self.emissions(workers) == (if !self.barrier.released && self.barrier.run(
                workers,
            ).complete() {
                seq![self.count]
            } else {
                Seq::empty()
            }),
        decreases workers.len(),
    {
        if workers.len() > 0 {
            let rest = workers.skip(1);
            assert(forall|i: int| 0 <= i < rest.len() ==> rest[i] == workers[i + 1]);
            self.barrier.lemma_released_exactly_once(seq![workers[0]]);
            assert(seq![workers[0]].skip(1) =~= Seq::<int>::empty());
            assert(self.barrier.run(seq![workers[0]]) == self.barrier.signal(workers[0])) by {
                reveal_with_fuel(BarrierView::run, 2);
            }
            self.barrier.signal(workers[0]).lemma_released_exactly_once(rest);
            self.ended(workers[0]).lemma_emits_count_once(rest);
            assert(self.emissions(workers) =~= (if !self.barrier.released && self.barrier.run(
                workers,
            ).complete() {
                seq![self.count]
            } else {
                Seq::empty()
            }));
        }
    }

    /// Counting a scope of `n` records: whatever the order in which the
    /// workers' inputs end after the records have arrived, `n` is emitted
    /// exactly once if the scope completes, and nothing is emitted if it
    /// does not.
    pub proof fn lemma_count_of_scope(
        range: Range,
        index: nat,
        peers: nat,
        n: nat,
        workers: Seq<int>,
    )
        requires
            index < peers,
            forall|i: int| 0 <= i < workers.len() ==> 0 <= #[trigger] workers[i] < peers,
        ensures
            ({
                let start = CountView::fresh(range, index, peers).arrived(n);
                start.emissions(workers) == (if start.barrier.run(workers).complete() {
                    seq![n]
                } else {
                    Seq::empty()
                })
            }),
    {
        let start = CountView::fresh(range, index, peers).arrived(n);
        assert(!start.barrier.ended[index as int]);
        start.lemma_emits_count_once(workers);
    }
}

/// Counts the records of a scope and emits the count once the scope is
/// complete.
pub struct Count {
    barrier: Barrier,
    count: u64,
}

impl View for Count {
    type V = CountView;

    closed spec fn view(&self) -> CountView {
        CountView { barrier: self.barrier@, count: self.count as nat }
    }
}

impl Count {
    /// A counter on worker `index` of `peers` workers.
    pub fn new(range: Range, index: usize, peers: usize) -> (c: Count)
        requires
            index < peers,
        ensures
            c@ == CountView::fresh(range, index as nat, peers as nat),
            c@.barrier.wf(),
    {
        Count { barrier: Barrier::new(range, index, peers), count: 0 }
    }

    /// How many records have arrived.
    pub fn get(&self) -> (n: u64)
        ensures
            n == self@.count,
    {
        self.count
    }

    /// How many workers the counter waits for.
    pub fn peers(&self) -> (n: usize)
        ensures
            n == self@.barrier.ended.len(),
    {
        self.barrier.peers()
    }

    /// Counts one record.
    pub fn on_item(&mut self)
        requires
            old(self)@.count < u64::MAX,
        ensures
            final(self)@ == old(self)@.arrived(1),
    {
        self.count = self.count + 1;
    }

    /// Takes in what another worker has counted of the scope, as a count
    /// across the cluster needs it.
    pub fn absorb(&mut self, partial: u64)
        requires
            old(self)@.count + partial <= u64::MAX,
        ensures
            final(self)@ == old(self)@.arrived(partial as nat),
    {
        self.count = self.count + partial;
    }

    /// Notes that `worker`'s input has ended. On the signal that completes
    /// the scope the count comes out; on every other signal nothing does.
    pub fn on_end(&mut self, worker: usize) -> (out: Option<u64>)
        requires
            old(self)@.barrier.wf(),
            worker < old(self)@.barrier.ended.len(),
        ensures
            final(self)@ == old(self)@.ended(worker as int),
            final(self)@.barrier.wf(),
            match out {
                Some(n) => old(self)@.emits_on(worker as int) == Some(n as nat),
                None => old(self)@.emits_on(worker as int) is None,
            },
    {
        if self.barrier.end_of_input(worker) {
            Some(self.count)
        } else {
            None
        }
    }
}

} // verus!
