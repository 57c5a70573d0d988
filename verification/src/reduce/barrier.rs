//! Knowing when every record of a scope has arrived.

use crate::reduce::Range;
use vstd::prelude::*;

verus! {

/// A barrier as contracts see it.
pub struct BarrierView {
    /// How far the barrier looks.
    pub range: Range,
    /// The worker the barrier runs on.
    pub index: nat,
    /// For each worker, whether it has reported the end of its input.
    pub ended: Seq<bool>,
    /// Whether the barrier has let the scope go already.
    pub released: bool,
}

impl BarrierView {
    /// Whether every record that can belong to the scope has arrived: under
    /// `Local`, this worker's input has ended; under `Global`, every worker's.
    pub open spec fn complete(self) -> bool {
        match self.range {
            Range::Local => self.ended[self.index as int],
            Range::Global => forall|w: int| 0 <= w < self.ended.len() ==> self.ended[w],
        }
    }

    /// The barrier runs on one of the workers, and has let the scope go if
    /// and only if the scope is complete.
    pub open spec fn wf(self) -> bool {
        &&& self.index < self.ended.len()
        &&& self.released == self.complete()
    }

    /// The barrier with the end of `worker`'s input noted, before it decides
    /// whether to let the scope go.
    pub open spec fn noted(self, worker: int) -> BarrierView {
        BarrierView { ended: self.ended.update(worker, true), ..self }
    }

    /// Whether the end of `worker`'s input is the signal on which the barrier
    /// lets the scope go: it completes the scope, and the scope was not let
    /// go before.
    pub open spec fn releases_on(self, worker: int) -> bool {
        !self.released && self.noted(worker).complete()
    }

    /// The barrier after the end of `worker`'s input.
    pub open spec fn signal(self, worker: int) -> BarrierView {
        BarrierView {
            released: self.released || self.noted(worker).complete(),
            ..self.noted(worker)
        }
    }

    /// The barrier after the ends of input of `workers`, in that order.
    pub open spec fn run(self, workers: Seq<int>) -> BarrierView
        decreases workers.len(),
    {
        if workers.len() == 0 {
            self
        } else {
            self.signal(workers[0]).run(workers.skip(1))
        }
    }

    /// How many times the barrier lets the scope go over the ends of input of
    /// `workers`, in that order.
    pub open spec fn releases(self, workers: Seq<int>) -> nat
        decreases workers.len(),
    {
        if workers.len() == 0 {
            0
        } else {
            let now: nat = if self.releases_on(workers[0]) {
                1
            } else {
                0
            };
            now + self.signal(workers[0]).releases(workers.skip(1))
        }
    }

    /// Whatever ends of input arrive and in whatever order, a barrier lets
    /// its scope go exactly once if they complete the scope, and never if
    /// they do not. A scope that was let go stays so.
    pub proof fn lemma_released_exactly_once(self, workers: Seq<int>)
        requires
            self.wf(),
            forall|i: int| 0 <= i < workers.len() ==> 0 <= #[trigger] workers[i] < self.ended.len(),
        ensures
            self.run(workers).wf(),
            self.run(workers).ended.len() == self.ended.len(),
            self.released ==> self.run(workers).released,
            self.releases(workers) == (if !self.released && self.run(workers).complete() {
                1nat
            } else {
                0nat
            }),
        decreases workers.len(),
    {
        if workers.len() > 0 {
            let next = self.signal(workers[0]);
            let rest = workers.skip(1);
            assert(forall|i: int| 0 <= i < rest.len() ==> rest[i] == workers[i + 1]);
            next.lemma_released_exactly_once(rest);
        }
    }
}

/// A synchronization point without a value of its own: it tells the operator
/// behind it, exactly once, that the scope is complete.
pub struct Barrier {
    range: Range,
    index: usize,
    ended: Vec<bool>,
    released: bool,
}

impl View for Barrier {
    type V = BarrierView;

    closed spec fn view(&self) -> BarrierView {
        BarrierView {
            range: self.range,
            index: self.index as nat,
            ended: self.ended@,
            released: self.released,
        }
    }
}

impl Barrier {
    /// A barrier on worker `index` of `peers` workers, before any input has
    /// ended.
    pub fn new(range: Range, index: usize, peers: usize) -> (b: Barrier)
        requires
            index < peers,
        ensures
            b@ == (BarrierView {
                range,
                index: index as nat,
                ended: Seq::new(peers as nat, |w: int| false),
                released: false,
            }),
            b@.wf(),
    {
        let mut ended: Vec<bool> = Vec::new();
        let mut w: usize = 0;
        while w < peers
            invariant
                w <= peers,
                ended@ == Seq::new(w as nat, |w: int| false),
            decreases peers - w,
        {
            ended.push(false);
            assert(ended@ =~= Seq::new((w + 1) as nat, |w: int| false));
            w += 1;
        }
        let b = Barrier { range, index, ended, released: false };
        assert(b@.ended.len() == peers);
        assert(!b@.ended[index as int]);
        assert(!b@.complete());
        b
    }

    /// How many workers the barrier waits for.
    pub fn peers(&self) -> (n: usize)
        ensures
            n == self@.ended.len(),
    {
        self.ended.len()
    }

    /// Whether the barrier has let the scope go.
    pub fn is_released(&self) -> (b: bool)
        ensures
            b == self@.released,
    {
        self.released
    }

    /// Whether every record that can belong to the scope has arrived.
    pub fn is_complete(&self) -> (b: bool)
        requires
            self@.wf(),
        ensures
            b == self@.complete(),
    {
        match self.range {
            Range::Local => self.ended[self.index],
            Range::Global => {
                let n = self.ended.len();
                let mut w: usize = 0;
                while w < n
                    invariant
                        self@.range is Global,
                        n == self.ended@.len(),
                        w <= n,
                        forall|k: int| 0 <= k < w ==> self.ended@[k],
                    decreases n - w,
                {
                    if !self.ended[w] {
                        assert(!self@.ended[w as int]);
                        return false;
                    }
                    w += 1;
                }
                true
            },
        }
    }

    /// Notes that `worker`'s input has ended, and says whether this is the
    /// signal on which the scope is let go. It says so once: on the signal
    /// that completes the scope, never before and never again.
    pub fn end_of_input(&mut self, worker: usize) -> (release: bool)
        requires
            old(self)@.wf(),
            worker < old(self)@.ended.len(),
        ensures
            release == old(self)@.releases_on(worker as int),
            final(self)@ == old(self)@.signal(worker as int),
            final(self)@.wf(),
    {
        let ghost before = self@;
        self.ended.set(worker, true);
        let complete = match self.range {
            Range::Local => self.ended[self.index],
            Range::Global => {
                let n = self.ended.len();
                let mut all = true;
                let mut w: usize = 0;
                while w < n
                    invariant
                        n == self.ended@.len(),
                        w <= n,
                        all == (forall|k: int| 0 <= k < w ==> self.ended@[k]),
                    decreases n - w,
                {
                    if !self.ended[w] {
                        all = false;
                    }
                    w += 1;
                }
                all
            },
        };
        assert(self.ended@ == before.ended.update(worker as int, true));
        assert(complete == before.noted(worker as int).complete());
        let release = complete && !self.released;
        if complete {
            self.released = true;
        }
        release
    }
}

} // verus!
