//! Putting the records of a scope in order.

use crate::reduce::barrier::{Barrier, BarrierView};
use crate::reduce::Range;
use vstd::prelude::*;

verus! {

/// The direction of an order.
#[derive(Clone, Copy, Debug, PartialEq, Eq, Structural)]
pub enum OrderDirect {
    Asc,
    Desc,
}

/// A record together with the key it is ordered by.
#[derive(Debug, PartialEq)]
pub struct Keyed<T> {
    pub key: i64,
    pub item: T,
}

/// Whether a record with key `a` has to come before one with key `b`.
pub open spec fn goes_before(direct: OrderDirect, a: i64, b: i64) -> bool {
    match direct {
        OrderDirect::Asc => a < b,
        OrderDirect::Desc => a > b,
    }
}

/// `out` holds the records of `items` in order, and `from` tells for each
/// place of `out` the place in `items` that its record came from: every
/// record is there exactly once, no record stands before one that has to
/// come before it, and records with equal keys stand as they stood in
/// `items`.
pub open spec fn stably_ordered<T>(
    items: Seq<Keyed<T>>,
    out: Seq<Keyed<T>>,
    from: Seq<int>,
    direct: OrderDirect,
) -> bool {
    &&& out.len() == items.len()
    &&& from.len() == items.len()
    &&& forall|k: int|
        0 <= k < out.len() ==> 0 <= #[trigger] from[k] < items.len() && out[k] == items[from[k]]
    &&& forall|a: int, b: int| 0 <= a < b < out.len() ==> #[trigger] from[a] != #[trigger] from[b]
    &&& forall|a: int, b: int|
        0 <= a < b < out.len() ==> !goes_before(direct, (#[trigger] out[b]).key, (#[trigger] out[a]).key)
    &&& forall|a: int, b: int|
        0 <= a < b < out.len() && out[a].key == out[b].key ==> #[trigger] from[a] < #[trigger] from[b]
}

fn before(direct: OrderDirect, a: i64, b: i64) -> (r: bool)
    ensures
        r == goes_before(direct, a, b),
{
    match direct {
        OrderDirect::Asc => a < b,
        OrderDirect::Desc => a > b,
    }
}

/// Orders records by their keys, ascending or descending. Records with equal
/// keys keep the order in which they came.
pub fn sort_keyed<T>(items: Vec<Keyed<T>>, direct: OrderDirect) -> (out: Vec<Keyed<T>>)
    ensures
        exists|from: Seq<int>| stably_ordered(items@, out@, from, direct),
{
    let ghost all = items@;
    let ghost n = all.len() as int;
    let mut items = items;
    let mut out: Vec<Keyed<T>> = Vec::new();
    let ghost mut from: Seq<int> = Seq::empty();
    while items.len() > 0
        invariant
            n == all.len(),
            items@.len() <= n,
            items@ == all.take(items@.len() as int),
            out@.len() == n - items@.len(),
            from.len() == out@.len(),
            forall|k: int|
                0 <= k < out@.len() ==> items@.len() <= #[trigger] from[k] < n && out@[k]
                    == all[from[k]],
            forall|a: int, b: int|
                0 <= a < b < out@.len() ==> #[trigger] from[a] != #[trigger] from[b],
            forall|a: int, b: int|
                0 <= a < b < out@.len() ==> !goes_before(
                    direct,
                    (#[trigger] out@[b]).key,
                    (#[trigger] out@[a]).key,
                ),
            forall|a: int, b: int|
                0 <= a < b < out@.len() && out@[a].key == out@[b].key ==> #[trigger] from[a]
                    < #[trigger] from[b],
        decreases items@.len(),
    {
        let ghost m = items@.len() as int;
        let x = items.pop().unwrap();
        assert(x == all[m - 1]);
        assert(items@ =~= all.take(m - 1));
        let len = out.len();
        let mut p: usize = 0;
        while p < len && before(direct, out[p].key, x.key)
            invariant
                len == out@.len(),
                p <= len,
                forall|k: int| 0 <= k < p ==> goes_before(direct, (#[trigger] out@[k]).key, x.key),
            decreases len - p,
        {
            p += 1;
        }
        let ghost old_out = out@;
        let ghost old_from = from;
        out.insert(p, x);
        proof {
            from = old_from.insert(p as int, m - 1);
            assert forall|k: int| 0 <= k < out@.len() implies out@[k] == (if k < p {
                old_out[k]
            } else if k == p {
                x
            } else {
                old_out[k - 1]
            }) && from[k] == (if k < p {
                old_from[k]
            } else if k == p {
                m - 1
            } else {
                old_from[k - 1]
            }) by {}
            assert forall|k: int| p <= k < old_out.len() implies !goes_before(
                direct,
                (#[trigger] old_out[k]).key,
                x.key,
            ) by {
                if k > p {
                    assert(!goes_before(direct, old_out[k].key, old_out[p as int].key));
                }
            }
            assert forall|a: int, b: int| 0 <= a < b < out@.len() implies !goes_before(
                direct,
                (#[trigger] out@[b]).key,
                (#[trigger] out@[a]).key,
            ) by {
                if b == p {
                    assert(goes_before(direct, old_out[a].key, x.key));
                } else if a == p {
                    assert(!goes_before(direct, old_out[b - 1].key, x.key));
                } else {
                    let a0 = if a < p { a } else { a - 1 };
                    let b0 = if b < p { b } else { b - 1 };
                    assert(!goes_before(direct, old_out[b0].key, old_out[a0].key));
                }
            }
            assert forall|a: int, b: int|
                0 <= a < b < out@.len() implies #[trigger] from[a] != #[trigger] from[b] by {
                let a0 = if a < p { a } else { a - 1 };
                let b0 = if b < p { b } else { b - 1 };
                if a != p && b != p {
                    assert(old_from[a0] != old_from[b0]);
                } else if a == p {
                    assert(old_from[b0] >= m);
                } else {
                    assert(old_from[a0] >= m);
                }
            }
            assert forall|a: int, b: int|
                0 <= a < b < out@.len() && out@[a].key == out@[b].key implies #[trigger] from[a]
                < #[trigger] from[b] by {
                let a0 = if a < p { a } else { a - 1 };
                let b0 = if b < p { b } else { b - 1 };
                if a != p && b != p {
                    assert(old_from[a0] < old_from[b0]);
                } else if a == p {
                    assert(old_from[b0] >= m);
                } else {
                    assert(goes_before(direct, old_out[a].key, x.key));
                }
            }
        }
    }
    assert(stably_ordered(all, out@, from, direct));
    out
}


/// The records of `keyed`, without their keys.
pub open spec fn items_of<T>(keyed: Seq<Keyed<T>>) -> Seq<T> {
    Seq::new(keyed.len(), |i: int| keyed[i].item)
}

/// `keyed` pairs each record of `items` with a key that `key` gave for it.
pub open spec fn keyed_by<T, F: Fn(&T) -> i64>(items: Seq<T>, key: F, keyed: Seq<Keyed<T>>) -> bool {
    &&& keyed.len() == items.len()
    &&& forall|i: int|
        0 <= i < items.len() ==> (#[trigger] keyed[i]).item == items[i] && call_ensures(
            key,
            (&items[i],),
            keyed[i].key,
        )
}

/// Asks `key` for the key of each record, once and in order.
pub fn key_all<T, F: Fn(&T) -> i64>(items: Vec<T>, key: &F) -> (keyed: Vec<Keyed<T>>)
    requires
        forall|i: int| 0 <= i < items@.len() ==> call_requires(*key, (&#[trigger] items@[i],)),
    ensures
        keyed_by(items@, *key, keyed@),
{
    let ghost all = items@;
    let mut keyed: Vec<Keyed<T>> = Vec::new();
    for item in it: items
        invariant
            it.seq() == all,
            forall|i: int| 0 <= i < all.len() ==> call_requires(*key, (&#[trigger] all[i],)),
            keyed@.len() == it.index(),
            forall|i: int|
                0 <= i < keyed@.len() ==> (#[trigger] keyed@[i]).item == all[i] && call_ensures(
                    *key,
                    (&all[i],),
                    keyed@[i].key,
                ),
    {
        let k = key(&item);
        keyed.push(Keyed { key: k, item });
    }
    keyed
}

/// Drops the keys.
pub fn unkeyed<T>(keyed: Vec<Keyed<T>>) -> (items: Vec<T>)
    ensures
        items@ == items_of(keyed@),
{
    let ghost all = keyed@;
    let mut items: Vec<T> = Vec::new();
    for k in it: keyed
        invariant
            it.seq() == all,
            items@.len() == it.index(),
            forall|i: int| 0 <= i < items@.len() ==> #[trigger] items@[i] == all[i].item,
    {
        items.push(k.item);
    }
    assert(items@ =~= items_of(all));
    items
}

/// Orders records by the key that `key` gives for each, ascending or
/// descending; records with equal keys keep the order in which they came.
/// Each record's key is asked for once.
pub fn order_by<T, F: Fn(&T) -> i64>(items: Vec<T>, key: F, direct: OrderDirect) -> (out: Vec<T>)
    requires
        forall|i: int| 0 <= i < items@.len() ==> call_requires(key, (&#[trigger] items@[i],)),
    ensures
        exists|keyed: Seq<Keyed<T>>, sorted: Seq<Keyed<T>>, from: Seq<int>|
            keyed_by(items@, key, keyed) && stably_ordered(keyed, sorted, from, direct) && out@
                == items_of(sorted),
{
    let keyed = key_all(items, &key);
    let ghost k = keyed@;
    let sorted = sort_keyed(keyed, direct);
    let ghost s = sorted@;
    let out = unkeyed(sorted);
    proof {
        let from = choose|from: Seq<int>| stably_ordered(k, s, from, direct);
        assert(keyed_by(items@, key, k) && stably_ordered(k, s, from, direct) && out@ == items_of(
            s,
        ));
    }
    out
}

/// An ordering operator as contracts see it.
pub struct OrderView<T> {
    pub barrier: BarrierView,
    pub direct: OrderDirect,
    /// The records that have arrived, as they came.
    pub buffer: Seq<Keyed<T>>,
}

/// Buffers the records of a scope and, once the scope is complete, emits
/// them in order.
pub struct Order<T> {
    barrier: Barrier,
    direct: OrderDirect,
    buffer: Vec<Keyed<T>>,
}

impl<T> View for Order<T> {
    type V = OrderView<T>;

    closed spec fn view(&self) -> OrderView<T> {
        OrderView { barrier: self.barrier@, direct: self.direct, buffer: self.buffer@ }
    }
}

impl<T> Order<T> {
    /// An ordering operator on worker `index` of `peers` workers.
    pub fn new(direct: OrderDirect, range: Range, index: usize, peers: usize) -> (o: Self)
        requires
            index < peers,
        ensures
            o@ == (OrderView::<T> {
                barrier: BarrierView {
                    range,
                    index: index as nat,
                    ended: Seq::new(peers as nat, |w: int| false),
                    released: false,
                },
                direct,
                buffer: Seq::empty(),
            }),
            o@.barrier.wf(),
    {
        Order { barrier: Barrier::new(range, index, peers), direct, buffer: Vec::new() }
    }

    /// How many workers the operator waits for.
    pub fn peers(&self) -> (n: usize)
        ensures
            n == self@.barrier.ended.len(),
    {
        self.barrier.peers()
    }

    /// Buffers one record with its key.
    pub fn on_item(&mut self, key: i64, item: T)
        ensures
            final(self)@ == (OrderView { buffer: old(self)@.buffer.push(Keyed { key, item }), ..old(
                self,
            )@ }),
    {
        self.buffer.push(Keyed { key, item });
    }

    /// Discards what is buffered, as the cancellation of the scope asks,
    /// and says how many records that were. Nothing else changes.
    pub fn discard(&mut self) -> (n: usize)
        ensures
            n == old(self)@.buffer.len(),
            final(self)@ == (OrderView { buffer: Seq::empty(), ..old(self)@ }),
    {
        let n = self.buffer.len();
        self.buffer.clear();
        n
    }

    /// Notes that `worker`'s input has ended. On the signal that completes
    /// the scope everything buffered comes out, in order, and the buffer is
    /// left empty; on every other signal nothing comes out and the buffer
    /// stays.
    pub fn on_end(&mut self, worker: usize) -> (out: Option<Vec<Keyed<T>>>)
        requires
            old(self)@.barrier.wf(),
            worker < old(self)@.barrier.ended.len(),
        ensures
            final(self)@.barrier == old(self)@.barrier.signal(worker as int),
            final(self)@.barrier.wf(),
            final(self)@.direct == old(self)@.direct,
            out is Some <==> old(self)@.barrier.releases_on(worker as int),
            out is Some ==> final(self)@.buffer.len() == 0 && exists|from: Seq<int>|
                stably_ordered(old(self)@.buffer, out->0@, from, old(self)@.direct),
            out is None ==> final(self)@.buffer == old(self)@.buffer,
    {
        if self.barrier.end_of_input(worker) {
            let mut buffered: Vec<Keyed<T>> = Vec::new();
            core::mem::swap(&mut self.buffer, &mut buffered);
            let ghost all = buffered@;
            let sorted = sort_keyed(buffered, self.direct);
            proof {
                let from = choose|from: Seq<int>| stably_ordered(all, sorted@, from, self.direct);
                assert(all == old(self)@.buffer);
                assert(stably_ordered(old(self)@.buffer, sorted@, from, old(self)@.direct));
                assert(self@.buffer.len() == 0);
            }
            let ghost emitted = sorted@;
            let out = Some(sorted);
            assert(out->0@ == emitted);
            assert(exists|from: Seq<int>|
                stably_ordered(old(self)@.buffer, emitted, from, old(self)@.direct));
            out
        } else {
            None
        }
    }
}


/// Merges what two workers have put in order into one order, as a total
/// order across workers needs it. Of records with equal keys those of `left`
/// come first, and within each side they stay as they stood.
pub fn merge_partials<T>(left: Vec<Keyed<T>>, right: Vec<Keyed<T>>, direct: OrderDirect) -> (out:
    Vec<Keyed<T>>)
    ensures
        exists|from: Seq<int>| stably_ordered(left@ + right@, out@, from, direct),
{
    let mut all = left;
    let mut rest = right;
    all.append(&mut rest);
    sort_keyed(all, direct)
}

} // verus!
