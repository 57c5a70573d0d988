//! Gathering the records of a scope into groups.

use crate::object::Primitives;
use crate::reduce::barrier::{Barrier, BarrierView};
use crate::reduce::Range;
use crate::structure::label::Label;
use vstd::prelude::*;

verus! {

/// A value that records can be grouped by.
pub trait GroupKey: Sized {
    /// Whether two keys name the same group.
    spec fn same_key(&self, other: &Self) -> bool;

    /// Naming the same group is an equivalence.
    proof fn lemma_same_key_is_an_equivalence(a: &Self, b: &Self, c: &Self)
        ensures
            a.same_key(a),
            a.same_key(b) ==> b.same_key(a),
            a.same_key(b) && b.same_key(c) ==> a.same_key(c),
    ;

    /// Whether two keys name the same group.
    fn is_same_key(&self, other: &Self) -> (b: bool)
        ensures
            b == self.same_key(other),
    ;
}

impl GroupKey for Label {
    open spec fn same_key(&self, other: &Self) -> bool {
        self.same(*other)
    }

    proof fn lemma_same_key_is_an_equivalence(a: &Self, b: &Self, c: &Self) {
    }

    fn is_same_key(&self, other: &Self) -> (b: bool) {
        *self == *other
    }
}

impl GroupKey for Primitives {
    open spec fn same_key(&self, other: &Self) -> bool {
        *self == *other
    }

    proof fn lemma_same_key_is_an_equivalence(a: &Self, b: &Self, c: &Self) {
    }

    fn is_same_key(&self, other: &Self) -> (b: bool) {
        *self == *other
    }
}

impl GroupKey for i64 {
    open spec fn same_key(&self, other: &Self) -> bool {
        *self == *other
    }

    proof fn lemma_same_key_is_an_equivalence(a: &Self, b: &Self, c: &Self) {
    }

    fn is_same_key(&self, other: &Self) -> (b: bool) {
        *self == *other
    }
}

/// One group: its key and its records, in the order they came.
#[derive(Debug, PartialEq)]
pub struct Grouped<K, T> {
    pub key: K,
    pub items: Vec<T>,
}

/// A group as contracts see it.
pub struct GroupedView<K, T> {
    pub key: K,
    pub items: Seq<T>,
}

impl<K, T> View for Grouped<K, T> {
    type V = GroupedView<K, T>;

    open spec fn view(&self) -> GroupedView<K, T> {
        GroupedView { key: self.key, items: self.items@ }
    }
}

/// A record that arrived, with the key it is grouped by.
pub struct Arrival<K, T> {
    pub key: K,
    pub item: T,
}

/// The place of the first group from `start` on that `key` names, if there
/// is one.
pub open spec fn group_from<K: GroupKey, T>(
    groups: Seq<GroupedView<K, T>>,
    key: K,
    start: int,
) -> Option<int>
    decreases groups.len() - start,
{
    if start < 0 || start >= groups.len() {
        None
    } else if groups[start].key.same_key(&key) {
        Some(start)
    } else {
        group_from(groups, key, start + 1)
    }
}

/// The groups after one more record: it joins the group that its key names,
/// or opens a new group, behind the others, if its key names none.
pub open spec fn with_record<K: GroupKey, T>(
    groups: Seq<GroupedView<K, T>>,
    key: K,
    item: T,
) -> Seq<GroupedView<K, T>> {
    match group_from(groups, key, 0) {
        Some(g) => groups.update(
            g,
            GroupedView { key: groups[g].key, items: groups[g].items.push(item) },
        ),
        None => groups.push(GroupedView { key, items: seq![item] }),
    }
}

/// The groups that a run of records makes.
pub open spec fn groups_of<K: GroupKey, T>(arrivals: Seq<Arrival<K, T>>) -> Seq<GroupedView<K, T>>
    decreases arrivals.len(),
{
    if arrivals.len() == 0 {
        Seq::empty()
    } else {
        with_record(groups_of(arrivals.drop_last()), arrivals.last().key, arrivals.last().item)
    }
}

/// The records of a run that `key` names, in order.
pub open spec fn records_of<K: GroupKey, T>(arrivals: Seq<Arrival<K, T>>, key: K) -> Seq<T>
    decreases arrivals.len(),
{
    if arrivals.len() == 0 {
        Seq::empty()
    } else if arrivals.last().key.same_key(&key) {
        records_of(arrivals.drop_last(), key).push(arrivals.last().item)
    } else {
        records_of(arrivals.drop_last(), key)
    }
}

/// No two groups are named by one key.
pub open spec fn distinct_keys<K: GroupKey, T>(groups: Seq<GroupedView<K, T>>) -> bool {
    forall|a: int, b: int|
        0 <= a < b < groups.len() ==> !(#[trigger] groups[a]).key.same_key(&(#[trigger] groups[b]).key)
}

/// What the search for a group finds: the first group that the key names,
/// or nothing where the key names none.
pub proof fn lemma_group_from<K: GroupKey, T>(groups: Seq<GroupedView<K, T>>, key: K, start: int)
    requires
        0 <= start,
    ensures
        match group_from(groups, key, start) {
            Some(g) => start <= g < groups.len() && groups[g].key.same_key(&key) && forall|i: int|
                start <= i < g ==> !(#[trigger] groups[i]).key.same_key(&key),
            None => forall|i: int|
                start <= i < groups.len() ==> !(#[trigger] groups[i]).key.same_key(&key),
        },
    decreases groups.len() - start,
{
    if start < groups.len() && !groups[start].key.same_key(&key) {
        lemma_group_from(groups, key, start + 1);
    }
}

/// Records that a key names are there only if a record with such a key is.
proof fn lemma_records_need_a_key<K: GroupKey, T>(arrivals: Seq<Arrival<K, T>>, key: K)
    ensures
        records_of(arrivals, key).len() > 0 ==> exists|i: int|
            0 <= i < arrivals.len() && (#[trigger] arrivals[i]).key.same_key(&key),
    decreases arrivals.len(),
{
    if arrivals.len() > 0 {
        let rest = arrivals.drop_last();
        lemma_records_need_a_key(rest, key);
        if records_of(arrivals, key).len() > 0 {
            if arrivals.last().key.same_key(&key) {
                assert(arrivals[arrivals.len() - 1].key.same_key(&key));
            } else {
                let i = choose|i: int| 0 <= i < rest.len() && (#[trigger] rest[i]).key.same_key(&key);
                assert(arrivals[i].key.same_key(&key));
            }
        }
    }
}

/// Grouping a run of records makes one group for each distinct key: no two
/// groups share a key, every record's key names a group, and each group
/// holds exactly the records that its key names, in the order they came.
pub proof fn lemma_one_group_per_key<K: GroupKey, T>(arrivals: Seq<Arrival<K, T>>)
    ensures
        distinct_keys(groups_of(arrivals)),
        forall|i: int|
            0 <= i < arrivals.len() ==> exists|g: int|
                0 <= g < groups_of(arrivals).len() && (#[trigger] groups_of(arrivals)[g]).key.same_key(
                    &(#[trigger] arrivals[i]).key,
                ),
        forall|g: int|
            0 <= g < groups_of(arrivals).len() ==> (#[trigger] groups_of(arrivals)[g]).items
                == records_of(arrivals, groups_of(arrivals)[g].key),
    decreases arrivals.len(),
{
    if arrivals.len() > 0 {
        let rest = arrivals.drop_last();
        let last = arrivals.last();
        let before = groups_of(rest);
        let after = groups_of(arrivals);
        lemma_one_group_per_key(rest);
        lemma_group_from(before, last.key, 0);
        assert forall|a: int, b: int| 0 <= a < b < after.len() implies !(#[trigger] after[a]).key.same_key(
            &(#[trigger] after[b]).key,
        ) by {
            if b < before.len() {
                assert(!before[a].key.same_key(&before[b].key));
            } else {
                assert(after[b].key == last.key);
                assert(!before[a].key.same_key(&last.key));
            }
        }
        assert forall|i: int| 0 <= i < arrivals.len() implies exists|g: int|
            0 <= g < after.len() && (#[trigger] after[g]).key.same_key(&(#[trigger] arrivals[i]).key) by {
            if i < rest.len() {
                assert(rest[i] == arrivals[i]);
                let g = choose|g: int|
                    0 <= g < before.len() && (#[trigger] before[g]).key.same_key(&rest[i].key);
                assert(after[g].key == before[g].key);
            } else {
                match group_from(before, last.key, 0) {
                    Some(g) => {
                        assert(after[g].key.same_key(&last.key));
                    },
                    None => {
                        K::lemma_same_key_is_an_equivalence(&last.key, &last.key, &last.key);
                        assert(after[after.len() - 1].key.same_key(&last.key));
                    },
                }
            }
        }
        assert forall|g: int| 0 <= g < after.len() implies (#[trigger] after[g]).items == records_of(
            arrivals,
            after[g].key,
        ) by {
            match group_from(before, last.key, 0) {
                Some(found) => {
                    assert(before[g].items == records_of(rest, before[g].key));
                    K::lemma_same_key_is_an_equivalence(&before[found].key, &last.key, &before[g].key);
                    K::lemma_same_key_is_an_equivalence(&last.key, &before[g].key, &before[found].key);
                    K::lemma_same_key_is_an_equivalence(&before[g].key, &before[found].key, &last.key);
                    if g != found {
                        if g < found {
                            assert(!before[g].key.same_key(&before[found].key));
                        } else {
                            assert(!before[found].key.same_key(&before[g].key));
                        }
                        assert(!last.key.same_key(&before[g].key));
                    } else {
                        assert(last.key.same_key(&before[g].key));
                    }
                },
                None => {
                    if g < before.len() {
                        assert(before[g].items == records_of(rest, before[g].key));
                        K::lemma_same_key_is_an_equivalence(&last.key, &before[g].key, &last.key);
                        assert(!before[g].key.same_key(&last.key));
                        assert(!last.key.same_key(&before[g].key));
                    } else {
                        K::lemma_same_key_is_an_equivalence(&last.key, &last.key, &last.key);
                        lemma_records_need_a_key(rest, last.key);
                        if records_of(rest, last.key).len() > 0 {
                            let i = choose|i: int|
                                0 <= i < rest.len() && (#[trigger] rest[i]).key.same_key(&last.key);
                            let h = choose|h: int|
                                0 <= h < before.len() && (#[trigger] before[h]).key.same_key(
                                    &rest[i].key,
                                );
                            K::lemma_same_key_is_an_equivalence(
                                &before[h].key,
                                &rest[i].key,
                                &last.key,
                            );
                            assert(!before[h].key.same_key(&last.key));
                        }
                        assert(records_of(rest, last.key) =~= Seq::<T>::empty());
                        assert(after[g].items =~= records_of(arrivals, last.key));
                    }
                },
            }
        }
    }
}


/// A grouping operator as contracts see it.
pub struct GroupView<K, T> {
    pub barrier: BarrierView,
    /// The groups made so far, in the order they were opened.
    pub groups: Seq<GroupedView<K, T>>,
}

/// Gathers the records of a scope into groups by key and, once the scope is
/// complete, emits one group for each distinct key.
pub struct Group<K, T> {
    barrier: Barrier,
    groups: Vec<Grouped<K, T>>,
}

impl<K, T> View for Group<K, T> {
    type V = GroupView<K, T>;

    closed spec fn view(&self) -> GroupView<K, T> {
        GroupView {
            barrier: self.barrier@,
            groups: Seq::new(self.groups@.len(), |g: int| self.groups@[g]@),
        }
    }
}

impl<K: GroupKey, T> Group<K, T> {
    /// A grouping operator on worker `index` of `peers` workers.
    pub fn new(range: Range, index: usize, peers: usize) -> (o: Self)
        requires
            index < peers,
        ensures
            o@ == (GroupView::<K, T> {
                barrier: BarrierView {
                    range,
                    index: index as nat,
                    ended: Seq::new(peers as nat, |w: int| false),
                    released: false,
                },
                groups: Seq::empty(),
            }),
            o@.barrier.wf(),
    {
        let o = Group { barrier: Barrier::new(range, index, peers), groups: Vec::new() };
        assert(o@.groups =~= Seq::empty());
        o
    }

    /// How many workers the operator waits for.
    pub fn peers(&self) -> (n: usize)
        ensures
            n == self@.barrier.ended.len(),
    {
        self.barrier.peers()
    }

    /// Takes one record with its key: it joins the group that its key names,
    /// or opens a new group if its key names none.
    pub fn on_item(&mut self, key: K, item: T)
        ensures
            final(self)@ == (GroupView {
                groups: with_record(old(self)@.groups, key, item),
                ..old(self)@
            }),
    {
        let ghost start = self@;
        let ghost before = self@.groups;
        let n = self.groups.len();
        let mut g: usize = 0;
        while g < n
            invariant
                n == self.groups@.len(),
                g <= n,
                self@ == start,
                start == old(self)@,
                before == start.groups,
                group_from(before, key, 0) == group_from(before, key, g as int),
            decreases n - g,
        {
            assert(before[g as int].key == self.groups@[g as int].key);
            if self.groups[g].key.is_same_key(&key) {
                self.groups[g].items.push(item);
                assert(self@.groups =~= with_record(before, key, item));
                return ;
            }
            g += 1;
        }
        let mut items: Vec<T> = Vec::new();
        items.push(item);
        self.groups.push(Grouped { key, items });
        assert(self@.groups =~= with_record(before, key, item));
    }

    /// Discards the groups made so far, as the cancellation of the scope
    /// asks, and says how many groups that were. Nothing else changes.
    pub fn discard(&mut self) -> (n: usize)
        ensures
            n == old(self)@.groups.len(),
            final(self)@ == (GroupView { groups: Seq::empty(), ..old(self)@ }),
    {
        let n = self.groups.len();
        self.groups.clear();
        assert(self@.groups =~= Seq::empty());
        n
    }

    /// Notes that `worker`'s input has ended. On the signal that completes
    /// the scope the groups come out, in the order they were opened, and
    /// none is kept; on every other signal nothing comes out and the groups
    /// stay.
    pub fn on_end(&mut self, worker: usize) -> (out: Option<Vec<Grouped<K, T>>>)
        requires
            old(self)@.barrier.wf(),
            worker < old(self)@.barrier.ended.len(),
        ensures
            final(self)@.barrier == old(self)@.barrier.signal(worker as int),
            final(self)@.barrier.wf(),
            out is Some <==> old(self)@.barrier.releases_on(worker as int),
            out is Some ==> final(self)@.groups.len() == 0 && out->0@.len() == old(
                self,
            )@.groups.len() && forall|g: int|
                0 <= g < out->0@.len() ==> (#[trigger] out->0@[g])@ == old(self)@.groups[g],
            out is None ==> final(self)@.groups == old(self)@.groups,
    {
        if self.barrier.end_of_input(worker) {
            let mut groups: Vec<Grouped<K, T>> = Vec::new();
            core::mem::swap(&mut self.groups, &mut groups);
            Some(groups)
        } else {
            assert(self@.groups =~= old(self)@.groups);
            None
        }
    }
}

} // verus!
