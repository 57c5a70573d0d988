//! Splitting a stream into scopes that run independently of each other.

use vstd::pervasive::cloned;
use vstd::prelude::*;
use vstd::relations::injective_on;
use vstd::seq_lib::seq_to_set_is_finite;
use vstd::set_lib::{lemma_map_size, lemma_set_subset_finite};

verus! {

/// Why a stream cannot be scoped one level deeper.
#[derive(Clone, Copy, Debug, PartialEq, Eq, Structural)]
pub enum BuildJobError {
    /// A record of the stream sits at another depth than the stream does.
    ConflictingScopeDepth,
    /// The stream is as deep as a stream can be.
    ScopeDepthExceeded,
    /// A window of no records was asked for.
    EmptyWindow,
    /// There are more windows than keys to name them.
    TooManyWindows,
}

/// A record and the scope it belongs to: the keys of the scopes around it,
/// outermost first.
#[derive(Debug, PartialEq)]
pub struct Scoped<D> {
    pub scope: Vec<u32>,
    pub item: D,
}

/// A record in its scope, as contracts see it.
pub struct ScopedView<D> {
    pub scope: Seq<u32>,
    pub item: D,
}

impl<D> View for Scoped<D> {
    type V = ScopedView<D>;

    open spec fn view(&self) -> ScopedView<D> {
        ScopedView { scope: self.scope@, item: self.item }
    }
}

/// A stream as contracts see it.
pub struct StreamView<D> {
    /// How many scopes are around each record.
    pub depth: nat,
    /// The records, as they arrive.
    pub items: Seq<ScopedView<D>>,
}

impl<D> StreamView<D> {
    /// Whether every record sits at the depth of the stream.
    pub open spec fn aligned(self) -> bool {
        forall|i: int| 0 <= i < self.items.len() ==> (#[trigger] self.items[i]).scope.len() == self.depth
    }

    /// Whether the stream holds a record of the scope.
    pub open spec fn has_scope(self, scope: Seq<u32>) -> bool {
        exists|i: int| 0 <= i < self.items.len() && (#[trigger] self.items[i]).scope == scope
    }

    /// The scopes that the stream holds a record of.
    pub open spec fn scopes(self) -> Set<Seq<u32>> {
        Set::new(|scope: Seq<u32>| self.has_scope(scope))
    }

    /// How many records of the scope arrive before place `upto`.
    pub open spec fn rank(self, scope: Seq<u32>, upto: int) -> nat
        decreases upto,
    {
        if upto <= 0 {
            0
        } else {
            let before = self.rank(scope, upto - 1);
            if self.items[upto - 1].scope == scope {
                before + 1
            } else {
                before
            }
        }
    }
}

/// The places at which a key was given, in order.
pub open spec fn chosen(keys: Seq<Option<u32>>) -> Seq<int>
    decreases keys.len(),
{
    if keys.len() == 0 {
        Seq::empty()
    } else if keys.last() is Some {
        chosen(keys.drop_last()).push(keys.len() - 1)
    } else {
        chosen(keys.drop_last())
    }
}

/// `out` is `input` one level deeper under `keys`: each record that was given
/// a key enters the scope of that key inside the scope it was in, as a copy;
/// a record that was given none is left out; the order stays.
pub open spec fn entered<D: Clone>(
    input: StreamView<D>,
    keys: Seq<Option<u32>>,
    out: StreamView<D>,
) -> bool {
    &&& keys.len() == input.items.len()
    &&& out.depth == input.depth + 1
    &&& out.items.len() == chosen(keys).len()
    &&& forall|j: int|
        0 <= j < out.items.len() ==> {
            let i = #[trigger] chosen(keys)[j];
            &&& 0 <= i < input.items.len()
            &&& keys[i] is Some
            &&& out.items[j].scope == input.items[i].scope.push(keys[i]->0)
            &&& cloned(input.items[i].item, out.items[j].item)
        }
}

/// Whether `keys` are keys that `key` gave for the records of `input`.
pub open spec fn keys_given<D, F: Fn(&D) -> Option<u32>>(
    input: StreamView<D>,
    key: F,
    keys: Seq<Option<u32>>,
) -> bool {
    &&& keys.len() == input.items.len()
    &&& forall|i: int|
        0 <= i < input.items.len() ==> call_ensures(key, (&input.items[i].item,), #[trigger] keys[i])
}

/// The keys that put each record of `input` into the window it falls in,
/// where a window is `length` consecutive records of one scope.
pub open spec fn window_keys<D>(input: StreamView<D>, length: nat) -> Seq<Option<u32>> {
    Seq::new(
        input.items.len(),
        |i: int| Some((input.rank(input.items[i].scope, i) / length) as u32),
    )
}

/// Whether some window of the stream has a number that no key can hold.
pub open spec fn windows_overflow<D>(input: StreamView<D>, length: nat) -> bool {
    exists|i: int|
        0 <= i < input.items.len() && input.rank((#[trigger] input.items[i]).scope, i) / length
            > u32::MAX
}

/// What scoping by key answers.
pub open spec fn scoped_by<D: Clone, F: Fn(&D) -> Option<u32>>(
    input: StreamView<D>,
    key: F,
    res: Result<Stream<D>, BuildJobError>,
) -> bool {
    match res {
        Ok(s) => {
            &&& input.aligned()
            &&& input.depth < usize::MAX
            &&& exists|keys: Seq<Option<u32>>| keys_given(input, key, keys) && entered(input, keys, s@)
        },
        Err(BuildJobError::ConflictingScopeDepth) => !input.aligned(),
        Err(BuildJobError::ScopeDepthExceeded) => input.aligned() && input.depth >= usize::MAX,
        Err(_) => false,
    }
}

/// What scoping by window size answers.
pub open spec fn scoped_by_size<D: Clone>(
    input: StreamView<D>,
    length: nat,
    res: Result<Stream<D>, BuildJobError>,
) -> bool {
    match res {
        Ok(s) => {
            &&& length > 0
            &&& input.aligned()
            &&& input.depth < usize::MAX
            &&& !windows_overflow(input, length)
            &&& entered(input, window_keys(input, length), s@)
        },
        Err(BuildJobError::EmptyWindow) => length == 0,
        Err(BuildJobError::ConflictingScopeDepth) => length > 0 && !input.aligned(),
        Err(BuildJobError::ScopeDepthExceeded) => length > 0 && input.aligned() && input.depth
            >= usize::MAX,
        Err(BuildJobError::TooManyWindows) => length > 0 && input.aligned() && input.depth
            < usize::MAX && windows_overflow(input, length),
    }
}

/// The two ways to split a stream into scopes.
pub trait Multiplexing<D: Clone> {
    /// The stream as contracts see it.
    spec fn flow(&self) -> StreamView<D>;

    /// Gives every record for which `key` answers with a key a scope of that
    /// key, one level deeper, and leaves out the records for which it answers
    /// with none. `key` is asked once for each record, in order.
    fn scope_by<F>(&self, key: F) -> (res: Result<Stream<D>, BuildJobError>) where
        F: Fn(&D) -> Option<u32>,

        requires
            forall|i: int|
                0 <= i < self.flow().items.len() ==> call_requires(
                    key,
                    (&(#[trigger] self.flow().items[i]).item,),
                ),
        ensures
            scoped_by(self.flow(), key, res),
    ;

    /// Gives every `length` consecutive records of a scope a scope of their
    /// own, one level deeper, numbered from zero within the scope they were in.
    fn scope_by_size(&self, length: usize) -> (res: Result<Stream<D>, BuildJobError>)
        ensures
            scoped_by_size(self.flow(), length as nat, res),
    ;
}

/// A flow of records, each in its scope.
#[derive(Debug, PartialEq)]
pub struct Stream<D> {
    depth: usize,
    items: Vec<Scoped<D>>,
}

impl<D> View for Stream<D> {
    type V = StreamView<D>;

    closed spec fn view(&self) -> StreamView<D> {
        StreamView { depth: self.depth as nat, items: Seq::new(self.items@.len(), |i: int| self.items@[i]@) }
    }
}

/// A copy of a scope.
fn clone_scope(scope: &Vec<u32>) -> (res: Vec<u32>)
    ensures
        res@ == scope@,
{
    let mut res: Vec<u32> = Vec::new();
    let n = scope.len();
    let mut i: usize = 0;
    while i < n
        invariant
            n == scope@.len(),
            i <= n,
            res@ == scope@.take(i as int),
        decreases n - i,
    {
        res.push(scope[i]);
        assert(res@ =~= scope@.take(i + 1));
        i += 1;
    }
    assert(scope@.take(n as int) =~= scope@);
    res
}

/// Whether two scopes are the same scope.
fn same_scope(a: &Vec<u32>, b: &Vec<u32>) -> (r: bool)
    ensures
        r == (a@ == b@),
{
    if a.len() != b.len() {
        return false;
    }
    let n = a.len();
    let mut i: usize = 0;
    while i < n
        invariant
            n == a@.len(),
            n == b@.len(),
            i <= n,
            a@.take(i as int) == b@.take(i as int),
        decreases n - i,
    {
        if a[i] != b[i] {
            return false;
        }
        assert(a@.take(i + 1) =~= a@.take(i as int).push(a@[i as int]));
        assert(b@.take(i + 1) =~= b@.take(i as int).push(b@[i as int]));
        i += 1;
    }
    assert(a@.take(n as int) =~= a@);
    assert(b@.take(n as int) =~= b@);
    true
}

impl<D> Stream<D> {
    /// The stream of `items` outside any scope.
    pub fn new(items: Vec<D>) -> (s: Self)
        ensures
            s@.depth == 0,
            s@.aligned(),
            s@.items.len() == items@.len(),
            forall|i: int|
                0 <= i < items@.len() ==> #[trigger] s@.items[i] == (ScopedView {
                    scope: Seq::empty(),
                    item: items@[i],
                }),
    {
        let ghost all = items@;
        let mut scoped: Vec<Scoped<D>> = Vec::new();
        for item in it: items
            invariant
                it.seq() == all,
                scoped@.len() == it.index(),
                forall|i: int|
                    0 <= i < scoped@.len() ==> (#[trigger] scoped@[i])@ == (ScopedView {
                        scope: Seq::empty(),
                        item: all[i],
                    }),
        {
            scoped.push(Scoped { scope: Vec::new(), item });
        }
        Stream { depth: 0, items: scoped }
    }

    /// The stream of `items` at depth `depth`. Nothing is checked here: a
    /// record at another depth is found when the stream is scoped.
    pub fn from_scoped(depth: usize, items: Vec<Scoped<D>>) -> (s: Self)
        ensures
            s@.depth == depth,
            s@.items.len() == items@.len(),
            forall|i: int| 0 <= i < items@.len() ==> #[trigger] s@.items[i] == items@[i]@,
    {
        Stream { depth, items }
    }

    /// How many scopes are around each record.
    pub fn depth(&self) -> (d: usize)
        ensures
            d == self@.depth,
    {
        self.depth
    }

    /// The records, as they arrive.
    pub fn items(&self) -> (items: &Vec<Scoped<D>>)
        ensures
            items@.len() == self@.items.len(),
            forall|i: int| 0 <= i < items@.len() ==> #[trigger] items@[i]@ == self@.items[i],
    {
        &self.items
    }

    /// Whether every record sits at the depth of the stream.
    pub fn is_aligned(&self) -> (b: bool)
        ensures
            b == self@.aligned(),
    {
        let n = self.items.len();
        let mut i: usize = 0;
        while i < n
            invariant
                n == self.items@.len(),
                i <= n,
                forall|k: int| 0 <= k < i ==> (#[trigger] self@.items[k]).scope.len() == self@.depth,
            decreases n - i,
        {
            if self.items[i].scope.len() != self.depth {
                assert(self@.items[i as int].scope.len() != self@.depth);
                return false;
            }
            i += 1;
        }
        true
    }
}


impl<D: Clone> Stream<D> {
    /// Puts every record that has a key one level deeper, as
    /// [`entered`] says. `keys` holds one entry for each record.
    fn enter(&self, keys: &Vec<Option<u32>>) -> (out: Stream<D>)
        requires
            keys@.len() == self@.items.len(),
            self@.depth < usize::MAX,
        ensures
            entered(self@, keys@, out@),
    {
        let n = self.items.len();
        let mut scoped: Vec<Scoped<D>> = Vec::new();
        let mut i: usize = 0;
        assert(keys@.take(0) =~= Seq::<Option<u32>>::empty());
        while i < n
            invariant
                n == self.items@.len(),
                n == keys@.len(),
                i <= n,
                scoped@.len() == chosen(keys@.take(i as int)).len(),
                forall|j: int|
                    0 <= j < scoped@.len() ==> {
                        let at = #[trigger] chosen(keys@.take(i as int))[j];
                        &&& 0 <= at < i
                        &&& keys@[at] is Some
                        &&& scoped@[j].scope@ == self.items@[at].scope@.push(keys@[at]->0)
                        &&& cloned(self.items@[at].item, scoped@[j].item)
                    },
            decreases n - i,
        {
            let ghost before = chosen(keys@.take(i as int));
            let ghost after = chosen(keys@.take(i + 1));
            let ghost held = scoped@;
            proof {
                assert(keys@.take(i + 1).drop_last() =~= keys@.take(i as int));
                assert(keys@.take(i + 1).last() == keys@[i as int]);
                assert(after == if keys@[i as int] is Some {
                    before.push(i as int)
                } else {
                    before
                });
            }
            match keys[i] {
                Some(k) => {
                    let mut scope = clone_scope(&self.items[i].scope);
                    scope.push(k);
                    let item = self.items[i].item.clone();
                    scoped.push(Scoped { scope, item });
                    assert(scoped@.len() == after.len());
                    assert(after[held.len() as int] == i);
                },
                None => {},
            }
            assert forall|j: int| 0 <= j < scoped@.len() implies {
                let at = #[trigger] after[j];
                &&& 0 <= at < i + 1
                &&& keys@[at] is Some
                &&& scoped@[j].scope@ == self.items@[at].scope@.push(keys@[at]->0)
                &&& cloned(self.items@[at].item, scoped@[j].item)
            } by {
                if j < held.len() {
                    assert(scoped@[j] == held[j]);
                    assert(after[j] == before[j]);
                }
            }
            i += 1;
        }
        assert(keys@.take(n as int) =~= keys@);
        let out = Stream { depth: self.depth + 1, items: scoped };
        assert forall|j: int| 0 <= j < out@.items.len() implies {
            let at = #[trigger] chosen(keys@)[j];
            &&& 0 <= at < self@.items.len()
            &&& keys@[at] is Some
            &&& out@.items[j].scope == self@.items[at].scope.push(keys@[at]->0)
            &&& cloned(self@.items[at].item, out@.items[j].item)
        } by {
            assert(out@.items[j] == scoped@[j]@);
        }
        out
    }

    /// How many records of the scope of record `i` arrive before it.
    fn rank_of(&self, i: usize) -> (r: usize)
        requires
            i < self@.items.len(),
        ensures
            r == self@.rank(self@.items[i as int].scope, i as int),
    {
        let mut r: usize = 0;
        let mut j: usize = 0;
        while j < i
            invariant
                i < self.items@.len(),
                j <= i,
                r <= j,
                r == self@.rank(self@.items[i as int].scope, j as int),
            decreases i - j,
        {
            assert(self@.items[j as int].scope == self.items@[j as int].scope@);
            assert(self@.items[i as int].scope == self.items@[i as int].scope@);
            if same_scope(&self.items[j].scope, &self.items[i].scope) {
                r += 1;
            }
            j += 1;
        }
        r
    }
}

impl<D: Clone> Multiplexing<D> for Stream<D> {
    open spec fn flow(&self) -> StreamView<D> {
        self@
    }

    fn scope_by<F>(&self, key: F) -> (res: Result<Stream<D>, BuildJobError>) where
        F: Fn(&D) -> Option<u32>,
     {
        if !self.is_aligned() {
            return Err(BuildJobError::ConflictingScopeDepth);
        }
        if self.depth == usize::MAX {
            return Err(BuildJobError::ScopeDepthExceeded);
        }
        let n = self.items.len();
        let mut keys: Vec<Option<u32>> = Vec::new();
        let mut i: usize = 0;
        assert forall|k: int| 0 <= k < n implies call_requires(
            key,
            (&(#[trigger] self@.items[k]).item,),
        ) by {
            assert(self.flow().items[k] == self@.items[k]);
        }
        while i < n
            invariant
                n == self.items@.len(),
                i <= n,
                keys@.len() == i,
                forall|k: int|
                    0 <= k < n ==> call_requires(key, (&(#[trigger] self@.items[k]).item,)),
                forall|k: int|
                    0 <= k < i ==> call_ensures(key, (&self@.items[k].item,), #[trigger] keys@[k]),
            decreases n - i,
        {
            assert(self@.items[i as int].item == self.items@[i as int].item);
            let k = key(&self.items[i].item);
            keys.push(k);
            i += 1;
        }
        let out = self.enter(&keys);
        assert(keys_given(self@, key, keys@) && entered(self@, keys@, out@));
        Ok(out)
    }

    fn scope_by_size(&self, length: usize) -> (res: Result<Stream<D>, BuildJobError>) {
        if length == 0 {
            return Err(BuildJobError::EmptyWindow);
        }
        if !self.is_aligned() {
            return Err(BuildJobError::ConflictingScopeDepth);
        }
        if self.depth == usize::MAX {
            return Err(BuildJobError::ScopeDepthExceeded);
        }
        let n = self.items.len();
        let mut keys: Vec<Option<u32>> = Vec::new();
        let mut i: usize = 0;
        while i < n
            invariant
                length > 0,
                self@.aligned(),
                self@.depth < usize::MAX,
                n == self.items@.len(),
                i <= n,
                keys@.len() == i,
                forall|k: int|
                    0 <= k < i ==> self@.rank((#[trigger] self@.items[k]).scope, k) / (length as nat)
                        <= u32::MAX,
                forall|k: int|
                    0 <= k < i ==> #[trigger] keys@[k] == Some(
                        (self@.rank(self@.items[k].scope, k) / (length as nat)) as u32,
                    ),
            decreases n - i,
        {
            let window = self.rank_of(i) / length;
            if window > u32::MAX as usize {
                assert(self@.rank(self@.items[i as int].scope, i as int) / (length as nat) > u32::MAX);
                assert(windows_overflow(self@, length as nat));
                return Err(BuildJobError::TooManyWindows);
            }
            keys.push(Some(window as u32));
            i += 1;
        }
        assert(keys@ =~= window_keys(self@, length as nat));
        Ok(self.enter(&keys))
    }
}


/// Whether `k` is a key that a record of the scope `parent` was given.
pub open spec fn key_given_in<D>(
    input: StreamView<D>,
    keys: Seq<Option<u32>>,
    parent: Seq<u32>,
    k: u32,
) -> bool {
    exists|i: int|
        0 <= i < keys.len() && input.items[i].scope == parent && #[trigger] keys[i] == Some(k)
}

/// The keys that were given at all.
pub open spec fn keys_used(keys: Seq<Option<u32>>) -> Set<u32> {
    Set::new(|k: u32| exists|i: int| 0 <= i < keys.len() && #[trigger] keys[i] == Some(k))
}

/// The places at which a key was given are places of `keys`, stand in
/// rising order, and none is missing.
pub proof fn lemma_chosen(keys: Seq<Option<u32>>)
    ensures
        forall|j: int|
            0 <= j < chosen(keys).len() ==> 0 <= #[trigger] chosen(keys)[j] < keys.len()
                && keys[chosen(keys)[j]] is Some,
        forall|a: int, b: int|
            0 <= a < b < chosen(keys).len() ==> #[trigger] chosen(keys)[a] < #[trigger] chosen(
                keys,
            )[b],
        forall|i: int|
            0 <= i < keys.len() && (#[trigger] keys[i]) is Some ==> exists|j: int|
                0 <= j < chosen(keys).len() && #[trigger] chosen(keys)[j] == i,
    decreases keys.len(),
{
    if keys.len() > 0 {
        let rest = keys.drop_last();
        lemma_chosen(rest);
        assert forall|i: int| 0 <= i < keys.len() && (#[trigger] keys[i]) is Some implies exists|
            j: int,
        |
            0 <= j < chosen(keys).len() && #[trigger] chosen(keys)[j] == i by {
            if i < keys.len() - 1 {
                assert(rest[i] is Some);
                let j = choose|j: int| 0 <= j < chosen(rest).len() && #[trigger] chosen(rest)[j] == i;
                assert(chosen(keys)[j] == i);
            } else {
                assert(chosen(keys)[chosen(keys).len() - 1] == i);
            }
        }
    }
}

/// A scope and a key are found again in the scope they make together.
proof fn lemma_push_is_one_to_one(a: Seq<u32>, x: u32, b: Seq<u32>, y: u32)
    requires
        a.push(x) == b.push(y),
    ensures
        a == b,
        x == y,
{
    assert(a.push(x).drop_last() =~= a);
    assert(b.push(y).drop_last() =~= b);
    assert(a.push(x).last() == x);
    assert(b.push(y).last() == y);
}

/// Scoping by key loses no record that was given a key, makes no record
/// twice, keeps the order, and puts a record into the scope of a key exactly
/// if the record it was copied from was given that key. So the records of
/// each new scope are the copies of exactly the records that map to its key.
pub proof fn lemma_seeds_are_the_keyed_records<D: Clone>(
    input: StreamView<D>,
    keys: Seq<Option<u32>>,
    out: StreamView<D>,
)
    requires
        entered(input, keys, out),
    ensures
        forall|a: int, b: int|
            0 <= a < b < out.items.len() ==> #[trigger] chosen(keys)[a] < #[trigger] chosen(keys)[b],
        forall|i: int|
            0 <= i < keys.len() && (#[trigger] keys[i]) is Some ==> exists|j: int|
                0 <= j < out.items.len() && #[trigger] chosen(keys)[j] == i,
        forall|j: int, parent: Seq<u32>, k: u32|
            0 <= j < out.items.len() ==> ((#[trigger] out.items[j]).scope == #[trigger] parent.push(
                k,
            ) <==> input.items[chosen(keys)[j]].scope == parent && keys[chosen(keys)[j]] == Some(
                k,
            )),
{
    lemma_chosen(keys);
    assert forall|j: int, parent: Seq<u32>, k: u32| 0 <= j < out.items.len() implies ((
    #[trigger] out.items[j]).scope == #[trigger] parent.push(k) <==> input.items[chosen(
        keys,
    )[j]].scope == parent && keys[chosen(keys)[j]] == Some(k)) by {
        let i = chosen(keys)[j];
        if out.items[j].scope == parent.push(k) {
            lemma_push_is_one_to_one(input.items[i].scope, keys[i]->0, parent, k);
        }
    }
}

/// A scope exists after scoping by key exactly if its key was given to a
/// record of the scope around it.
pub proof fn lemma_scopes_are_the_keys<D: Clone>(
    input: StreamView<D>,
    keys: Seq<Option<u32>>,
    out: StreamView<D>,
    parent: Seq<u32>,
    k: u32,
)
    requires
        entered(input, keys, out),
    ensures
        out.has_scope(parent.push(k)) <==> key_given_in(input, keys, parent, k),
{
    lemma_seeds_are_the_keyed_records(input, keys, out);
    if out.has_scope(parent.push(k)) {
        let j = choose|j: int|
            0 <= j < out.items.len() && (#[trigger] out.items[j]).scope == parent.push(k);
        let i = chosen(keys)[j];
        assert(keys[i] == Some(k));
    }
    if key_given_in(input, keys, parent, k) {
        let i = choose|i: int|
            0 <= i < keys.len() && input.items[i].scope == parent && #[trigger] keys[i] == Some(k);
        let j = choose|j: int| 0 <= j < out.items.len() && #[trigger] chosen(keys)[j] == i;
        assert(out.items[j].scope == parent.push(k));
    }
}

/// Scoping a stream that lies in one scope makes as many scopes as there are
/// distinct keys given: each key given names one scope, and each scope is
/// named by one key.
pub proof fn lemma_as_many_scopes_as_keys<D: Clone>(
    input: StreamView<D>,
    keys: Seq<Option<u32>>,
    out: StreamView<D>,
    parent: Seq<u32>,
)
    requires
        entered(input, keys, out),
        forall|i: int| 0 <= i < input.items.len() ==> (#[trigger] input.items[i]).scope == parent,
    ensures
        keys_used(keys).finite(),
        out.scopes().finite(),
        out.scopes().len() == keys_used(keys).len(),
        out.scopes() == keys_used(keys).map(|k: u32| parent.push(k)),
{
    let used = keys_used(keys);
    let all = keys.map_values(
        |o: Option<u32>|
            match o {
                Some(k) => k,
                None => 0u32,
            },
    );
    seq_to_set_is_finite(all);
    assert forall|k: u32| used.contains(k) implies all.to_set().contains(k) by {
        let i = choose|i: int| 0 <= i < keys.len() && #[trigger] keys[i] == Some(k);
        assert(all[i] == k);
    }
    lemma_set_subset_finite(all.to_set(), used);
    let name = |k: u32| parent.push(k);
    assert forall|s: Seq<u32>| out.scopes().contains(s) <==> used.map(name).contains(s) by {
        lemma_seeds_are_the_keyed_records(input, keys, out);
        if out.scopes().contains(s) {
            let j = choose|j: int| 0 <= j < out.items.len() && (#[trigger] out.items[j]).scope == s;
            let i = chosen(keys)[j];
            let k = keys[i]->0;
            assert(keys[i] == Some(k));
            assert(s == parent.push(k));
            assert(used.contains(k) && name(k) == s);
        }
        if used.map(name).contains(s) {
            let k = choose|k: u32| used.contains(k) && name(k) == s;
            let i = choose|i: int| 0 <= i < keys.len() && #[trigger] keys[i] == Some(k);
            assert(key_given_in(input, keys, parent, k));
            lemma_scopes_are_the_keys(input, keys, out, parent, k);
        }
    }
    assert(out.scopes() =~= used.map(name));
    assert(injective_on(name, used)) by {
        assert forall|a: u32, b: u32|
            used.contains(a) && used.contains(b) && #[trigger] name(a) == #[trigger] name(
                b,
            ) implies a == b by {
            lemma_push_is_one_to_one(parent, a, parent, b);
        }
    }
    lemma_map_size(used, out.scopes(), name);
}

} // verus!
