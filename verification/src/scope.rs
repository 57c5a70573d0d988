//! The scopes that are in flight, and the moment each of them ends.

use crate::reduce::Range;
use vstd::prelude::*;

verus! {

/// One scope in flight: its key, the record that opened it and onto which
/// its result will be joined, how much of it is still pending, and how far
/// its completion looks.
#[derive(Debug, PartialEq)]
pub struct Scope<D> {
    pub scope_key: u32,
    pub parent: D,
    pub pending_count: usize,
    pub range: Range,
}

/// Why the bookkeeping of scopes refuses a request.
#[derive(Clone, Copy, Debug, PartialEq, Eq, Structural)]
pub enum ScopeError {
    /// A scope of this key is in flight already.
    KeyInUse,
    /// No scope of this key is in flight: it was never opened, or it has
    /// ended.
    UnknownScope,
    /// More is pending than can be counted.
    TooManyPending,
}

/// The place of the first scope from `start` on that has the key, if there
/// is one.
pub open spec fn place_from<D>(scopes: Seq<Scope<D>>, key: u32, start: int) -> Option<int>
    decreases scopes.len() - start,
{
    if start < 0 || start >= scopes.len() {
        None
    } else if scopes[start].scope_key == key {
        Some(start)
    } else {
        place_from(scopes, key, start + 1)
    }
}

/// The place of the scope that has the key, if one is in flight.
pub open spec fn place_of<D>(scopes: Seq<Scope<D>>, key: u32) -> Option<int> {
    place_from(scopes, key, 0)
}

/// No two scopes in flight share a key, and each has something pending.
pub open spec fn scopes_wf<D>(scopes: Seq<Scope<D>>) -> bool {
    &&& forall|a: int, b: int|
        0 <= a < b < scopes.len() ==> (#[trigger] scopes[a]).scope_key != (
        #[trigger] scopes[b]).scope_key
    &&& forall|a: int| 0 <= a < scopes.len() ==> (#[trigger] scopes[a]).pending_count > 0
}

/// What the search for a scope finds: the first scope that has the key, or
/// nothing where none has it.
pub proof fn lemma_place_from<D>(scopes: Seq<Scope<D>>, key: u32, start: int)
    requires
        0 <= start,
    ensures
        match place_from(scopes, key, start) {
            Some(p) => start <= p < scopes.len() && scopes[p].scope_key == key && forall|i: int|
                start <= i < p ==> (#[trigger] scopes[i]).scope_key != key,
            None => forall|i: int| start <= i < scopes.len() ==> (#[trigger] scopes[i]).scope_key != key,
        },
    decreases scopes.len() - start,
{
    if start < scopes.len() && scopes[start].scope_key != key {
        lemma_place_from(scopes, key, start + 1);
    }
}

/// A scope that has ended cannot be reached any more: once the scope at
/// place `p` is taken out of the table, no scope in flight has its key.
pub proof fn lemma_ended_scope_is_unreachable<D>(scopes: Seq<Scope<D>>, p: int)
    requires
        scopes_wf(scopes),
        0 <= p < scopes.len(),
    ensures
        scopes_wf(scopes.remove(p)),
        place_of(scopes.remove(p), scopes[p].scope_key) is None,
        forall|key: u32|
            key != scopes[p].scope_key ==> (place_of(scopes.remove(p), key) is Some <==> place_of(
                scopes,
                key,
            ) is Some),
{
    let rest = scopes.remove(p);
    assert forall|i: int| 0 <= i < rest.len() implies #[trigger] rest[i] == scopes[if i < p {
        i
    } else {
        i + 1
    }] by {}
    assert(scopes_wf(rest)) by {
        assert forall|a: int, b: int| 0 <= a < b < rest.len() implies (#[trigger] rest[a]).scope_key != (
        #[trigger] rest[b]).scope_key by {
            let a0 = if a < p { a } else { a + 1 };
            let b0 = if b < p { b } else { b + 1 };
            assert(scopes[a0].scope_key != scopes[b0].scope_key);
        }
        assert forall|a: int| 0 <= a < rest.len() implies (#[trigger] rest[a]).pending_count > 0 by {
            let a0 = if a < p { a } else { a + 1 };
            assert(scopes[a0].pending_count > 0);
        }
    }
    lemma_place_from(rest, scopes[p].scope_key, 0);
    if place_of(rest, scopes[p].scope_key) is Some {
        let q = place_of(rest, scopes[p].scope_key)->0;
        let q0 = if q < p { q } else { q + 1 };
        assert(scopes[q0].scope_key == scopes[p].scope_key);
        if q0 < p {
            assert(scopes[q0].scope_key != scopes[p].scope_key);
        } else {
            assert(scopes[p].scope_key != scopes[q0].scope_key);
        }
    }
    assert forall|key: u32| key != scopes[p].scope_key implies (place_of(rest, key) is Some
        <==> place_of(scopes, key) is Some) by {
        lemma_place_from(rest, key, 0);
        lemma_place_from(scopes, key, 0);
        if place_of(rest, key) is Some {
            let q = place_of(rest, key)->0;
            let q0 = if q < p { q } else { q + 1 };
            assert(scopes[q0].scope_key == key);
        }
        if place_of(scopes, key) is Some {
            let q = place_of(scopes, key)->0;
            let q1 = if q < p { q } else { q - 1 };
            assert(rest[q1].scope_key == key);
        }
    }
}

/// The bookkeeping of the scopes in flight. It is owned by the engine alone;
/// whoever shares it between workers guards it as a whole.
#[derive(Debug, PartialEq)]
pub struct ScopeTable<D> {
    scopes: Vec<Scope<D>>,
}

impl<D> View for ScopeTable<D> {
    type V = Seq<Scope<D>>;

    closed spec fn view(&self) -> Seq<Scope<D>> {
        self.scopes@
    }
}

impl<D> ScopeTable<D> {
    /// A table without scopes.
    pub fn new() -> (t: Self)
        ensures
            t@.len() == 0,
            scopes_wf(t@),
    {
        ScopeTable { scopes: Vec::new() }
    }

    /// How many scopes are in flight.
    pub fn len(&self) -> (n: usize)
        ensures
            n == self@.len(),
    {
        self.scopes.len()
    }

    /// Where the scope of the key stands.
    fn find(&self, key: u32) -> (p: Option<usize>)
        ensures
            match p {
                Some(p) => place_of(self@, key) == Some(p as int) && p < self@.len() && self@[p as int].scope_key
                    == key,
                None => place_of(self@, key) is None,
            },
    {
        let n = self.scopes.len();
        let mut i: usize = 0;
        while i < n
            invariant
                n == self.scopes@.len(),
                i <= n,
                place_of(self@, key) == place_from(self@, key, i as int),
            decreases n - i,
        {
            if self.scopes[i].scope_key == key {
                return Some(i);
            }
            i += 1;
        }
        None
    }

    /// The scope of the key, if it is in flight.
    pub fn get(&self, key: u32) -> (s: Option<&Scope<D>>)
        ensures
            match s {
                Some(s) => place_of(self@, key) matches Some(p) && self@[p] == *s,
                None => place_of(self@, key) is None,
            },
    {
        match self.find(key) {
            Some(p) => Some(&self.scopes[p]),
            None => None,
        }
    }

    /// Opens a scope for the record `parent`, with the record itself as the
    /// one thing pending. A key that is in use is refused.
    pub fn open(&mut self, key: u32, parent: D, range: Range) -> (res: Result<(), ScopeError>)
        requires
            scopes_wf(old(self)@),
        ensures
            scopes_wf(final(self)@),
            match res {
                Ok(_) => place_of(old(self)@, key) is None && final(self)@ == old(self)@.push(
                    Scope { scope_key: key, parent, pending_count: 1, range },
                ),
                Err(e) => e == ScopeError::KeyInUse && place_of(old(self)@, key) is Some && final(self)@ == old(self)@,
            },
    {
        match self.find(key) {
            Some(_) => Err(ScopeError::KeyInUse),
            None => {
                proof {
                    lemma_place_from(self@, key, 0);
                }
                self.scopes.push(Scope { scope_key: key, parent, pending_count: 1, range });
                Ok(())
            },
        }
    }

    /// Notes that `more` records were made inside the scope and are pending
    /// with it.
    pub fn fork(&mut self, key: u32, more: usize) -> (res: Result<(), ScopeError>)
        requires
            scopes_wf(old(self)@),
        ensures
            scopes_wf(final(self)@),
            match res {
                Ok(_) => place_of(old(self)@, key) matches Some(p) && old(self)@[p].pending_count
                    + more <= usize::MAX && final(self)@ == old(self)@.update(
                    p,
                    Scope {
                        scope_key: key,
                        parent: old(self)@[p].parent,
                        pending_count: (old(self)@[p].pending_count + more) as usize,
                        range: old(self)@[p].range,
                    },
                ),
                Err(ScopeError::UnknownScope) => place_of(old(self)@, key) is None && final(self)@
                    == old(self)@,
                Err(ScopeError::TooManyPending) => place_of(old(self)@, key) matches Some(p)
                    && old(self)@[p].pending_count + more > usize::MAX && final(self)@ == old(self)@,
                Err(ScopeError::KeyInUse) => false,
            },
    {
        match self.find(key) {
            None => Err(ScopeError::UnknownScope),
            Some(p) => {
                let pending = self.scopes[p].pending_count;
                if more > usize::MAX - pending {
                    return Err(ScopeError::TooManyPending);
                }
                self.scopes[p].pending_count = pending + more;
                assert(self@ =~= old(self)@.update(
                    p as int,
                    Scope {
                        scope_key: key,
                        parent: old(self)@[p as int].parent,
                        pending_count: (pending + more) as usize,
                        range: old(self)@[p as int].range,
                    },
                ));
                Ok(())
            },
        }
    }

    /// Notes that one pending record of the scope is done. With the last one
    /// the scope ends: it leaves the table, for good, and comes out with the
    /// record that opened it. Before that nothing comes out.
    pub fn finish(&mut self, key: u32) -> (res: Result<Option<Scope<D>>, ScopeError>)
        requires
            scopes_wf(old(self)@),
        ensures
            scopes_wf(final(self)@),
            match res {
                Ok(Some(ended)) => {
                    &&& place_of(old(self)@, key) matches Some(p)
                    &&& old(self)@[p].pending_count == 1
                    &&& ended == (Scope { pending_count: 0, ..old(self)@[p] })
                    &&& final(self)@ == old(self)@.remove(p)
                    &&& place_of(final(self)@, key) is None
                },
                Ok(None) => {
                    &&& place_of(old(self)@, key) matches Some(p)
                    &&& old(self)@[p].pending_count > 1
                    &&& final(self)@ == old(self)@.update(
                        p,
                        Scope {
                            pending_count: (old(self)@[p].pending_count - 1) as usize,
                            ..old(self)@[p]
                        },
                    )
                },
                Err(e) => e == ScopeError::UnknownScope && place_of(old(self)@, key) is None
                    && final(self)@ == old(self)@,
            },
    {
        match self.find(key) {
            None => Err(ScopeError::UnknownScope),
            Some(p) => {
                let pending = self.scopes[p].pending_count;
                if pending == 1 {
                    proof {
                        lemma_ended_scope_is_unreachable(self@, p as int);
                    }
                    let mut ended = self.scopes.remove(p);
                    ended.pending_count = 0;
                    Ok(Some(ended))
                } else {
                    self.scopes[p].pending_count = pending - 1;
                    assert(self@ =~= old(self)@.update(
                        p as int,
                        Scope { pending_count: (pending - 1) as usize, ..old(self)@[p as int] },
                    ));
                    Ok(None)
                }
            },
        }
    }

    /// Cancels one scope: it leaves the table at once, whatever is pending
    /// with it, and comes out so that the join that waits for it can be
    /// failed. Results that the scope emitted before are not taken back.
    pub fn cancel(&mut self, key: u32) -> (res: Result<Scope<D>, ScopeError>)
        requires
            scopes_wf(old(self)@),
        ensures
            scopes_wf(final(self)@),
            match res {
                Ok(scope) => {
                    &&& place_of(old(self)@, key) matches Some(p)
                    &&& scope == old(self)@[p]
                    &&& final(self)@ == old(self)@.remove(p)
                    &&& place_of(final(self)@, key) is None
                },
                Err(e) => e == ScopeError::UnknownScope && place_of(old(self)@, key) is None
                    && final(self)@ == old(self)@,
            },
    {
        match self.find(key) {
            None => Err(ScopeError::UnknownScope),
            Some(p) => {
                proof {
                    lemma_ended_scope_is_unreachable(self@, p as int);
                }
                Ok(self.scopes.remove(p))
            },
        }
    }

    /// Cancels every scope in flight, as the cancellation of a query does:
    /// the table is left empty and the scopes come out, in the order they
    /// were opened.
    pub fn cancel_all(&mut self) -> (scopes: Vec<Scope<D>>)
        ensures
            scopes@ == old(self)@,
            final(self)@.len() == 0,
            scopes_wf(final(self)@),
    {
        let mut scopes: Vec<Scope<D>> = Vec::new();
        core::mem::swap(&mut self.scopes, &mut scopes);
        scopes
    }
}

} // verus!
