//! Joining what a nested traversal found back onto the traverser that
//! started it.

use crate::error::GDBError;
use crate::sharing::share;
use crate::traverser::{Carried, Traverser, TraverserView};
use std::sync::Arc;
use vstd::prelude::*;
use vstd::std_specs::convert::FromSpecImpl;

verus! {

/// The shapes a join can find in place of the ones it needs.
#[derive(Clone, Copy, Debug, PartialEq, Eq, Structural)]
pub enum JoinError {
    /// The parent holds a value where a graph element is needed.
    ParentNotElement,
    /// The result of the nested traversal holds a graph element where a
    /// value is needed.
    SubNotObject,
    /// The scope was cancelled before it had a result to join.
    ScopeCancelled,
}

impl From<JoinError> for GDBError {
    /// In the engine's taxonomy a wrong shape is a wrong type, and a
    /// cancelled scope is a failure of no named kind.
    fn from(error: JoinError) -> (e: GDBError) {
        match error {
            JoinError::ParentNotElement => GDBError::InvalidTypeError,
            JoinError::SubNotObject => GDBError::InvalidTypeError,
            JoinError::ScopeCancelled => GDBError::UnknownError,
        }
    }
}

impl FromSpecImpl<JoinError> for GDBError {
    open spec fn obeys_from_spec() -> bool {
        true
    }

    open spec fn from_spec(error: JoinError) -> GDBError {
        match error {
            JoinError::ParentNotElement => GDBError::InvalidTypeError,
            JoinError::SubNotObject => GDBError::InvalidTypeError,
            JoinError::ScopeCancelled => GDBError::UnknownError,
        }
    }
}

/// How the result of a finished nested traversal is merged onto its parent.
/// The engine calls `exec` once for each pair of a parent and such a result.
pub trait LeftJoinFunction<D>: Send + Sync {
    /// Whether `res` is an outcome of joining `sub` onto `parent`.
    spec fn joins(&self, parent: D, sub: D, res: Result<Option<D>, JoinError>) -> bool;

    /// Joins `sub` onto `parent`: `Some` keeps the parent, merged, in the
    /// outer stream, `None` drops it.
    fn exec(&self, parent: &D, sub: D) -> (res: Result<Option<D>, JoinError>)
        ensures
            self.joins(*parent, sub, res),
    ;
}

impl<D, T: LeftJoinFunction<D>> LeftJoinFunction<D> for Arc<T> {
    open spec fn joins(&self, parent: D, sub: D, res: Result<Option<D>, JoinError>) -> bool {
        (**self).joins(parent, sub, res)
    }

    fn exec(&self, parent: &D, sub: D) -> (res: Result<Option<D>, JoinError>) {
        (**self).exec(parent, sub)
    }
}

/// Hands out the join function of a step to each operator that needs it.
pub struct JoinFuncGen<F: LeftJoinFunction<Traverser>> {
    func: Arc<F>,
}

impl<F: LeftJoinFunction<Traverser>> JoinFuncGen<F> {
    /// The join function that is handed out.
    pub closed spec fn func(&self) -> F {
        *self.func
    }

    pub fn new(func: Arc<F>) -> (g: Self)
        ensures
            g.func() == *func,
    {
        JoinFuncGen { func }
    }

    /// Another handle to the join function.
    pub fn gen(&self) -> (f: Arc<F>)
        ensures
            *f == self.func(),
    {
        share(&self.func)
    }
}

/// Keeps the parent as it is. Used where only the existence of a result
/// counts, as in `where(out().out().as("a"))`.
#[derive(Clone, Copy, Debug, PartialEq, Eq, Structural)]
pub struct HasAnyJoin;

impl LeftJoinFunction<Traverser> for HasAnyJoin {
    /// The parent is kept, unchanged, whatever the result holds.
    open spec fn joins(
        &self,
        parent: Traverser,
        sub: Traverser,
        res: Result<Option<Traverser>, JoinError>,
    ) -> bool {
        res matches Ok(Some(t)) && t@ == parent@
    }

    fn exec(&self, parent: &Traverser, _sub: Traverser) -> (res: Result<
        Option<Traverser>,
        JoinError,
    >) {
        Ok(Some(parent.clone()))
    }
}

/// Attaches the value that the nested traversal computed to the parent's
/// element. Used where the nested traversal yields a sort or group key, as in
/// `order().by(out().out().count())`.
#[derive(Clone, Copy, Debug, PartialEq, Eq, Structural)]
pub struct BySubJoin;

impl LeftJoinFunction<Traverser> for BySubJoin {
    /// The parent has to hold an element and the result a value. Then the
    /// parent is kept, with the value attached to its element and nothing
    /// else changed. The parent is looked at first.
    open spec fn joins(
        &self,
        parent: Traverser,
        sub: Traverser,
        res: Result<Option<Traverser>, JoinError>,
    ) -> bool {
        match res {
            Ok(Some(t)) => {
                &&& parent@.carried matches Carried::Element(g)
                &&& sub@.carried matches Carried::Object(o)
                &&& t@ == (TraverserView { carried: Carried::Element(g.with_attached(o)), ..parent@ })
            },
            Ok(None) => false,
            Err(JoinError::ParentNotElement) => !(parent@.carried is Element),
            Err(JoinError::SubNotObject) => parent@.carried is Element && !(sub@.carried
                is Object),
            Err(JoinError::ScopeCancelled) => false,
        }
    }

    fn exec(&self, parent: &Traverser, sub: Traverser) -> (res: Result<
        Option<Traverser>,
        JoinError,
    >) {
        let mut merged = parent.clone();
        if merged.get_element().is_none() {
            return Err(JoinError::ParentNotElement);
        }
        let obj = match sub.get_object() {
            Some(o) => o.clone(),
            None => {
                return Err(JoinError::SubNotObject);
            },
        };
        match merged.get_element_mut() {
            Some(g) => {
                g.attach(obj);
            },
            None => {},
        }
        Ok(Some(merged))
    }
}

/// Whether `res` is an outcome of merging what a finished scope yielded onto
/// the parent that opened it: a scope that yielded nothing drops its parent,
/// and a result is joined as the join function says.
pub open spec fn scope_merged<D, F: LeftJoinFunction<D>>(
    func: F,
    parent: D,
    result: Option<D>,
    res: Result<Option<D>, JoinError>,
) -> bool {
    match result {
        None => res == Ok::<Option<D>, JoinError>(None),
        Some(sub) => func.joins(parent, sub, res),
    }
}

/// Merges what a finished scope yielded onto the parent that opened it, by
/// whatever join function the step supplied.
pub fn merge_scope<D, F: LeftJoinFunction<D>>(func: &F, parent: &D, result: Option<D>) -> (res:
    Result<Option<D>, JoinError>)
    ensures
        scope_merged(*func, *parent, result, res),
{
    match result {
        None => Ok(None),
        Some(sub) => func.exec(parent, sub),
    }
}

/// How a scope ended.
#[derive(Debug, PartialEq)]
pub enum ScopeOutcome<D> {
    /// The scope ran to its end, with this result or with none.
    Completed(Option<D>),
    /// The scope was cancelled, by a timeout of the query or because the
    /// client went away.
    Cancelled,
}

/// Whether `res` is an outcome of settling a scope that ended as `outcome`
/// says: a scope that ran to its end is merged, and a cancelled scope fails
/// the join that waited for it.
pub open spec fn scope_settled<D, F: LeftJoinFunction<D>>(
    func: F,
    parent: D,
    outcome: ScopeOutcome<D>,
    res: Result<Option<D>, JoinError>,
) -> bool {
    match outcome {
        ScopeOutcome::Completed(result) => scope_merged(func, parent, result, res),
        ScopeOutcome::Cancelled => res == Err::<Option<D>, JoinError>(JoinError::ScopeCancelled),
    }
}

/// Settles the join that waits for a scope, however the scope ended. The
/// join never stays waiting: a cancelled scope makes it fail.
pub fn settle_scope<D, F: LeftJoinFunction<D>>(func: &F, parent: &D, outcome: ScopeOutcome<D>) -> (res:
    Result<Option<D>, JoinError>)
    ensures
        scope_settled(*func, *parent, outcome, res),
{
    match outcome {
        ScopeOutcome::Completed(result) => merge_scope(func, parent, result),
        ScopeOutcome::Cancelled => Err(JoinError::ScopeCancelled),
    }
}

/// Under the any-match join a parent whose scope yielded a result is kept
/// unchanged, and a parent whose scope yielded nothing is dropped.
pub proof fn lemma_any_match_join(
    parent: Traverser,
    result: Option<Traverser>,
    res: Result<Option<Traverser>, JoinError>,
)
    requires
        scope_merged(HasAnyJoin, parent, result, res),
    ensures
        result is Some ==> (res matches Ok(Some(t)) && t@ == parent@),
        result is None ==> res == Ok::<Option<Traverser>, JoinError>(None),
{
}

/// After a join by sub-traversal the parent's element answers with the value
/// that was joined.
pub proof fn lemma_by_sub_join_attaches(parent: Traverser, sub: Traverser, merged: Traverser)
    requires
        BySubJoin.joins(parent, sub, Ok(Some(merged))),
    ensures
        merged@.carried matches Carried::Element(g) && sub@.carried matches Carried::Object(o)
            && g.attached() == Some(o),
        merged@.tags == parent@.tags,
        merged@.path == parent@.path,
{
    match parent@.carried {
        Carried::Element(g) => {
            match sub@.carried {
                Carried::Object(o) => {
                    g.lemma_attach_then_lookup(o);
                },
                _ => {},
            }
        },
        _ => {},
    }
}

/// Of two values joined onto one traverser one after the other, the later is
/// the one its element answers with: the outcome is that of joining the later
/// value alone.
pub proof fn lemma_by_sub_join_last_wins(
    parent: Traverser,
    first: Traverser,
    once: Traverser,
    second: Traverser,
    twice: Traverser,
)
    requires
        BySubJoin.joins(parent, first, Ok(Some(once))),
        BySubJoin.joins(once, second, Ok(Some(twice))),
    ensures
        BySubJoin.joins(parent, second, Ok(Some(twice))),
        twice@.carried matches Carried::Element(g) && second@.carried matches Carried::Object(o)
            && g.attached() == Some(o),
{
    lemma_by_sub_join_attaches(once, second, twice);
    match parent@.carried {
        Carried::Element(g) => {
            match (first@.carried, second@.carried) {
                (Carried::Object(a), Carried::Object(b)) => {
                    g.lemma_attach_last_wins(a, b);
                },
                _ => {},
            }
        },
        _ => {},
    }
}

} // verus!
