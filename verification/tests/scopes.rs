use gaia_engine::reduce::Range;
use gaia_engine::scope::{Scope, ScopeError, ScopeTable};
use gaia_engine::sub_traversal::{
    merge_scope, settle_scope, BySubJoin, HasAnyJoin, JoinError, ScopeOutcome,
};
use gaia_engine::object::{Object, Primitives};
use gaia_engine::traverser::Traverser;

#[test]
fn new_table_has_no_scopes() {
    let t: ScopeTable<i32> = ScopeTable::new();
    assert_eq!(t.len(), 0);
    assert_eq!(t.get(1), None);
}

#[test]
fn opened_scope_waits_for_its_seed() {
    let mut t = ScopeTable::new();
    assert_eq!(t.open(7, "parent", Range::Local), Ok(()));
    assert_eq!(t.len(), 1);
    assert_eq!(
        t.get(7),
        Some(&Scope { scope_key: 7, parent: "parent", pending_count: 1, range: Range::Local })
    );
    assert_eq!(t.get(8), None);
}

#[test]
fn key_in_use_is_refused() {
    let mut t = ScopeTable::new();
    assert_eq!(t.open(7, 'a', Range::Local), Ok(()));
    assert_eq!(t.open(7, 'b', Range::Global), Err(ScopeError::KeyInUse));
    assert_eq!(t.len(), 1);
    assert_eq!(t.get(7).unwrap().parent, 'a');
}

#[test]
fn scope_ends_with_its_last_pending_record() {
    let mut t = ScopeTable::new();
    t.open(1, "p", Range::Global).unwrap();
    assert_eq!(t.fork(1, 2), Ok(()));
    assert_eq!(t.get(1).unwrap().pending_count, 3);
    assert_eq!(t.finish(1), Ok(None));
    assert_eq!(t.finish(1), Ok(None));
    assert_eq!(t.get(1).unwrap().pending_count, 1);
    assert_eq!(
        t.finish(1),
        Ok(Some(Scope { scope_key: 1, parent: "p", pending_count: 0, range: Range::Global }))
    );
    assert_eq!(t.len(), 0);
}

#[test]
fn ended_scope_cannot_be_reached() {
    let mut t = ScopeTable::new();
    t.open(1, 10, Range::Local).unwrap();
    t.open(2, 20, Range::Local).unwrap();
    assert!(t.finish(1).unwrap().is_some());
    assert_eq!(t.get(1), None);
    assert_eq!(t.finish(1), Err(ScopeError::UnknownScope));
    assert_eq!(t.fork(1, 1), Err(ScopeError::UnknownScope));
    assert_eq!(t.get(2).unwrap().parent, 20);
    assert_eq!(t.open(1, 30, Range::Local), Ok(()));
    assert_eq!(t.get(1).unwrap().parent, 30);
}

#[test]
fn unknown_scope_is_refused() {
    let mut t: ScopeTable<u8> = ScopeTable::new();
    assert_eq!(t.finish(3), Err(ScopeError::UnknownScope));
    assert_eq!(t.fork(3, 0), Err(ScopeError::UnknownScope));
}

#[test]
fn pending_count_does_not_wrap() {
    let mut t = ScopeTable::new();
    t.open(1, (), Range::Local).unwrap();
    assert_eq!(t.fork(1, usize::MAX), Err(ScopeError::TooManyPending));
    assert_eq!(t.get(1).unwrap().pending_count, 1);
    assert_eq!(t.fork(1, usize::MAX - 1), Ok(()));
    assert_eq!(t.get(1).unwrap().pending_count, usize::MAX);
    assert_eq!(t.fork(1, 0), Ok(()));
    assert_eq!(t.fork(1, 1), Err(ScopeError::TooManyPending));
}

#[test]
fn result_of_an_ended_scope_is_joined_onto_its_parent() {
    let mut t = ScopeTable::new();
    let parent = Traverser::with_object(Object::Primitive(Primitives::Long(1)));
    t.open(4, parent.clone(), Range::Local).unwrap();
    let ended = t.finish(4).unwrap().unwrap();
    let found = Traverser::with_object(Object::Primitive(Primitives::Long(2)));
    assert_eq!(merge_scope(&HasAnyJoin, &ended.parent, Some(found)), Ok(Some(parent)));
    assert_eq!(merge_scope(&HasAnyJoin, &ended.parent, None), Ok(None));
}

#[test]
fn cancelled_scope_leaves_at_once() {
    let mut t = ScopeTable::new();
    t.open(1, "a", Range::Local).unwrap();
    t.open(2, "b", Range::Global).unwrap();
    t.fork(2, 5).unwrap();
    assert_eq!(
        t.cancel(2),
        Ok(Scope { scope_key: 2, parent: "b", pending_count: 6, range: Range::Global })
    );
    assert_eq!(t.get(2), None);
    assert_eq!(t.finish(2), Err(ScopeError::UnknownScope));
    assert_eq!(t.cancel(2), Err(ScopeError::UnknownScope));
    assert_eq!(t.get(1).unwrap().parent, "a");
}

#[test]
fn cancelling_a_query_empties_the_table() {
    let mut t = ScopeTable::new();
    t.open(1, 'a', Range::Local).unwrap();
    t.open(2, 'b', Range::Local).unwrap();
    let all = t.cancel_all();
    assert_eq!(all.iter().map(|s| s.parent).collect::<Vec<_>>(), vec!['a', 'b']);
    assert_eq!(t.len(), 0);
    assert!(t.cancel_all().is_empty());
    assert_eq!(t.open(1, 'c', Range::Local), Ok(()));
}

#[test]
fn cancelled_scope_fails_the_waiting_join() {
    let parent = Traverser::with_object(Object::Primitive(Primitives::Long(1)));
    assert_eq!(
        settle_scope(&HasAnyJoin, &parent, ScopeOutcome::Cancelled),
        Err(JoinError::ScopeCancelled)
    );
    assert_eq!(
        settle_scope(&BySubJoin, &parent, ScopeOutcome::Cancelled),
        Err(JoinError::ScopeCancelled)
    );
}

#[test]
fn completed_scope_is_merged() {
    let parent = Traverser::with_object(Object::Primitive(Primitives::Long(1)));
    let found = Traverser::with_object(Object::Primitive(Primitives::Long(2)));
    assert_eq!(
        settle_scope(&HasAnyJoin, &parent, ScopeOutcome::Completed(Some(found))),
        Ok(Some(parent.clone()))
    );
    assert_eq!(settle_scope(&HasAnyJoin, &parent, ScopeOutcome::Completed(None)), Ok(None));
    assert_eq!(
        settle_scope(&BySubJoin, &parent, ScopeOutcome::Completed(Some(parent.clone()))),
        Err(JoinError::ParentNotElement)
    );
}
