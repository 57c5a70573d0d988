use gaia_engine::multiplex::{BuildJobError, Multiplexing, Scoped, Stream};

fn flat(s: &Stream<i32>) -> Vec<(Vec<u32>, i32)> {
    s.items().iter().map(|x| (x.scope.clone(), x.item)).collect()
}

#[test]
fn new_stream_is_outside_any_scope() {
    let s = Stream::new(vec![1, 2]);
    assert_eq!(s.depth(), 0);
    assert!(s.is_aligned());
    assert_eq!(flat(&s), vec![(vec![], 1), (vec![], 2)]);
}

#[test]
fn each_key_gets_its_scope() {
    let s = Stream::new(vec![10, 11, 12]);
    let scoped = s.scope_by(|x: &i32| Some(*x as u32)).unwrap();
    assert_eq!(scoped.depth(), 1);
    assert_eq!(flat(&scoped), vec![(vec![10], 10), (vec![11], 11), (vec![12], 12)]);
}

#[test]
fn records_of_one_key_share_a_scope() {
    let s = Stream::new(vec![1, 2, 3, 4, 5]);
    let scoped = s.scope_by(|x: &i32| Some((*x % 2) as u32)).unwrap();
    let items = flat(&scoped);
    assert_eq!(
        items,
        vec![(vec![1], 1), (vec![0], 2), (vec![1], 3), (vec![0], 4), (vec![1], 5)]
    );
    let mut keys: Vec<Vec<u32>> = items.iter().map(|x| x.0.clone()).collect();
    keys.sort();
    keys.dedup();
    assert_eq!(keys.len(), 2);
    let odd: Vec<i32> = items.iter().filter(|x| x.0 == vec![1]).map(|x| x.1).collect();
    assert_eq!(odd, vec![1, 3, 5]);
}

#[test]
fn record_without_key_is_left_out() {
    let s = Stream::new(vec![1, 2, 3, 4]);
    let scoped = s.scope_by(|x: &i32| if *x % 2 == 0 { Some(*x as u32) } else { None }).unwrap();
    assert_eq!(flat(&scoped), vec![(vec![2], 2), (vec![4], 4)]);
    let none = s.scope_by(|_: &i32| None).unwrap();
    assert_eq!(none.depth(), 1);
    assert_eq!(flat(&none), vec![]);
}

#[test]
fn scopes_nest() {
    let s = Stream::new(vec![1, 2, 3]);
    let outer = s.scope_by(|x: &i32| Some((*x % 2) as u32)).unwrap();
    let inner = outer.scope_by(|x: &i32| Some(*x as u32)).unwrap();
    assert_eq!(inner.depth(), 2);
    assert_eq!(flat(&inner), vec![(vec![1, 1], 1), (vec![0, 2], 2), (vec![1, 3], 3)]);
}

#[test]
fn windows_of_fixed_size() {
    let s = Stream::new(vec![1, 2, 3, 4, 5]);
    let scoped = s.scope_by_size(2).unwrap();
    assert_eq!(scoped.depth(), 1);
    assert_eq!(
        flat(&scoped),
        vec![(vec![0], 1), (vec![0], 2), (vec![1], 3), (vec![1], 4), (vec![2], 5)]
    );
    let single = s.scope_by_size(1).unwrap();
    assert_eq!(
        flat(&single),
        vec![(vec![0], 1), (vec![1], 2), (vec![2], 3), (vec![3], 4), (vec![4], 5)]
    );
    let all = s.scope_by_size(9).unwrap();
    assert!(flat(&all).iter().all(|x| x.0 == vec![0]));
}

#[test]
fn windows_are_counted_within_each_scope() {
    let s = Stream::new(vec![1, 2, 3, 4, 5, 6]);
    let outer = s.scope_by(|x: &i32| Some((*x % 2) as u32)).unwrap();
    let inner = outer.scope_by_size(2).unwrap();
    assert_eq!(
        flat(&inner),
        vec![
            (vec![1, 0], 1),
            (vec![0, 0], 2),
            (vec![1, 0], 3),
            (vec![0, 0], 4),
            (vec![1, 1], 5),
            (vec![0, 1], 6)
        ]
    );
}

#[test]
fn window_of_no_records_is_refused() {
    let s = Stream::new(vec![1, 2, 3]);
    assert_eq!(s.scope_by_size(0), Err(BuildJobError::EmptyWindow));
    let crooked = Stream::from_scoped(1, vec![Scoped { scope: vec![], item: 1 }]);
    assert_eq!(crooked.scope_by_size(0), Err(BuildJobError::EmptyWindow));
}

#[test]
fn record_at_another_depth_is_refused() {
    let crooked = Stream::from_scoped(
        1,
        vec![Scoped { scope: vec![0], item: 1 }, Scoped { scope: vec![0, 1], item: 2 }],
    );
    assert!(!crooked.is_aligned());
    assert_eq!(crooked.scope_by(|_: &i32| Some(0)), Err(BuildJobError::ConflictingScopeDepth));
    assert_eq!(crooked.scope_by_size(2), Err(BuildJobError::ConflictingScopeDepth));
}

#[test]
fn deepest_stream_is_refused() {
    let deepest: Stream<i32> = Stream::from_scoped(usize::MAX, vec![]);
    assert!(deepest.is_aligned());
    assert_eq!(deepest.scope_by(|_: &i32| Some(0)), Err(BuildJobError::ScopeDepthExceeded));
    assert_eq!(deepest.scope_by_size(1), Err(BuildJobError::ScopeDepthExceeded));
}

#[test]
fn scoped_stream_is_taken_as_given() {
    let s = Stream::from_scoped(1, vec![Scoped { scope: vec![7], item: 1 }]);
    assert_eq!(s.depth(), 1);
    assert!(s.is_aligned());
    let deeper = s.scope_by(|x: &i32| Some(*x as u32)).unwrap();
    assert_eq!(flat(&deeper), vec![(vec![7, 1], 1)]);
}
