use gaia_engine::reduce::barrier::Barrier;
use gaia_engine::reduce::count::Count;
use gaia_engine::reduce::limit::Limit;
use gaia_engine::reduce::order::{
    key_all, merge_partials, order_by, sort_keyed, unkeyed, Keyed, Order, OrderDirect,
};
use gaia_engine::reduce::{Range, RANGES};

#[test]
fn both_ranges_are_listed() {
    assert_eq!(RANGES, [Range::Local, Range::Global]);
}

#[test]
fn local_barrier_waits_for_its_own_worker_only() {
    let mut b = Barrier::new(Range::Local, 1, 3);
    assert_eq!(b.peers(), 3);
    assert!(!b.is_complete());
    assert!(!b.end_of_input(0));
    assert!(!b.is_complete());
    assert!(!b.is_released());
    assert!(b.end_of_input(1));
    assert!(b.is_complete());
    assert!(b.is_released());
    assert!(!b.end_of_input(2));
    assert!(!b.end_of_input(1));
    assert!(b.is_released());
}

#[test]
fn global_barrier_waits_for_every_worker() {
    let mut b = Barrier::new(Range::Global, 0, 3);
    assert!(!b.end_of_input(0));
    assert!(!b.end_of_input(2));
    assert!(!b.end_of_input(0));
    assert!(!b.is_complete());
    assert!(b.end_of_input(1));
    assert!(b.is_complete());
    assert!(!b.end_of_input(1));
    assert!(!b.end_of_input(2));
}

#[test]
fn barrier_of_one_worker_releases_on_its_end() {
    for range in RANGES {
        let mut b = Barrier::new(range, 0, 1);
        assert!(b.end_of_input(0));
        assert!(!b.end_of_input(0));
    }
}

#[test]
fn count_emits_the_number_of_records_once() {
    let mut c = Count::new(Range::Local, 0, 1);
    for _ in 0..5 {
        c.on_item();
    }
    assert_eq!(c.get(), 5);
    assert_eq!(c.on_end(0), Some(5));
    assert_eq!(c.on_end(0), None);
}

#[test]
fn count_of_an_empty_scope_is_zero() {
    let mut c = Count::new(Range::Local, 0, 1);
    assert_eq!(c.on_end(0), Some(0));
}

#[test]
fn global_count_waits_for_the_last_worker() {
    let mut c = Count::new(Range::Global, 1, 3);
    assert_eq!(c.peers(), 3);
    c.on_item();
    c.on_item();
    c.on_item();
    assert_eq!(c.on_end(1), None);
    assert_eq!(c.on_end(0), None);
    assert_eq!(c.on_end(2), Some(3));
    assert_eq!(c.on_end(2), None);
}

#[test]
fn limit_forwards_the_first_records_only() {
    let mut l = Limit::new(2, Range::Local, 0, 1);
    assert_eq!(l.on_items(vec![10, 20, 30, 40, 50]), vec![10, 20]);
    assert_eq!(l.on_items(vec![60]), Vec::<i32>::new());
    assert!(l.on_end(0));
    assert!(!l.on_end(0));
}

#[test]
fn limit_counts_across_runs_of_records() {
    let mut l = Limit::new(3, Range::Local, 0, 1);
    assert_eq!(l.on_items(vec!['a', 'b']), vec!['a', 'b']);
    assert_eq!(l.on_item('c'), Some('c'));
    assert_eq!(l.on_item('d'), None);
    assert_eq!(l.on_items(vec!['e', 'f']), Vec::<char>::new());
}

#[test]
fn limit_above_the_number_of_records_forwards_all() {
    let mut l = Limit::new(10, Range::Global, 0, 2);
    assert_eq!(l.peers(), 2);
    assert_eq!(l.on_items(vec![1, 2, 3]), vec![1, 2, 3]);
    assert!(!l.on_end(0));
    assert!(l.on_end(1));
}

#[test]
fn limit_of_zero_forwards_nothing_and_still_completes() {
    let mut l = Limit::new(0, Range::Local, 0, 1);
    assert_eq!(l.on_items(vec![1, 2, 3]), Vec::<i32>::new());
    assert!(l.on_end(0));
}

fn keyed(keys: &[i64]) -> Vec<Keyed<usize>> {
    keys.iter().enumerate().map(|(i, k)| Keyed { key: *k, item: i }).collect()
}

fn keys_of(sorted: &[Keyed<usize>]) -> Vec<i64> {
    sorted.iter().map(|k| k.key).collect()
}

fn places_of(sorted: &[Keyed<usize>]) -> Vec<usize> {
    sorted.iter().map(|k| k.item).collect()
}

#[test]
fn three_records_in_ascending_order() {
    let out = sort_keyed(keyed(&[3, 1, 2]), OrderDirect::Asc);
    assert_eq!(keys_of(&out), vec![1, 2, 3]);
    assert_eq!(places_of(&out), vec![1, 2, 0]);
}

#[test]
fn three_records_in_descending_order() {
    let out = sort_keyed(keyed(&[3, 1, 2]), OrderDirect::Desc);
    assert_eq!(keys_of(&out), vec![3, 2, 1]);
    assert_eq!(places_of(&out), vec![0, 2, 1]);
}

#[test]
fn equal_keys_keep_their_order() {
    let out = sort_keyed(keyed(&[2, 1, 2, 1, 2]), OrderDirect::Asc);
    assert_eq!(keys_of(&out), vec![1, 1, 2, 2, 2]);
    assert_eq!(places_of(&out), vec![1, 3, 0, 2, 4]);
    let out = sort_keyed(keyed(&[2, 1, 2, 1, 2]), OrderDirect::Desc);
    assert_eq!(keys_of(&out), vec![2, 2, 2, 1, 1]);
    assert_eq!(places_of(&out), vec![0, 2, 4, 1, 3]);
}

#[test]
fn order_of_nothing_and_of_one() {
    assert_eq!(sort_keyed(keyed(&[]), OrderDirect::Asc), vec![]);
    assert_eq!(sort_keyed(keyed(&[5]), OrderDirect::Desc), keyed(&[5]));
}

#[test]
fn order_handles_the_extremes() {
    let out = sort_keyed(keyed(&[i64::MAX, 0, i64::MIN]), OrderDirect::Asc);
    assert_eq!(keys_of(&out), vec![i64::MIN, 0, i64::MAX]);
}

#[test]
fn order_by_a_key_function() {
    let out = order_by(vec![3, 1, 2], |x: &i64| *x, OrderDirect::Asc);
    assert_eq!(out, vec![1, 2, 3]);
    let out = order_by(vec![3, 1, 2], |x: &i64| *x, OrderDirect::Desc);
    assert_eq!(out, vec![3, 2, 1]);
    let words = vec!["ccc", "a", "bb", "dd", "e"];
    let out = order_by(words, |w: &&str| w.len() as i64, OrderDirect::Asc);
    assert_eq!(out, vec!["a", "e", "bb", "dd", "ccc"]);
}

#[test]
fn keys_are_paired_and_dropped_again() {
    let paired = key_all(vec![4, 5], &|x: &i32| (*x as i64) * 10);
    assert_eq!(paired, vec![Keyed { key: 40, item: 4 }, Keyed { key: 50, item: 5 }]);
    assert_eq!(unkeyed(paired), vec![4, 5]);
}

#[test]
fn order_operator_emits_once_the_scope_is_complete() {
    let mut o: Order<&str> = Order::new(OrderDirect::Asc, Range::Global, 0, 2);
    assert_eq!(o.peers(), 2);
    o.on_item(3, "three");
    o.on_item(1, "one");
    assert_eq!(o.on_end(0), None);
    o.on_item(2, "two");
    let out = o.on_end(1).unwrap();
    assert_eq!(out.iter().map(|k| k.item).collect::<Vec<_>>(), vec!["one", "two", "three"]);
    assert_eq!(o.on_end(1), None);
}


#[test]
fn partial_orders_merge_into_one() {
    let left = vec![Keyed { key: 1, item: "l1" }, Keyed { key: 3, item: "l3" }];
    let right = vec![
        Keyed { key: 1, item: "r1" },
        Keyed { key: 2, item: "r2" },
        Keyed { key: 3, item: "r3" },
    ];
    let out = merge_partials(left, right, OrderDirect::Asc);
    assert_eq!(
        out.iter().map(|k| k.item).collect::<Vec<_>>(),
        vec!["l1", "r1", "r2", "l3", "r3"]
    );
    let left = vec![Keyed { key: 3, item: "l3" }, Keyed { key: 1, item: "l1" }];
    let right = vec![Keyed { key: 3, item: "r3" }, Keyed { key: 2, item: "r2" }];
    let out = merge_partials(left, right, OrderDirect::Desc);
    assert_eq!(out.iter().map(|k| k.item).collect::<Vec<_>>(), vec!["l3", "r3", "r2", "l1"]);
    let none: Vec<Keyed<u8>> = merge_partials(vec![], vec![], OrderDirect::Asc);
    assert!(none.is_empty());
}

#[test]
fn cancelled_order_discards_its_buffer() {
    let mut o: Order<u8> = Order::new(OrderDirect::Asc, Range::Local, 0, 1);
    o.on_item(2, 20);
    o.on_item(1, 10);
    assert_eq!(o.discard(), 2);
    assert_eq!(o.discard(), 0);
    o.on_item(3, 30);
    assert_eq!(o.on_end(0), Some(vec![Keyed { key: 3, item: 30 }]));
}

#[test]
fn count_across_workers_adds_what_each_counted() {
    let mut c = Count::new(Range::Global, 0, 3);
    c.on_item();
    c.on_item();
    c.absorb(5);
    assert_eq!(c.on_end(1), None);
    c.absorb(0);
    assert_eq!(c.on_end(2), None);
    assert_eq!(c.get(), 7);
    assert_eq!(c.on_end(0), Some(7));
}
