use gaia_engine::object::Primitives;
use gaia_engine::reduce::group::{Group, GroupKey, Grouped};
use gaia_engine::reduce::Range;
use gaia_engine::structure::label::Label;

fn name(s: &str) -> Label {
    Label::Str(String::from(s))
}

#[test]
fn keys_name_the_same_group_by_value() {
    assert!(name("a").is_same_key(&name("a")));
    assert!(!name("a").is_same_key(&name("b")));
    assert!(!name("1").is_same_key(&Label::Id(1)));
    assert!(Label::Id(1).is_same_key(&Label::Id(1)));
    assert!(Primitives::Long(1).is_same_key(&Primitives::Long(1)));
    assert!(!Primitives::Long(1).is_same_key(&Primitives::Integer(1)));
    assert!(5i64.is_same_key(&5i64));
    assert!(!5i64.is_same_key(&6i64));
}

#[test]
fn one_group_for_each_distinct_key() {
    let mut g: Group<Label, i32> = Group::new(Range::Local, 0, 1);
    g.on_item(name("person"), 1);
    g.on_item(name("software"), 2);
    g.on_item(name("person"), 3);
    g.on_item(Label::Id(7), 4);
    g.on_item(name("software"), 5);
    g.on_item(name("person"), 6);
    let out = g.on_end(0).unwrap();
    assert_eq!(
        out,
        vec![
            Grouped { key: name("person"), items: vec![1, 3, 6] },
            Grouped { key: name("software"), items: vec![2, 5] },
            Grouped { key: Label::Id(7), items: vec![4] },
        ]
    );
}

#[test]
fn groups_come_out_once_the_scope_is_complete() {
    let mut g: Group<i64, &str> = Group::new(Range::Global, 1, 2);
    assert_eq!(g.peers(), 2);
    g.on_item(1, "a");
    assert_eq!(g.on_end(1), None);
    g.on_item(2, "b");
    g.on_item(1, "c");
    let out = g.on_end(0).unwrap();
    assert_eq!(
        out,
        vec![Grouped { key: 1, items: vec!["a", "c"] }, Grouped { key: 2, items: vec!["b"] }]
    );
    assert_eq!(g.on_end(0), None);
    assert_eq!(g.on_end(1), None);
}

#[test]
fn empty_scope_has_no_groups() {
    let mut g: Group<Primitives, u8> = Group::new(Range::Local, 0, 1);
    assert_eq!(g.on_end(0), Some(vec![]));
}

#[test]
fn cancelled_group_discards_its_groups() {
    let mut g: Group<i64, u8> = Group::new(Range::Local, 0, 1);
    g.on_item(1, 1);
    g.on_item(2, 2);
    g.on_item(1, 3);
    assert_eq!(g.discard(), 2);
    g.on_item(2, 4);
    assert_eq!(g.on_end(0), Some(vec![Grouped { key: 2, items: vec![4] }]));
}
