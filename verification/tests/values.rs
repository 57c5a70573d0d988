use gaia_engine::error::GDBError;
use gaia_engine::object::{Object, Opaque, Primitives, Relation};
use gaia_engine::structure::label::{decimal_string, render_label, Label};

#[test]
fn decimal_of_small_and_large_numbers() {
    assert_eq!(decimal_string(0), "0");
    assert_eq!(decimal_string(7), "7");
    assert_eq!(decimal_string(10), "10");
    assert_eq!(decimal_string(42), "42");
    assert_eq!(decimal_string(1905), "1905");
    assert_eq!(decimal_string(u32::MAX), "4294967295");
}

#[test]
fn decimal_agrees_with_std() {
    for n in [1u32, 9, 11, 99, 100, 101, 65535, 1000000, 2147483648] {
        assert_eq!(decimal_string(n), n.to_string());
    }
}

#[test]
fn label_renders_as_name_or_numeral() {
    assert_eq!(Label::Str(String::from("person")).render(), "person");
    assert_eq!(Label::Id(42).render(), "42");
    assert_eq!(render_label(&None), "");
    assert_eq!(render_label(&Some(Label::Id(3))), "3");
}

#[test]
fn labels_are_equal_by_value() {
    assert_eq!(Label::Str(String::from("a")), Label::Str(String::from("a")));
    assert_ne!(Label::Str(String::from("a")), Label::Str(String::from("b")));
    assert_eq!(Label::Id(5), Label::Id(5));
    assert_ne!(Label::Id(5), Label::Id(6));
    assert_ne!(Label::Str(String::from("5")), Label::Id(5));
    let source = Label::Str(String::from("knows"));
    assert_eq!(source.clone(), source);
}

#[test]
fn numbers_of_one_kind_compare() {
    assert_eq!(Primitives::Byte(1).compare(&Primitives::Byte(2)).unwrap(), Relation::Less);
    assert_eq!(Primitives::Integer(-1).compare(&Primitives::Integer(-1)).unwrap(), Relation::Equal);
    assert_eq!(Primitives::Long(9).compare(&Primitives::Long(-9)).unwrap(), Relation::Greater);
    assert_eq!(
        Primitives::Long(i64::MIN).compare(&Primitives::Long(i64::MAX)).unwrap(),
        Relation::Less
    );
}

fn float(value: f64) -> Primitives {
    Primitives::Float(value.to_bits())
}

#[test]
fn floats_compare_in_numeric_order() {
    assert_eq!(float(1.5).compare(&float(2.5)).unwrap(), Relation::Less);
    assert_eq!(float(2.5).compare(&float(1.5)).unwrap(), Relation::Greater);
    assert_eq!(float(-1.0).compare(&float(1.0)).unwrap(), Relation::Less);
    assert_eq!(float(-2.0).compare(&float(-1.0)).unwrap(), Relation::Less);
    assert_eq!(float(-1.0).compare(&float(-2.0)).unwrap(), Relation::Greater);
    assert_eq!(float(0.25).compare(&float(0.25)).unwrap(), Relation::Equal);
    assert_eq!(float(f64::NEG_INFINITY).compare(&float(f64::MIN)).unwrap(), Relation::Less);
    assert_eq!(float(f64::MAX).compare(&float(f64::INFINITY)).unwrap(), Relation::Less);
}

#[test]
fn negative_zero_stands_below_zero() {
    assert_eq!(float(-0.0).compare(&float(0.0)).unwrap(), Relation::Less);
}

#[test]
fn numbers_of_different_kinds_do_not_compare() {
    let pairs = [
        (Primitives::Integer(1), Primitives::Long(1)),
        (Primitives::Long(1), Primitives::Integer(1)),
        (Primitives::Byte(1), Primitives::Integer(1)),
        (float(1.0), Primitives::Long(1)),
        (Primitives::Byte(0), float(0.0)),
    ];
    for (a, b) in pairs.iter() {
        assert!(matches!(a.compare(b), Err(GDBError::CrossComparisonError)));
    }
}

#[test]
fn clone_of_an_object_equals_it() {
    let objects = [
        Object::Primitive(Primitives::Long(3)),
        Object::String(String::from("text")),
        Object::blob(vec![1, 2, 3]),
        Object::opaque(Opaque::Count(9)),
        Object::opaque(Opaque::Unrecognized(String::from("?"))),
    ];
    for o in objects.iter() {
        assert_eq!(&o.clone(), o);
    }
}

#[test]
fn blob_holds_its_bytes() {
    match Object::blob(vec![9, 8, 7]) {
        Object::Blob(bytes) => assert_eq!(*bytes, vec![9, 8, 7]),
        other => panic!("unexpected {:?}", other),
    }
    let blob = Object::blob(vec![5]);
    let copy = blob.clone();
    drop(blob);
    assert_eq!(copy, Object::blob(vec![5]));
}
