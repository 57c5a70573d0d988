use gaia_engine::object::{Object, Primitives};
use gaia_engine::structure::details::{Details, DynDetails, Property};
use gaia_engine::structure::edge::Edge;
use gaia_engine::structure::element::{Element, GraphElement, VertexOrEdge};
use gaia_engine::structure::label::Label;
use gaia_engine::structure::vertex::Vertex;

fn name(s: &str) -> Label {
    Label::Str(String::from(s))
}

fn prop(key: &str, value: i64) -> Property {
    Property { key: String::from(key), value: Object::Primitive(Primitives::Long(value)) }
}

#[test]
fn new_edge_has_no_end_labels() {
    let e = Edge::new(1, Some(name("knows")), 10, 20, DynDetails::empty());
    assert_eq!(e.id, 1);
    assert_eq!(e.src_id, 10);
    assert_eq!(e.dst_id, 20);
    assert_eq!(e.src_id(), 10);
    assert_eq!(e.dst_id(), 20);
    assert_eq!(e.label, Some(name("knows")));
    assert_eq!(e.own_label(), &Some(name("knows")));
    assert_eq!(e.get_src_label(), None);
    assert_eq!(e.get_dst_label(), None);
}

#[test]
fn end_labels_are_set_one_by_one() {
    let mut e = Edge::new(1, None, 10, 20, DynDetails::empty());
    e.set_src_label(name("person"));
    assert_eq!(e.get_src_label(), Some(&name("person")));
    assert_eq!(e.get_dst_label(), None);
    e.set_dst_label(Label::Id(4));
    assert_eq!(e.get_src_label(), Some(&name("person")));
    assert_eq!(e.get_dst_label(), Some(&Label::Id(4)));
    e.set_src_label(name("software"));
    assert_eq!(e.get_src_label(), Some(&name("software")));
    assert_eq!(e.id, 1);
    assert_eq!(e.src_id, 10);
    assert_eq!(e.dst_id, 20);
    assert_eq!(e.label, None);
}

#[test]
fn label_set_directly_wins_over_details() {
    let details = DynDetails::new(Some(name("from_details")), vec![]);
    let e = Edge::new(1, Some(name("direct")), 2, 3, details);
    assert!(e.has_label());
    assert_eq!(e.label(), &name("direct"));
}

#[test]
fn label_falls_back_to_details() {
    let e = Edge::new(1, None, 2, 3, DynDetails::new(Some(Label::Id(7)), vec![]));
    assert!(e.has_label());
    assert_eq!(e.label(), &Label::Id(7));
    let v = Vertex::new(1, None, DynDetails::new(Some(name("person")), vec![]));
    assert!(v.has_label());
    assert_eq!(v.label(), &name("person"));
}

#[test]
fn element_without_any_label_says_so() {
    let e = Edge::new(1, None, 2, 3, DynDetails::empty());
    assert!(!e.has_label());
    let v = Vertex::new(1, None, DynDetails::empty());
    assert!(!v.has_label());
    let g = GraphElement::new(VertexOrEdge::V(v));
    assert!(!g.has_label());
}

#[test]
fn element_answers_for_what_it_wraps() {
    let v = Vertex::new(u128::MAX, Some(name("person")), DynDetails::new(None, vec![prop("age", 29)]));
    assert_eq!(v.id(), u128::MAX);
    let g = GraphElement::new(VertexOrEdge::V(v));
    assert_eq!(g.id(), u128::MAX);
    assert_eq!(g.label(), &name("person"));
    assert_eq!(
        g.details().get(&String::from("age")),
        Some(&Object::Primitive(Primitives::Long(29)))
    );
    let e = Edge::new(5, Some(Label::Id(1)), 2, 3, DynDetails::empty());
    let g = GraphElement::new(VertexOrEdge::E(e));
    assert_eq!(g.id(), 5);
    assert_eq!(g.label(), &Label::Id(1));
}

#[test]
fn details_answer_with_the_first_property_of_a_key() {
    let d = DynDetails::new(None, vec![prop("a", 1), prop("b", 2), prop("a", 3)]);
    assert_eq!(d.get(&String::from("a")), Some(&Object::Primitive(Primitives::Long(1))));
    assert_eq!(d.get(&String::from("b")), Some(&Object::Primitive(Primitives::Long(2))));
    assert_eq!(d.get(&String::from("c")), None);
    assert_eq!(d.get_label(), None);
    assert_eq!(DynDetails::empty().get(&String::from("a")), None);
}

#[test]
fn attached_value_is_found_again() {
    let mut g = GraphElement::new(VertexOrEdge::V(Vertex::new(1, None, DynDetails::empty())));
    assert_eq!(g.get_attached(), None);
    g.attach(Object::Primitive(Primitives::Long(4)));
    assert_eq!(g.get_attached(), Some(&Object::Primitive(Primitives::Long(4))));
}

#[test]
fn last_attached_value_wins() {
    let mut g = GraphElement::new(VertexOrEdge::V(Vertex::new(1, None, DynDetails::empty())));
    g.attach(Object::String(String::from("first")));
    g.attach(Object::String(String::from("second")));
    assert_eq!(g.get_attached(), Some(&Object::String(String::from("second"))));
    let mut once = GraphElement::new(VertexOrEdge::V(Vertex::new(1, None, DynDetails::empty())));
    once.attach(Object::String(String::from("second")));
    assert_eq!(g, once);
}

#[test]
fn attaching_to_a_clone_leaves_the_source() {
    let source = GraphElement::new(VertexOrEdge::E(Edge::new(1, None, 2, 3, DynDetails::empty())));
    let mut copy = source.clone();
    assert_eq!(copy, source);
    copy.attach(Object::Primitive(Primitives::Integer(1)));
    assert_eq!(source.get_attached(), None);
    assert_eq!(copy.get(), source.get());
}
