//! Turning a finished batch of traversers into the message that carries it.

use crate::object::{Object, Opaque, Primitives};
use crate::path::{PathItem, ResultPath};
use crate::property::{ResultProperty, TagEntry};
use crate::structure::details::Property;
use crate::structure::edge::Edge;
use crate::structure::element::{Element, GraphElement, VertexOrEdge};
use crate::structure::label::{label_text, render_label};
use crate::structure::vertex::Vertex;
use crate::traverser::{Carried, Traverser};
use crate::wire;
use vstd::prelude::*;

verus! {

/// Why a result cannot be written.
#[derive(Clone, Copy, Debug, PartialEq, Eq, Structural)]
pub enum EncodeError {
    /// A property value that is none of a 32-bit integer, a 64-bit integer, a
    /// float, a string or a blob.
    UnsupportedValue,
    /// A step of a path that is not an element of the graph.
    DetachedPathItem,
}

/// `pb` is the message for the vertex `v`: the identity cut to 64 bits, the
/// label set on the vertex as text, and no properties.
pub open spec fn vertex_encoded(v: Vertex, pb: wire::Vertex) -> bool {
    &&& pb.id == v@.id as i64
    &&& pb.label@ == label_text(v@.label)
    &&& pb.properties@.len() == 0
}

/// `pb` is the message for the edge `e`: identities cut to 64 bits, the label
/// set on the edge as text, the labels of both ends left empty, and no
/// properties.
pub open spec fn edge_encoded(e: Edge, pb: wire::Edge) -> bool {
    &&& pb.id == e@.id as i64
    &&& pb.label@ == label_text(e@.label)
    &&& pb.src_id == e@.src_id as i64
    &&& pb.src_label@.len() == 0
    &&& pb.dst_id == e@.dst_id as i64
    &&& pb.dst_label@.len() == 0
    &&& pb.properties@.len() == 0
}

/// `pb` is the message for the element `g`.
pub open spec fn element_encoded(g: GraphElement, pb: wire::GraphElement) -> bool {
    match g.inner() {
        VertexOrEdge::V(v) => pb.inner matches Some(wire::GraphElementInner::Vertex(x))
            && vertex_encoded(v, x),
        VertexOrEdge::E(e) => pb.inner matches Some(wire::GraphElementInner::Edge(x))
            && edge_encoded(e, x),
    }
}

/// Whether every step of the path is an element of the graph.
pub open spec fn path_encodable(path: ResultPath) -> bool {
    forall|i: int| 0 <= i < path.items@.len() ==> #[trigger] path.items@[i] is OnGraph
}

/// `pb` is the message for the path: its elements, in order.
pub open spec fn path_encoded(path: ResultPath, pb: wire::Path) -> bool {
    &&& pb.path@.len() == path.items@.len()
    &&& forall|i: int|
        0 <= i < path.items@.len() ==> (#[trigger] path.items@[i] matches PathItem::OnGraph(g)
            && element_encoded(g, pb.path@[i]))
}

/// Whether a value has a wire form.
pub open spec fn value_encodable(value: Object) -> bool {
    match value {
        Object::Primitive(Primitives::Byte(_)) => false,
        Object::Opaque(_) => false,
        _ => true,
    }
}

/// `pb` is the wire form of `value`.
pub open spec fn value_encoded(value: Object, pb: wire::Value) -> bool {
    match value {
        Object::Primitive(Primitives::Integer(v)) => pb.item == Some(wire::ValueItem::I32(v)),
        Object::Primitive(Primitives::Long(v)) => pb.item == Some(wire::ValueItem::I64(v)),
        Object::Primitive(Primitives::Float(v)) => pb.item == Some(wire::ValueItem::F64(v)),
        Object::String(s) => pb.item matches Some(wire::ValueItem::Str(t)) && t@ == s@,
        Object::Blob(b) => pb.item matches Some(wire::ValueItem::Blob(t)) && t@ == b@,
        _ => false,
    }
}

/// `pb` is the message for the property `p`.
pub open spec fn property_encoded(p: Property, pb: wire::Property) -> bool {
    &&& pb.key@ == p.key@
    &&& pb.value matches Some(v) && value_encoded(p.value, v)
}

/// `pb` is the message for what was picked under one tag.
pub open spec fn entry_encoded(entry: TagEntry, pb: wire::TagProperty) -> bool {
    &&& pb.tag@ == entry.tag@
    &&& pb.props@.len() == entry.props@.len()
    &&& forall|j: int|
        0 <= j < entry.props@.len() ==> property_encoded(
            #[trigger] entry.props@[j],
            pb.props@[j],
        )
}

/// Whether every value picked under the tag has a wire form.
pub open spec fn entry_encodable(entry: TagEntry) -> bool {
    forall|j: int|
        0 <= j < entry.props@.len() ==> value_encodable((#[trigger] entry.props@[j]).value)
}

/// Whether every value in the bag has a wire form.
pub open spec fn properties_encodable(bag: ResultProperty) -> bool {
    forall|i: int|
        0 <= i < bag.properties@.len() ==> entry_encodable(#[trigger] bag.properties@[i])
}

/// `pb` is the message for the bag: its tags in order, each with its
/// properties in order.
pub open spec fn properties_encoded(bag: ResultProperty, pb: wire::TagProperties) -> bool {
    &&& pb.item@.len() == bag.properties@.len()
    &&& forall|i: int|
        0 <= i < bag.properties@.len() ==> entry_encoded(
            #[trigger] bag.properties@[i],
            pb.item@[i],
        )
}

pub fn vertex_to_pb(v: &Vertex) -> (pb: wire::Vertex)
    ensures
        vertex_encoded(*v, pb),
{
    wire::Vertex {
        id: #[verifier::truncate]
        (v.id() as i64),
        label: render_label(v.own_label()),
        properties: Vec::new(),
    }
}

pub fn edge_to_pb(e: &Edge) -> (pb: wire::Edge)
    ensures
        edge_encoded(*e, pb),
{
    wire::Edge {
        id: #[verifier::truncate]
        (e.id() as i64),
        label: render_label(e.own_label()),
        src_id: #[verifier::truncate]
        (e.src_id() as i64),
        src_label: String::new(),
        dst_id: #[verifier::truncate]
        (e.dst_id() as i64),
        dst_label: String::new(),
        properties: Vec::new(),
    }
}

pub fn element_to_pb(g: &GraphElement) -> (pb: wire::GraphElement)
    ensures
        element_encoded(*g, pb),
{
    let inner = match g.get() {
        VertexOrEdge::V(v) => wire::GraphElementInner::Vertex(vertex_to_pb(v)),
        VertexOrEdge::E(e) => wire::GraphElementInner::Edge(edge_to_pb(e)),
    };
    wire::GraphElement { inner: Some(inner) }
}

/// Writes a path. A path with a step that is not an element of the graph is
/// refused, whatever else it holds.
pub fn path_to_pb(path: &ResultPath) -> (res: Result<wire::Path, EncodeError>)
    ensures
        match res {
            Ok(pb) => path_encodable(*path) && path_encoded(*path, pb),
            Err(e) => !path_encodable(*path) && e == EncodeError::DetachedPathItem,
        },
{
    let mut path_pb: Vec<wire::GraphElement> = Vec::new();
    let n = path.items.len();
    let mut i: usize = 0;
    while i < n
        invariant
            n == path.items@.len(),
            i <= n,
            path_pb@.len() == i,
            forall|k: int|
                0 <= k < i ==> (#[trigger] path.items@[k] matches PathItem::OnGraph(g)
                    && element_encoded(g, path_pb@[k])),
        decreases n - i,
    {
        match &path.items[i] {
            PathItem::OnGraph(graph_element) => {
                path_pb.push(element_to_pb(graph_element));
            },
            PathItem::Detached(_) => {
                assert(!(path.items@[i as int] is OnGraph));
                return Err(EncodeError::DetachedPathItem);
            },
        }
        i += 1;
    }
    Ok(wire::Path { path: path_pb })
}

/// A copy of some bytes.
fn copy_bytes(bytes: &Vec<u8>) -> (res: Vec<u8>)
    ensures
        res@ == bytes@,
{
    let mut res: Vec<u8> = Vec::new();
    let n = bytes.len();
    let mut i: usize = 0;
    while i < n
        invariant
            n == bytes@.len(),
            i <= n,
            res@ == bytes@.take(i as int),
        decreases n - i,
    {
        res.push(bytes[i]);
        assert(res@ =~= bytes@.take(i + 1));
        i += 1;
    }
    assert(bytes@.take(n as int) =~= bytes@);
    res
}

/// Writes a property value. Only 32-bit and 64-bit integers, floats, strings
/// and blobs have a wire form; a byte or an opaque payload is refused.
pub fn object_to_pb_value(value: &Object) -> (res: Result<wire::Value, EncodeError>)
    ensures
        match res {
            Ok(pb) => value_encodable(*value) && value_encoded(*value, pb),
            Err(e) => !value_encodable(*value) && e == EncodeError::UnsupportedValue,
        },
{
    let item = match value {
        Object::Primitive(v) => {
            match v {
                Primitives::Byte(_) => {
                    return Err(EncodeError::UnsupportedValue);
                },
                Primitives::Integer(v) => wire::ValueItem::I32(*v),
                Primitives::Long(v) => wire::ValueItem::I64(*v),
                Primitives::Float(v) => wire::ValueItem::F64(*v),
            }
        },
        Object::String(s) => wire::ValueItem::Str(s.clone()),
        Object::Blob(b) => wire::ValueItem::Blob(copy_bytes(b)),
        Object::Opaque(_) => {
            return Err(EncodeError::UnsupportedValue);
        },
    };
    Ok(wire::Value { item: Some(item) })
}

/// Writes what was picked under one tag.
fn entry_to_pb(entry: &TagEntry) -> (res: Result<wire::TagProperty, EncodeError>)
    ensures
        match res {
            Ok(pb) => entry_encodable(*entry) && entry_encoded(*entry, pb),
            Err(e) => !entry_encodable(*entry) && e == EncodeError::UnsupportedValue,
        },
{
    let mut props_pb: Vec<wire::Property> = Vec::new();
    let n = entry.props.len();
    let mut j: usize = 0;
    while j < n
        invariant
            n == entry.props@.len(),
            j <= n,
            props_pb@.len() == j,
            forall|k: int|
                0 <= k < j ==> value_encodable((#[trigger] entry.props@[k]).value)
                    && property_encoded(entry.props@[k], props_pb@[k]),
        decreases n - j,
    {
        let p = &entry.props[j];
        match object_to_pb_value(&p.value) {
            Ok(pb_value) => {
                props_pb.push(wire::Property { key: p.key.clone(), value: Some(pb_value) });
            },
            Err(e) => {
                assert(!value_encodable(entry.props@[j as int].value));
                return Err(e);
            },
        }
        j += 1;
    }
    Ok(wire::TagProperty { tag: entry.tag.clone(), props: props_pb })
}

/// Writes a bag of tagged properties. A bag with a value that has no wire
/// form is refused, whatever else it holds.
pub fn property_to_pb(result_property: &ResultProperty) -> (res: Result<
    wire::TagProperties,
    EncodeError,
>)
    ensures
        match res {
            Ok(pb) => properties_encodable(*result_property) && properties_encoded(
                *result_property,
                pb,
            ),
            Err(e) => !properties_encodable(*result_property) && e
                == EncodeError::UnsupportedValue,
        },
{
    let mut tag_props_pb: Vec<wire::TagProperty> = Vec::new();
    let n = result_property.properties.len();
    let mut i: usize = 0;
    while i < n
        invariant
            n == result_property.properties@.len(),
            i <= n,
            tag_props_pb@.len() == i,
            forall|k: int|
                0 <= k < i ==> entry_encodable(#[trigger] result_property.properties@[k])
                    && entry_encoded(result_property.properties@[k], tag_props_pb@[k]),
        decreases n - i,
    {
        match entry_to_pb(&result_property.properties[i]) {
            Ok(tag_property) => {
                tag_props_pb.push(tag_property);
            },
            Err(e) => {
                assert(!entry_encodable(result_property.properties@[i as int]));
                return Err(e);
            },
        }
        i += 1;
    }
    Ok(wire::TagProperties { item: tag_props_pb })
}


/// The element a traverser holds, if it holds one.
pub open spec fn element_of(t: Traverser) -> Option<GraphElement> {
    match t@.carried {
        Carried::Element(g) => Some(g),
        _ => None,
    }
}

/// The path a traverser holds, if it holds one.
pub open spec fn path_of(t: Traverser) -> Option<ResultPath> {
    match t@.carried {
        Carried::Object(Object::Opaque(payload)) => match *payload {
            Opaque::Path(p) => Some(p),
            _ => None,
        },
        _ => None,
    }
}

/// The bag of tagged properties a traverser holds, if it holds one.
pub open spec fn properties_of(t: Traverser) -> Option<ResultProperty> {
    match t@.carried {
        Carried::Object(Object::Opaque(payload)) => match *payload {
            Opaque::Properties(p) => Some(p),
            _ => None,
        },
        _ => None,
    }
}

/// Why what a traverser holds cannot be written, if it cannot. Elements can
/// always be written, and what is neither an element, a path nor a bag of
/// properties is not written at all.
pub open spec fn item_error(t: Traverser) -> Option<EncodeError> {
    if path_of(t) matches Some(p) && !path_encodable(p) {
        Some(EncodeError::DetachedPathItem)
    } else if properties_of(t) matches Some(b) && !properties_encodable(b) {
        Some(EncodeError::UnsupportedValue)
    } else {
        None
    }
}

/// The failure of the first traverser of the batch that cannot be written.
pub open spec fn first_error(data: Seq<Traverser>) -> Option<EncodeError>
    decreases data.len(),
{
    if data.len() == 0 {
        None
    } else {
        match first_error(data.drop_last()) {
            Some(e) => Some(e),
            None => item_error(data.last()),
        }
    }
}

/// The elements held in the batch, in order.
pub open spec fn elements_in(data: Seq<Traverser>) -> Seq<GraphElement>
    decreases data.len(),
{
    if data.len() == 0 {
        Seq::empty()
    } else {
        match element_of(data.last()) {
            Some(g) => elements_in(data.drop_last()).push(g),
            None => elements_in(data.drop_last()),
        }
    }
}

/// The paths held in the batch, in order.
pub open spec fn paths_in(data: Seq<Traverser>) -> Seq<ResultPath>
    decreases data.len(),
{
    if data.len() == 0 {
        Seq::empty()
    } else {
        match path_of(data.last()) {
            Some(p) => paths_in(data.drop_last()).push(p),
            None => paths_in(data.drop_last()),
        }
    }
}

/// The bags of tagged properties held in the batch, in order.
pub open spec fn properties_in(data: Seq<Traverser>) -> Seq<ResultProperty>
    decreases data.len(),
{
    if data.len() == 0 {
        Seq::empty()
    } else {
        match properties_of(data.last()) {
            Some(p) => properties_in(data.drop_last()).push(p),
            None => properties_in(data.drop_last()),
        }
    }
}

/// `pbs` are the messages for the elements `gs`, one for one.
pub open spec fn elements_encoded(gs: Seq<GraphElement>, pbs: Seq<wire::GraphElement>) -> bool {
    &&& pbs.len() == gs.len()
    &&& forall|k: int| 0 <= k < gs.len() ==> element_encoded(#[trigger] gs[k], pbs[k])
}

/// `pbs` are the messages for the paths `ps`, one for one.
pub open spec fn paths_encoded(ps: Seq<ResultPath>, pbs: Seq<wire::Path>) -> bool {
    &&& pbs.len() == ps.len()
    &&& forall|k: int| 0 <= k < ps.len() ==> path_encoded(#[trigger] ps[k], pbs[k])
}

/// `pbs` are the messages for the bags `bs`, one for one.
pub open spec fn bags_encoded(bs: Seq<ResultProperty>, pbs: Seq<wire::TagProperties>) -> bool {
    &&& pbs.len() == bs.len()
    &&& forall|k: int| 0 <= k < bs.len() ==> properties_encoded(#[trigger] bs[k], pbs[k])
}

/// `r` is the message for the batch. Elements win over paths, and paths over
/// tagged properties: where the batch holds an element, the message is the
/// array of its elements and nothing else; else, where it holds a path, the
/// array of its paths; else the array of its bags of tagged properties, which
/// may be empty.
pub open spec fn batch_encoded(data: Seq<Traverser>, r: wire::QueryResult) -> bool {
    if elements_in(data).len() > 0 {
        r.inner matches Some(wire::ResultInner::Elements(arr)) && elements_encoded(
            elements_in(data),
            arr.item@,
        )
    } else if paths_in(data).len() > 0 {
        r.inner matches Some(wire::ResultInner::Paths(arr)) && paths_encoded(
            paths_in(data),
            arr.item@,
        )
    } else {
        r.inner matches Some(wire::ResultInner::TagProperties(arr)) && bags_encoded(
            properties_in(data),
            arr.item@,
        )
    }
}

/// Writes a finished batch as one message of exactly one shape, see
/// [`batch_encoded`]. Every path and every bag of the batch is written, also
/// where the shape chosen in the end leaves it out, so the batch is refused
/// as soon as one of them cannot be written.
pub fn result_to_pb(data: Vec<Traverser>) -> (res: Result<wire::QueryResult, EncodeError>)
    ensures
        match res {
            Ok(r) => first_error(data@) is None && batch_encoded(data@, r),
            Err(e) => first_error(data@) == Some(e),
        },
{
    let mut paths_encode: Vec<wire::Path> = Vec::new();
    let mut elements_encode: Vec<wire::GraphElement> = Vec::new();
    let mut properties_encode: Vec<wire::TagProperties> = Vec::new();
    let n = data.len();
    let mut i: usize = 0;
    while i < n
        invariant
            n == data@.len(),
            i <= n,
            first_error(data@.take(i as int)) is None,
            elements_encoded(elements_in(data@.take(i as int)), elements_encode@),
            paths_encoded(paths_in(data@.take(i as int)), paths_encode@),
            bags_encoded(properties_in(data@.take(i as int)), properties_encode@),
        decreases n - i,
    {
        let t = &data[i];
        proof {
            assert(data@.take(i + 1).drop_last() =~= data@.take(i as int));
            assert(data@.take(i + 1).last() == data@[i as int]);
        }
        if let Some(e) = t.get_element() {
            elements_encode.push(element_to_pb(e));
        } else if let Some(o) = t.get_object() {
            match o {
                Object::Opaque(x) => {
                    match &**x {
                        Opaque::Path(p) => {
                            match path_to_pb(p) {
                                Ok(pb) => {
                                    paths_encode.push(pb);
                                },
                                Err(e) => {
                                    proof {
                                        lemma_first_error_stays(data@, i + 1);
                                    }
                                    return Err(e);
                                },
                            }
                        },
                        Opaque::Properties(result_prop) => {
                            match property_to_pb(result_prop) {
                                Ok(pb) => {
                                    properties_encode.push(pb);
                                },
                                Err(e) => {
                                    proof {
                                        lemma_first_error_stays(data@, i + 1);
                                    }
                                    return Err(e);
                                },
                            }
                        },
                        _ => {},
                    }
                },
                _ => {},
            }
        }
        i += 1;
    }
    assert(data@.take(n as int) =~= data@);
    if elements_encode.len() > 0 {
        let elements = wire::GraphElementArray { item: elements_encode };
        Ok(wire::QueryResult { inner: Some(wire::ResultInner::Elements(elements)) })
    } else if paths_encode.len() > 0 {
        let paths = wire::PathArray { item: paths_encode };
        Ok(wire::QueryResult { inner: Some(wire::ResultInner::Paths(paths)) })
    } else {
        let properties = wire::TagPropertiesArray { item: properties_encode };
        Ok(wire::QueryResult { inner: Some(wire::ResultInner::TagProperties(properties)) })
    }
}

/// A failure found in the first `k` traversers is the failure of the batch.
proof fn lemma_first_error_stays(data: Seq<Traverser>, k: int)
    requires
        0 <= k <= data.len(),
        first_error(data.take(k)) is Some,
    ensures
        first_error(data) == first_error(data.take(k)),
    decreases data.len() - k,
{
    if k < data.len() {
        assert(data.take(k + 1).drop_last() =~= data.take(k));
        lemma_first_error_stays(data, k + 1);
    } else {
        assert(data.take(k) =~= data);
    }
}

} // verus!
