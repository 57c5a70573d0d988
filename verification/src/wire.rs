//! The shapes of the messages that carry results to the client.

use vstd::prelude::*;

verus! {

/// The content of a property value. An `F64` holds the binary64 bit pattern.
#[derive(Debug, PartialEq)]
pub enum ValueItem {
    I32(i32),
    I64(i64),
    F64(u64),
    Str(String),
    Blob(Vec<u8>),
}

#[derive(Debug, PartialEq)]
pub struct Value {
    pub item: Option<ValueItem>,
}

#[derive(Debug, PartialEq)]
pub struct Property {
    pub key: String,
    pub value: Option<Value>,
}

#[derive(Debug, PartialEq)]
pub struct TagProperty {
    pub tag: String,
    pub props: Vec<Property>,
}

#[derive(Debug, PartialEq)]
pub struct TagProperties {
    pub item: Vec<TagProperty>,
}

#[derive(Debug, PartialEq)]
pub struct Vertex {
    pub id: i64,
    pub label: String,
    pub properties: Vec<Property>,
}

#[derive(Debug, PartialEq)]
pub struct Edge {
    pub id: i64,
    pub label: String,
    pub src_id: i64,
    pub src_label: String,
    pub dst_id: i64,
    pub dst_label: String,
    pub properties: Vec<Property>,
}

#[derive(Debug, PartialEq)]
pub enum GraphElementInner {
    Vertex(Vertex),
    Edge(Edge),
}

#[derive(Debug, PartialEq)]
pub struct GraphElement {
    pub inner: Option<GraphElementInner>,
}

#[derive(Debug, PartialEq)]
pub struct Path {
    pub path: Vec<GraphElement>,
}

#[derive(Debug, PartialEq)]
pub struct GraphElementArray {
    pub item: Vec<GraphElement>,
}

#[derive(Debug, PartialEq)]
pub struct PathArray {
    pub item: Vec<Path>,
}

#[derive(Debug, PartialEq)]
pub struct TagPropertiesArray {
    pub item: Vec<TagProperties>,
}

/// The three shapes a batch of results can take; a batch takes exactly one.
#[derive(Debug, PartialEq)]
pub enum ResultInner {
    Elements(GraphElementArray),
    Paths(PathArray),
    TagProperties(TagPropertiesArray),
}

/// One batch of results.
#[derive(Debug, PartialEq)]
pub struct QueryResult {
    pub inner: Option<ResultInner>,
}

} // verus!
