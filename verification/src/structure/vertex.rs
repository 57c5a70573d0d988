//! Vertices.

use crate::structure::details::{Details, DynDetails};
use crate::structure::element::Element;
use crate::structure::label::{clone_label, Label, ID};
use vstd::prelude::*;

verus! {

/// A vertex: its identity, the label set on it directly if any, and its
/// properties.
#[derive(Debug, PartialEq)]
pub struct Vertex {
    pub id: ID,
    pub label: Option<Label>,
    details: DynDetails,
}

/// A vertex as contracts see it.
pub struct VertexView {
    pub id: ID,
    pub label: Option<Label>,
    pub properties: DynDetails,
}

impl View for Vertex {
    type V = VertexView;

    closed spec fn view(&self) -> VertexView {
        VertexView { id: self.id, label: self.label, properties: self.details }
    }
}

impl Vertex {
    pub fn new(id: ID, label: Option<Label>, details: DynDetails) -> (v: Vertex)
        ensures
            v@ == (VertexView { id, label, properties: details }),
    {
        Vertex { id, label, details }
    }

    /// The label set on the vertex directly, if one was.
    pub fn own_label(&self) -> (l: &Option<Label>)
        ensures
            *l == self@.label,
    {
        &self.label
    }
}

impl Element for Vertex {
    open spec fn element_id(&self) -> ID {
        self@.id
    }

    open spec fn element_label(&self) -> Option<Label> {
        match self@.label {
            Some(l) => Some(l),
            None => self@.properties.label_of(),
        }
    }

    open spec fn element_details(&self) -> DynDetails {
        self@.properties
    }

    fn id(&self) -> (id: ID) {
        self.id
    }

    fn has_label(&self) -> (b: bool) {
        self.label.is_some() || self.details.get_label().is_some()
    }

    fn label(&self) -> (l: &Label) {
        if let Some(ref s) = self.label {
            s
        } else {
            self.details.get_label().unwrap()
        }
    }

    fn details(&self) -> (d: &DynDetails) {
        &self.details
    }
}

impl Clone for Vertex {
    fn clone(&self) -> (res: Vertex)
        ensures
            res == *self,
    {
        Vertex { id: self.id, label: clone_label(&self.label), details: self.details.clone() }
    }
}

} // verus!
