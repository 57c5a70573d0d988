//! What vertices and edges have in common, and the element that is either.

use crate::object::Object;
use crate::structure::details::DynDetails;
use crate::structure::edge::Edge;
use crate::structure::label::{Label, ID};
use crate::structure::vertex::Vertex;
use vstd::prelude::*;

verus! {

/// The capabilities every graph element has.
pub trait Element {
    /// The identity of the element.
    spec fn element_id(&self) -> ID;

    /// The label of the element: the one set on it directly, else the one
    /// recorded with its properties, else none.
    spec fn element_label(&self) -> Option<Label>;

    /// The property accessor of the element.
    spec fn element_details(&self) -> DynDetails;

    fn id(&self) -> (id: ID)
        ensures
            id == self.element_id(),
    ;

    /// Whether the element has a label at all.
    fn has_label(&self) -> (b: bool)
        ensures
            b == self.element_label().is_some(),
    ;

    /// The label of the element. One of the two places a label can stand in
    /// has to hold one.
    fn label(&self) -> (l: &Label)
        requires
            self.element_label() is Some,
        ensures
            self.element_label() == Some(*l),
    ;

    fn details(&self) -> (d: &DynDetails)
        ensures
            *d == self.element_details(),
    ;
}

/// A vertex or an edge.
#[derive(Debug, PartialEq)]
pub enum VertexOrEdge {
    V(Vertex),
    E(Edge),
}

impl Clone for VertexOrEdge {
    fn clone(&self) -> (res: VertexOrEdge)
        ensures
            res == *self,
    {
        match self {
            VertexOrEdge::V(v) => VertexOrEdge::V(v.clone()),
            VertexOrEdge::E(e) => VertexOrEdge::E(e.clone()),
        }
    }
}

/// A graph element on its way through a traversal, together with the one
/// value a sub-traversal may have attached to it as a sort or group key.
#[derive(Debug, PartialEq)]
pub struct GraphElement {
    element: VertexOrEdge,
    attached: Option<Object>,
}

impl GraphElement {
    /// The vertex or edge inside.
    pub closed spec fn inner(self) -> VertexOrEdge {
        self.element
    }

    /// The value attached last, if any was.
    pub closed spec fn attached(self) -> Option<Object> {
        self.attached
    }

    /// The same element with `obj` as its attached value.
    pub closed spec fn with_attached(self, obj: Object) -> GraphElement {
        GraphElement { element: self.element, attached: Some(obj) }
    }

    /// An element with nothing attached.
    pub fn new(element: VertexOrEdge) -> (g: GraphElement)
        ensures
            g.inner() == element,
            g.attached() is None,
    {
        GraphElement { element, attached: None }
    }

    /// The vertex or edge inside.
    pub fn get(&self) -> (e: &VertexOrEdge)
        ensures
            *e == self.inner(),
    {
        &self.element
    }

    /// Attaches `obj`, in place of whatever was attached before.
    pub fn attach(&mut self, obj: Object)
        ensures
            *final(self) == old(self).with_attached(obj),
    {
        self.attached = Some(obj);
    }

    /// The value attached last, if any was.
    pub fn get_attached(&self) -> (res: Option<&Object>)
        ensures
            match res {
                Some(o) => self.attached() == Some(*o),
                None => self.attached() is None,
            },
    {
        self.attached.as_ref()
    }

    /// Attaching changes the attached value and nothing else.
    pub proof fn lemma_attach_then_lookup(self, obj: Object)
        ensures
            self.with_attached(obj).attached() == Some(obj),
            self.with_attached(obj).inner() == self.inner(),
    {
    }

    /// Of two values attached one after the other, the later one is the one
    /// that stays; the earlier leaves no trace.
    pub proof fn lemma_attach_last_wins(self, first: Object, second: Object)
        ensures
            self.with_attached(first).with_attached(second) == self.with_attached(second),
            self.with_attached(first).with_attached(second).attached() == Some(second),
    {
    }
}

impl Element for GraphElement {
    open spec fn element_id(&self) -> ID {
        match self.inner() {
            VertexOrEdge::V(v) => v.element_id(),
            VertexOrEdge::E(e) => e.element_id(),
        }
    }

    open spec fn element_label(&self) -> Option<Label> {
        match self.inner() {
            VertexOrEdge::V(v) => v.element_label(),
            VertexOrEdge::E(e) => e.element_label(),
        }
    }

    open spec fn element_details(&self) -> DynDetails {
        match self.inner() {
            VertexOrEdge::V(v) => v.element_details(),
            VertexOrEdge::E(e) => e.element_details(),
        }
    }

    fn id(&self) -> (id: ID) {
        match &self.element {
            VertexOrEdge::V(v) => v.id(),
            VertexOrEdge::E(e) => e.id(),
        }
    }

    fn has_label(&self) -> (b: bool) {
        match &self.element {
            VertexOrEdge::V(v) => v.has_label(),
            VertexOrEdge::E(e) => e.has_label(),
        }
    }

    fn label(&self) -> (l: &Label) {
        match &self.element {
            VertexOrEdge::V(v) => v.label(),
            VertexOrEdge::E(e) => e.label(),
        }
    }

    fn details(&self) -> (d: &DynDetails) {
        match &self.element {
            VertexOrEdge::V(v) => v.details(),
            VertexOrEdge::E(e) => e.details(),
        }
    }
}

impl Clone for GraphElement {
    fn clone(&self) -> (res: GraphElement)
        ensures
            res == *self,
    {
        GraphElement {
            element: self.element.clone(),
            attached: match &self.attached {
                Some(o) => Some(o.clone()),
                None => None,
            },
        }
    }
}

} // verus!
