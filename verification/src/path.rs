//! The history of a traverser.

use crate::object::Object;
use crate::structure::element::GraphElement;
use vstd::prelude::*;

verus! {

/// One step of a path: an element of the graph, or a value that is not part
/// of the graph.
#[derive(Debug, PartialEq)]
pub enum PathItem {
    OnGraph(GraphElement),
    Detached(Object),
}

impl Clone for PathItem {
    fn clone(&self) -> (res: PathItem)
        ensures
            res == *self,
    {
        match self {
            PathItem::OnGraph(g) => PathItem::OnGraph(g.clone()),
            PathItem::Detached(o) => PathItem::Detached(o.clone()),
        }
    }
}

/// A finished path, first step first.
#[derive(Debug, PartialEq)]
pub struct ResultPath {
    pub items: Vec<PathItem>,
}

} // verus!
