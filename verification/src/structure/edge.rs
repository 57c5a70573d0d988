//! Edges.

use crate::structure::details::{Details, DynDetails};
use crate::structure::element::Element;
use crate::structure::label::{clone_label, Label, ID};
use vstd::prelude::*;

verus! {

/// An edge: its identity, its two ends, the label set on it directly if any,
/// its properties, and the labels of its ends once they are known.
#[derive(Debug, PartialEq)]
pub struct Edge {
    pub id: ID,
    pub src_id: ID,
    pub dst_id: ID,
    pub label: Option<Label>,
    src_label: Option<Label>,
    dst_label: Option<Label>,
    properties: DynDetails,
}

/// An edge as contracts see it.
pub struct EdgeView {
    pub id: ID,
    pub src_id: ID,
    pub dst_id: ID,
    pub label: Option<Label>,
    pub src_label: Option<Label>,
    pub dst_label: Option<Label>,
    pub properties: DynDetails,
}

impl View for Edge {
    type V = EdgeView;

    closed spec fn view(&self) -> EdgeView {
        EdgeView {
            id: self.id,
            src_id: self.src_id,
            dst_id: self.dst_id,
            label: self.label,
            src_label: self.src_label,
            dst_label: self.dst_label,
            properties: self.properties,
        }
    }
}

impl Edge {
    /// An edge from `src` to `dst`. The labels of its ends are not known yet.
    pub fn new(id: u128, label: Option<Label>, src: u128, dst: u128, properties: DynDetails) -> (e:
        Self)
        ensures
            e@ == (EdgeView {
                id,
                src_id: src,
                dst_id: dst,
                label,
                src_label: None,
                dst_label: None,
                properties,
            }),
    {
        Edge { id, label, src_id: src, dst_id: dst, src_label: None, dst_label: None, properties }
    }

    /// Records the label of the source vertex; nothing else changes.
    pub fn set_src_label(&mut self, label: Label)
        ensures
            final(self)@ == (EdgeView { src_label: Some(label), ..old(self)@ }),
    {
        self.src_label = Some(label);
    }

    /// Records the label of the destination vertex; nothing else changes.
    pub fn set_dst_label(&mut self, label: Label)
        ensures
            final(self)@ == (EdgeView { dst_label: Some(label), ..old(self)@ }),
    {
        self.dst_label = Some(label);
    }

    /// The vertex the edge leaves.
    pub fn src_id(&self) -> (id: ID)
        ensures
            id == self@.src_id,
    {
        self.src_id
    }

    /// The vertex the edge enters.
    pub fn dst_id(&self) -> (id: ID)
        ensures
            id == self@.dst_id,
    {
        self.dst_id
    }

    /// The label set on the edge directly, if one was.
    pub fn own_label(&self) -> (l: &Option<Label>)
        ensures
            *l == self@.label,
    {
        &self.label
    }

    /// The label of the source vertex, if it was set.
    pub fn get_src_label(&self) -> (res: Option<&Label>)
        ensures
            match res {
                Some(l) => self@.src_label == Some(*l),
                None => self@.src_label is None,
            },
    {
        self.src_label.as_ref()
    }

    /// The label of the destination vertex, if it was set.
    pub fn get_dst_label(&self) -> (res: Option<&Label>)
        ensures
            match res {
                Some(l) => self@.dst_label == Some(*l),
                None => self@.dst_label is None,
            },
    {
        self.dst_label.as_ref()
    }
}

impl Element for Edge {
    open spec fn element_id(&self) -> ID {
        self@.id
    }

    open spec fn element_label(&self) -> Option<Label> {
        match self@.label {
            Some(l) => Some(l),
            None => self@.properties.label_of(),
        }
    }

    open spec fn element_details(&self) -> DynDetails {
        self@.properties
    }

    fn id(&self) -> (id: ID) {
        self.id
    }

    fn has_label(&self) -> (b: bool) {
        self.label.is_some() || self.properties.get_label().is_some()
    }

    fn label(&self) -> (l: &Label) {
        if let Some(ref s) = self.label {
            s
        } else {
            self.properties.get_label().unwrap()
        }
    }

    fn details(&self) -> (d: &DynDetails) {
        &self.properties
    }
}

impl Clone for Edge {
    fn clone(&self) -> (res: Edge)
        ensures
            res == *self,
    {
        Edge {
            id: self.id,
            src_id: self.src_id,
            dst_id: self.dst_id,
            label: clone_label(&self.label),
            src_label: clone_label(&self.src_label),
            dst_label: clone_label(&self.dst_label),
            properties: self.properties.clone(),
        }
    }
}

} // verus!
