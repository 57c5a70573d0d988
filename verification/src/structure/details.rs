//! Property access without a schema fixed in advance.

use crate::object::Object;
use crate::sharing::share;
use crate::structure::label::{clone_label, Label};
use std::sync::Arc;
use vstd::prelude::*;

verus! {

/// One property of an element.
#[derive(Debug, PartialEq)]
pub struct Property {
    pub key: String,
    pub value: Object,
}

/// The value of the first property from position `start` on whose key reads
/// `key`, if there is one.
pub open spec fn lookup_from(props: Seq<Property>, key: Seq<char>, start: int) -> Option<Object>
    decreases props.len() - start,
{
    if start < 0 || start >= props.len() {
        None
    } else if props[start].key@ == key {
        Some(props[start].value)
    } else {
        lookup_from(props, key, start + 1)
    }
}

/// The value of the first property whose key reads `key`, if there is one.
pub open spec fn lookup(props: Seq<Property>, key: Seq<char>) -> Option<Object> {
    lookup_from(props, key, 0)
}

/// What an element offers to those who ask for its properties.
pub trait Details {
    /// The label recorded with the properties, if one was.
    spec fn label_of(&self) -> Option<Label>;

    /// The value held under `key`, if any.
    spec fn value_of(&self, key: Seq<char>) -> Option<Object>;

    /// Looks a property up by its key.
    fn get(&self, key: &String) -> (res: Option<&Object>)
        ensures
            match res {
                Some(o) => self.value_of(key@) == Some(*o),
                None => self.value_of(key@) is None,
            },
    ;

    /// The label recorded with the properties.
    fn get_label(&self) -> (res: Option<&Label>)
        ensures
            match res {
                Some(l) => self.label_of() == Some(*l),
                None => self.label_of() is None,
            },
    ;
}

/// Properties held in memory, in the order they were given. Clones share the
/// properties.
#[derive(Debug, PartialEq)]
pub struct DynDetails {
    label: Option<Label>,
    properties: Arc<Vec<Property>>,
}

impl DynDetails {
    /// The properties, in order.
    pub closed spec fn properties(self) -> Seq<Property> {
        self.properties@
    }

    /// The label recorded with the properties.
    pub closed spec fn label(self) -> Option<Label> {
        self.label
    }

    /// Details with the given label and properties.
    pub fn new(label: Option<Label>, properties: Vec<Property>) -> (d: DynDetails)
        ensures
            d.label() == label,
            d.properties() == properties@,
    {
        DynDetails { label, properties: Arc::new(properties) }
    }

    /// Details that hold nothing.
    pub fn empty() -> (d: DynDetails)
        ensures
            d.label() is None,
            d.properties().len() == 0,
    {
        DynDetails { label: None, properties: Arc::new(Vec::new()) }
    }
}

impl Details for DynDetails {
    closed spec fn label_of(&self) -> Option<Label> {
        self.label
    }

    closed spec fn value_of(&self, key: Seq<char>) -> Option<Object> {
        lookup(self.properties@, key)
    }

    fn get(&self, key: &String) -> (res: Option<&Object>) {
        let n = self.properties.len();
        let mut i: usize = 0;
        while i < n
            invariant
                n == self.properties@.len(),
                i <= n,
                lookup(self.properties@, key@) == lookup_from(self.properties@, key@, i as int),
            decreases n - i,
        {
            if self.properties[i].key == *key {
                return Some(&self.properties[i].value);
            }
            i += 1;
        }
        None
    }

    fn get_label(&self) -> (res: Option<&Label>) {
        self.label.as_ref()
    }
}

impl DynDetails {
    /// The accessor's answers are those of the data it was built from.
    pub proof fn lemma_answers(self, key: Seq<char>)
        ensures
            self.label_of() == self.label(),
            self.value_of(key) == lookup(self.properties(), key),
    {
    }
}

impl Clone for DynDetails {
    fn clone(&self) -> (res: DynDetails)
        ensures
            res == *self,
    {
        DynDetails { label: clone_label(&self.label), properties: share(&self.properties) }
    }
}

} // verus!
