//! The unit of work that flows through the dataflow.

use crate::object::Object;
use crate::path::PathItem;
use crate::structure::element::GraphElement;
use vstd::prelude::*;

verus! {

/// What a traverser holds: a graph element or a value, never both and never
/// neither.
#[derive(Debug, PartialEq)]
pub enum Carried {
    Element(GraphElement),
    Object(Object),
}

/// A value bound to a tag.
#[derive(Debug, PartialEq)]
pub struct TagBinding {
    pub tag: String,
    pub value: PathItem,
}

/// A traverser as contracts see it.
pub struct TraverserView {
    pub carried: Carried,
    pub tags: Seq<TagBinding>,
    pub path: Option<Seq<PathItem>>,
}

/// The state of one record on its way through a traversal: what it holds now,
/// what was bound to tags on the way, and the path it took where paths are
/// tracked.
#[derive(Debug, PartialEq)]
pub struct Traverser {
    carried: Carried,
    tags: Vec<TagBinding>,
    path: Option<Vec<PathItem>>,
}

impl View for Traverser {
    type V = TraverserView;

    closed spec fn view(&self) -> TraverserView {
        TraverserView {
            carried: self.carried,
            tags: self.tags@,
            path: match self.path {
                Some(p) => Some(p@),
                None => None,
            },
        }
    }
}


impl Clone for TagBinding {
    fn clone(&self) -> (res: TagBinding)
        ensures
            res == *self,
    {
        TagBinding { tag: self.tag.clone(), value: self.value.clone() }
    }
}

/// A copy of a path, step by step.
fn clone_path(path: &Vec<PathItem>) -> (res: Vec<PathItem>)
    ensures
        res@ == path@,
{
    let mut res: Vec<PathItem> = Vec::new();
    let n = path.len();
    let mut i: usize = 0;
    while i < n
        invariant
            n == path@.len(),
            i <= n,
            res@ == path@.take(i as int),
        decreases n - i,
    {
        res.push(path[i].clone());
        assert(res@ =~= path@.take(i + 1));
        i += 1;
    }
    assert(path@.take(n as int) =~= path@);
    res
}

/// The value bound to `tag` last, if any was.
pub open spec fn bound_to(tags: Seq<TagBinding>, tag: Seq<char>) -> Option<PathItem>
    decreases tags.len(),
{
    if tags.len() == 0 {
        None
    } else if tags.last().tag@ == tag {
        Some(tags.last().value)
    } else {
        bound_to(tags.drop_last(), tag)
    }
}

impl Traverser {
    /// A traverser that holds a graph element, with no tags and no path.
    pub fn new(element: GraphElement) -> (t: Traverser)
        ensures
            t@ == (TraverserView {
                carried: Carried::Element(element),
                tags: Seq::empty(),
                path: None,
            }),
    {
        Traverser { carried: Carried::Element(element), tags: Vec::new(), path: None }
    }

    /// A traverser that holds a value, with no tags and no path.
    pub fn with_object(object: Object) -> (t: Traverser)
        ensures
            t@ == (TraverserView {
                carried: Carried::Object(object),
                tags: Seq::empty(),
                path: None,
            }),
    {
        Traverser { carried: Carried::Object(object), tags: Vec::new(), path: None }
    }

    /// The element held, if an element is held.
    pub fn get_element(&self) -> (res: Option<&GraphElement>)
        ensures
            match res {
                Some(g) => self@.carried == Carried::Element(*g),
                None => self@.carried is Object,
            },
    {
        match &self.carried {
            Carried::Element(g) => Some(g),
            Carried::Object(_) => None,
        }
    }

    /// The value held, if a value is held.
    pub fn get_object(&self) -> (res: Option<&Object>)
        ensures
            match res {
                Some(o) => self@.carried == Carried::Object(*o),
                None => self@.carried is Element,
            },
    {
        match &self.carried {
            Carried::Element(_) => None,
            Carried::Object(o) => Some(o),
        }
    }

    /// The element held, for changing it in place. Only what is held changes.
    pub fn get_element_mut(&mut self) -> (res: Option<&mut GraphElement>)
        ensures
            match res {
                Some(g) => old(self)@.carried == Carried::Element(*g) && final(self)@ == (
                TraverserView { carried: Carried::Element(*final(g)), ..old(self)@ }),
                None => old(self)@.carried is Object && final(self)@ == old(self)@,
            },
    {
        match &mut self.carried {
            Carried::Element(g) => Some(g),
            Carried::Object(_) => None,
        }
    }

    /// Binds `value` to `tag`. An earlier binding of the tag is shadowed.
    pub fn set_tag(&mut self, tag: String, value: PathItem)
        ensures
            final(self)@ == (TraverserView {
                tags: old(self)@.tags.push(TagBinding { tag, value }),
                ..old(self)@
            }),
    {
        self.tags.push(TagBinding { tag, value });
    }

    /// The value bound to `tag` last, if any was.
    pub fn get_tag(&self, tag: &String) -> (res: Option<&PathItem>)
        ensures
            match res {
                Some(v) => bound_to(self@.tags, tag@) == Some(*v),
                None => bound_to(self@.tags, tag@) is None,
            },
    {
        let mut i: usize = self.tags.len();
        assert(self.tags@.take(i as int) =~= self.tags@);
        while i > 0
            invariant
                i <= self.tags@.len(),
                bound_to(self.tags@, tag@) == bound_to(self.tags@.take(i as int), tag@),
            decreases i,
        {
            i -= 1;
            assert(self.tags@.take(i + 1).drop_last() =~= self.tags@.take(i as int));
            if self.tags[i].tag == *tag {
                return Some(&self.tags[i].value);
            }
        }
        assert(self.tags@.take(0).len() == 0);
        None
    }

    /// Starts the path history, empty, unless one is kept already.
    pub fn track_path(&mut self)
        ensures
            final(self)@ == (TraverserView {
                path: match old(self)@.path {
                    Some(p) => Some(p),
                    None => Some(Seq::empty()),
                },
                ..old(self)@
            }),
    {
        if self.path.is_none() {
            self.path = Some(Vec::new());
        }
    }

    /// Appends a step to the path history where one is kept; does nothing
    /// where none is.
    pub fn record(&mut self, item: PathItem)
        ensures
            final(self)@ == (TraverserView {
                path: match old(self)@.path {
                    Some(p) => Some(p.push(item)),
                    None => None,
                },
                ..old(self)@
            }),
    {
        match &mut self.path {
            Some(p) => {
                p.push(item);
            },
            None => {},
        }
    }

    /// The path history, where one is kept.
    pub fn get_path(&self) -> (res: Option<&Vec<PathItem>>)
        ensures
            match res {
                Some(p) => self@.path == Some(p@),
                None => self@.path is None,
            },
    {
        self.path.as_ref()
    }
}

impl Clone for Traverser {
    /// The copy holds what the traverser holds, with the same tag bindings
    /// and the same path. Tag bindings and path are copied; payloads that
    /// are shared stay shared.
    fn clone(&self) -> (res: Traverser)
        ensures
            res@ == self@,
    {
        let carried = match &self.carried {
            Carried::Element(g) => Carried::Element(g.clone()),
            Carried::Object(o) => Carried::Object(o.clone()),
        };
        let mut tags: Vec<TagBinding> = Vec::new();
        let n = self.tags.len();
        let mut i: usize = 0;
        while i < n
            invariant
                n == self.tags@.len(),
                i <= n,
                tags@ == self.tags@.take(i as int),
            decreases n - i,
        {
            tags.push(self.tags[i].clone());
            assert(tags@ =~= self.tags@.take(i + 1));
            i += 1;
        }
        assert(self.tags@.take(n as int) =~= self.tags@);
        let path = match &self.path {
            Some(p) => Some(clone_path(p)),
            None => None,
        };
        Traverser { carried, tags, path }
    }
}

} // verus!
