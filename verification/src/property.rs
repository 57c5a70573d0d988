//! Properties picked out of the elements bound to tags.

use crate::structure::details::Property;
use vstd::prelude::*;

verus! {

/// The properties picked for one tag.
#[derive(Debug, PartialEq)]
pub struct TagEntry {
    pub tag: String,
    pub props: Vec<Property>,
}

/// For each tag the properties picked for it, in the order the tags were
/// added.
#[derive(Debug, PartialEq)]
pub struct ResultProperty {
    pub properties: Vec<TagEntry>,
}

/// The place of the first entry from `start` on that has the tag, if there
/// is one.
pub open spec fn entry_from(entries: Seq<TagEntry>, tag: Seq<char>, start: int) -> Option<int>
    decreases entries.len() - start,
{
    if start < 0 || start >= entries.len() {
        None
    } else if entries[start].tag@ == tag {
        Some(start)
    } else {
        entry_from(entries, tag, start + 1)
    }
}

/// The entries after `props` were picked for `tag`: they take the place of
/// what was picked for the tag before, or stand behind the others if nothing
/// was.
pub open spec fn with_entry(entries: Seq<TagEntry>, tag: String, props: Vec<Property>) -> Seq<
    TagEntry,
> {
    match entry_from(entries, tag@, 0) {
        Some(p) => entries.update(p, TagEntry { tag: entries[p].tag, props }),
        None => entries.push(TagEntry { tag, props }),
    }
}

impl ResultProperty {
    /// A bag without entries.
    pub fn new() -> (bag: ResultProperty)
        ensures
            bag.properties@.len() == 0,
    {
        ResultProperty { properties: Vec::new() }
    }

    /// Puts what was picked for `tag` into the bag, in place of what was
    /// picked for the tag before if anything was.
    pub fn insert(&mut self, tag: String, props: Vec<Property>)
        ensures
            final(self).properties@ == with_entry(old(self).properties@, tag, props),
    {
        let ghost before = self.properties@;
        let n = self.properties.len();
        let mut i: usize = 0;
        while i < n
            invariant
                n == self.properties@.len(),
                i <= n,
                self.properties@ == before,
                before == old(self).properties@,
                entry_from(before, tag@, 0) == entry_from(before, tag@, i as int),
            decreases n - i,
        {
            if self.properties[i].tag == tag {
                self.properties[i].props = props;
                assert(self.properties@ =~= with_entry(before, tag, props));
                return ;
            }
            i += 1;
        }
        self.properties.push(TagEntry { tag, props });
    }

    /// What was picked for `tag`, if anything was.
    pub fn get(&self, tag: &String) -> (res: Option<&Vec<Property>>)
        ensures
            match res {
                Some(props) => entry_from(self.properties@, tag@, 0) matches Some(p)
                    && self.properties@[p].props == *props,
                None => entry_from(self.properties@, tag@, 0) is None,
            },
    {
        let n = self.properties.len();
        let mut i: usize = 0;
        while i < n
            invariant
                n == self.properties@.len(),
                i <= n,
                entry_from(self.properties@, tag@, 0) == entry_from(self.properties@, tag@, i as int),
            decreases n - i,
        {
            if self.properties[i].tag == *tag {
                return Some(&self.properties[i].props);
            }
            i += 1;
        }
        None
    }
}

} // verus!
