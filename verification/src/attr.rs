//! Permission and cacheability bits that a mapping must carry.

use vstd::prelude::*;

verus! {

/// Cacheability of a mapping, for strategies that care about it.
#[derive(Clone, Copy, Debug, PartialEq, Eq)]
pub enum CachePolicy {
    WriteBack,
    WriteThrough,
    Uncached,
}

/// An immutable value describing the permission and cacheability bits a
/// mapping must carry. Attributes are applied to a page-table entry whole;
/// changing a mapping's attributes means applying a new value.
#[derive(Clone, Copy, Debug, PartialEq, Eq)]
pub struct MemoryAttr {
    pub readable: bool,
    pub writable: bool,
    pub executable: bool,
    pub user: bool,
    pub cache: Option<CachePolicy>,
}

impl MemoryAttr {
    /// The same attribute with write permission withdrawn.
    pub open spec fn spec_read_only(self) -> MemoryAttr {
        MemoryAttr { writable: false, ..self }
    }

    /// The same attribute with write permission withdrawn.
    pub fn read_only(self) -> (r: MemoryAttr)
        ensures
            r == self.spec_read_only(),
    {
        MemoryAttr { writable: false, ..self }
    }
}

} // verus!
