//! The per-page mapping structure from virtual page to physical frame and
//! attribute bits. Addresses are page-granular: one `usize` names one page.

use vstd::prelude::*;
use crate::attr::MemoryAttr;
use crate::keymap::KeyMap;

verus! {

/// One page-table entry: the backing frame, if any, and the attribute bits.
/// An entry with no frame is installed but not present — a lazily-allocated
/// page before its first touch.
#[derive(Clone, Copy, Debug, PartialEq, Eq)]
pub struct PageTableEntry {
    pub frame: Option<usize>,
    pub attr: MemoryAttr,
}

impl PageTableEntry {
    /// Whether the entry is backed by a frame and so present to the hardware.
    pub fn present(&self) -> (r: bool)
        ensures
            r == (self.frame is Some),
    {
        match self.frame {
            Some(_) => true,
            None => false,
        }
    }
}

/// The mapping structure a handler writes into. Its view is the map from
/// virtual page to entry.
pub struct PageTable {
    entries: KeyMap<PageTableEntry>,
}

impl View for PageTable {
    type V = Map<usize, PageTableEntry>;

    closed spec fn view(&self) -> Map<usize, PageTableEntry> {
        self.entries@
    }
}

impl PageTable {
    /// An empty page table.
    pub fn new() -> (r: Self)
        ensures
            r@ == Map::<usize, PageTableEntry>::empty(),
    {
        PageTable { entries: KeyMap::new() }
    }

    /// Whether a page has an entry.
    pub fn contains(&self, addr: usize) -> (r: bool)
        ensures
            r == self@.contains_key(addr),
    {
        self.entries.contains(addr)
    }

    /// The entry of a page, if it has one.
    pub fn lookup(&self, addr: usize) -> (r: Option<PageTableEntry>)
        ensures
            match r {
                Some(e) => self@.contains_key(addr) && e == self@[addr],
                None => !self@.contains_key(addr),
            },
    {
        self.entries.get(addr)
    }

    /// Install an entry for a page that has none.
    pub fn install(&mut self, addr: usize, frame: Option<usize>, attr: MemoryAttr)
        requires
            !old(self)@.contains_key(addr),
        ensures
            final(self)@ == old(self)@.insert(addr, (PageTableEntry { frame, attr })),
    {
        self.entries.insert(addr, PageTableEntry { frame, attr });
    }

    /// Replace the entry of a page that has one.
    pub fn update(&mut self, addr: usize, frame: Option<usize>, attr: MemoryAttr)
        requires
            old(self)@.contains_key(addr),
        ensures
            final(self)@ == old(self)@.insert(addr, (PageTableEntry { frame, attr })),
    {
        self.entries.set_value(addr, PageTableEntry { frame, attr });
    }

    /// Remove the entry of a page.
    pub fn remove_mapping(&mut self, addr: usize)
        requires
            old(self)@.contains_key(addr),
        ensures
            final(self)@ == old(self)@.remove(addr),
    {
        self.entries.remove(addr);
    }
}

} // verus!
