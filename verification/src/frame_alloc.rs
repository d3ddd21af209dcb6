//! Physical frame accounting: the pool of free frames, and the reference
//! counts of frames shared under copy-on-write.

use vstd::prelude::*;
use crate::error::MemoryError;
use crate::keymap::KeyMap;

verus! {

/// Owns the pool of free physical frames, as a stack of frame numbers. Its
/// view is the free list itself, so a caller's contract can speak of exactly
/// which frames enter and leave the pool, not only of how many.
pub struct FrameAllocator {
    free: Vec<usize>,
}

impl View for FrameAllocator {
    type V = Seq<usize>;

    closed spec fn view(&self) -> Seq<usize> {
        self.free@
    }
}

impl FrameAllocator {
    /// An allocator with no free frames; frames are handed to it with
    /// `add_frame`.
    pub fn new() -> (r: Self)
        ensures
            r@ == Seq::<usize>::empty(),
    {
        FrameAllocator { free: Vec::new() }
    }

    /// Put one frame into the free pool.
    pub fn add_frame(&mut self, f: usize)
        ensures
            final(self)@ == old(self)@.push(f),
    {
        self.free.push(f);
    }

    /// How many frames are free.
    pub fn free_count(&self) -> (r: usize)
        ensures
            r == self@.len(),
    {
        self.free.len()
    }

    /// Take one frame out of the free pool; fails, rather than aborting,
    /// when the pool is exhausted.
    pub fn allocate(&mut self) -> (r: Result<usize, MemoryError>)
        ensures
            old(self)@.len() > 0 ==> r == Ok::<usize, MemoryError>(old(self)@.last())
                && final(self)@ == old(self)@.drop_last(),
            old(self)@.len() == 0 ==> r == Err::<usize, MemoryError>(MemoryError::NoFramesAvailable)
                && final(self)@ == old(self)@,
    {
        match self.free.pop() {
            Some(f) => {
                proof {
                    assert(self@ =~= old(self)@.drop_last());
                }
                Ok(f)
            },
            None => Err(MemoryError::NoFramesAvailable),
        }
    }

    /// Return one frame to the free pool.
    pub fn free(&mut self, f: usize)
        ensures
            final(self)@ == old(self)@.push(f),
    {
        self.free.push(f);
    }
}

/// How many handlers currently share each frame that is under copy-on-write
/// ownership. A frame outside the map is not under copy-on-write sharing.
pub struct RefCounts {
    counts: KeyMap<usize>,
}

impl View for RefCounts {
    type V = Map<usize, usize>;

    closed spec fn view(&self) -> Map<usize, usize> {
        self.counts@
    }
}

impl RefCounts {
    /// No frame is shared.
    pub fn new() -> (r: Self)
        ensures
            r@ == Map::<usize, usize>::empty(),
    {
        RefCounts { counts: KeyMap::new() }
    }

    /// The count recorded for a frame; zero for a frame not under sharing.
    pub fn count(&self, f: usize) -> (r: usize)
        ensures
            r == if self@.contains_key(f) {
                self@[f]
            } else {
                0usize
            },
    {
        match self.counts.get(f) {
            Some(c) => c,
            None => 0,
        }
    }

    /// Record a count for a frame, entering it into sharing bookkeeping.
    pub fn set_count(&mut self, f: usize, n: usize)
        ensures
            final(self)@ == old(self)@.insert(f, n),
    {
        self.counts.set_value(f, n);
    }

    /// One more owner of an already-tracked frame.
    pub fn inc(&mut self, f: usize)
        requires
            old(self)@.contains_key(f),
            old(self)@[f] < usize::MAX,
        ensures
            final(self)@ == old(self)@.insert(f, (old(self)@[f] + 1) as usize),
    {
        match self.counts.get(f) {
            Some(c) => self.counts.set_value(f, c + 1),
            None => {
                proof {
                    assert(false);
                }
            },
        }
    }

    /// One owner fewer: the frame leaves the bookkeeping when its last owner
    /// lets go of it.
    pub fn dec_or_remove(&mut self, f: usize)
        requires
            old(self)@.contains_key(f),
            old(self)@[f] >= 1,
        ensures
            old(self)@[f] == 1 ==> final(self)@ == old(self)@.remove(f),
            old(self)@[f] > 1 ==> final(self)@ == old(self)@.insert(
                f,
                (old(self)@[f] - 1) as usize,
            ),
    {
        match self.counts.get(f) {
            Some(c) => {
                if c == 1 {
                    self.counts.remove(f);
                } else {
                    self.counts.set_value(f, c - 1);
                }
            },
            None => {
                proof {
                    assert(false);
                }
            },
        }
    }
}

} // verus!
