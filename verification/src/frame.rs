//! The pool of physical page frames.

use vstd::prelude::*;

verus! {

/// A pool of physical page frames, named by their page numbers.
///
/// Frames between `current` and `end` have never been handed out; frames in
/// `recycled` were handed out and given back.
pub struct FrameAllocator {
    current: usize,
    end: usize,
    recycled: Vec<usize>,
}

impl FrameAllocator {
    /// The internal invariant: the fresh range is well formed and every
    /// recycled frame lies below it, once.
    pub closed spec fn wf(&self) -> bool {
        &&& self.current <= self.end
        &&& self.end <= usize::MAX / 4096 + 1
        &&& self.recycled@.no_duplicates()
        &&& forall|i: int| 0 <= i < self.recycled@.len() ==> self.recycled@[i] < self.current
    }

    /// Whether frame `ppn` is in the pool, ready to be handed out.
    pub closed spec fn is_free(&self, ppn: usize) -> bool {
        self.current <= ppn < self.end || self.recycled@.contains(ppn)
    }

    /// Whether frame `ppn` is out of the pool, in some holder's hands.
    pub closed spec fn is_allocated(&self, ppn: usize) -> bool {
        ppn < self.current && !self.recycled@.contains(ppn)
    }

    /// The frame that is handed out next, if the pool is not empty: the
    /// one most recently given back, or else the lowest that was never handed
    /// out.
    pub closed spec fn next_frame(&self) -> usize {
        if self.recycled@.len() > 0 {
            self.recycled@.last()
        } else {
            self.current
        }
    }

    /// How many frames are in the pool.
    pub closed spec fn free_count(&self) -> nat {
        (self.end - self.current + self.recycled@.len()) as nat
    }

    /// A pool of the frames `start..end`, all of them free.
    pub fn new(start: usize, end: usize) -> (pool: FrameAllocator)
        requires
            start <= end <= usize::MAX / 4096 + 1,
        ensures
            pool.wf(),
            pool.next_frame() == start,
            pool.free_count() == end - start,
            forall|p: usize| pool.is_free(p) <==> start <= p < end,
            forall|p: usize| pool.is_allocated(p) <==> p < start,
    {
        FrameAllocator { current: start, end, recycled: Vec::new() }
    }

    /// No frame is both free and allocated.
    pub proof fn free_is_not_allocated(&self, ppn: usize)
        requires
            self.wf(),
        ensures
            !(self.is_free(ppn) && self.is_allocated(ppn)),
    {
    }

    /// A frame of the pool numbers a page of physical memory, so its
    /// address fits the machine word.
    pub proof fn allocated_is_a_page(&self, ppn: usize)
        requires
            self.wf(),
            self.is_free(ppn) || self.is_allocated(ppn),
        ensures
            ppn <= usize::MAX / 4096,
    {
        if self.recycled@.contains(ppn) {
            let j = choose|j: int| 0 <= j < self.recycled@.len() && self.recycled@[j] == ppn;
            assert(self.recycled@[j] < self.current);
        }
    }

    /// Whether the pool holds at least `n` frames.
    pub fn has_free(&self, n: usize) -> (r: bool)
        requires
            self.wf(),
        ensures
            r == (n <= self.free_count()),
    {
        let fresh: usize = self.end - self.current;
        if n <= fresh {
            true
        } else {
            n - fresh <= self.recycled.len()
        }
    }

    /// Takes the next frame out of the pool; `None` if the pool is empty.
    pub fn frame_alloc(&mut self) -> (frame: Option<usize>)
        requires
            old(self).wf(),
        ensures
            final(self).wf(),
            frame is None <==> old(self).free_count() == 0,
            frame is None ==> *final(self) == *old(self),
            frame matches Some(p) ==> {
                &&& p == old(self).next_frame()
                &&& old(self).is_free(p)
                &&& !old(self).is_allocated(p)
                &&& final(self).is_allocated(p)
                &&& !final(self).is_free(p)
                &&& final(self).free_count() == old(self).free_count() - 1
                &&& forall|q: usize| q != p ==> final(self).is_free(q) == old(self).is_free(q)
                &&& forall|q: usize|
                    q != p ==> final(self).is_allocated(q) == old(self).is_allocated(q)
            },
    {
        let n: usize = self.recycled.len();
        if n > 0 {
            let ghost before = self.recycled@;
            let p: usize = self.recycled[n - 1];
            self.recycled.truncate(n - 1);
            proof {
                assert(self.recycled@ =~= before.take(n - 1));
                assert(before[n - 1] == p);
                assert(before.contains(p));
                assert(!self.recycled@.contains(p)) by {
                    if self.recycled@.contains(p) {
                        let j = choose|j: int| 0 <= j < self.recycled@.len() && self.recycled@[j] == p;
                        assert(before[j] == p);
                    }
                }
                assert forall|q: usize| q != p implies self.recycled@.contains(q)
                    == before.contains(q) by {
                    if before.contains(q) {
                        let j = choose|j: int| 0 <= j < before.len() && before[j] == q;
                        assert(self.recycled@[j] == q);
                    }
                    if self.recycled@.contains(q) {
                        let j = choose|j: int| 0 <= j < self.recycled@.len() && self.recycled@[j] == q;
                        assert(before[j] == q);
                    }
                }
            }
            Some(p)
        } else if self.current < self.end {
            let p: usize = self.current;
            self.current = p + 1;
            assert(self.recycled@ =~= Seq::<usize>::empty());
            Some(p)
        } else {
            None
        }
    }

    /// Gives frame `ppn` back to the pool.
    pub fn frame_dealloc(&mut self, ppn: usize)
        requires
            old(self).wf(),
            old(self).is_allocated(ppn),
        ensures
            final(self).wf(),
            final(self).next_frame() == ppn,
            final(self).is_free(ppn),
            !final(self).is_allocated(ppn),
            final(self).free_count() == old(self).free_count() + 1,
            forall|q: usize| q != ppn ==> final(self).is_free(q) == old(self).is_free(q),
            forall|q: usize| q != ppn ==> final(self).is_allocated(q) == old(self).is_allocated(q),
    {
        let ghost before = self.recycled@;
        self.recycled.push(ppn);
        proof {
            assert(self.recycled@ =~= before.push(ppn));
            assert(self.recycled@[before.len() as int] == ppn);
            assert forall|q: usize| q != ppn implies self.recycled@.contains(q)
                == before.contains(q) by {
                if before.contains(q) {
                    let j = choose|j: int| 0 <= j < before.len() && before[j] == q;
                    assert(self.recycled@[j] == q);
                }
            }
        }
    }
}

} // verus!
