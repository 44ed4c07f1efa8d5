//! Address spaces: ordered sets of mapped areas over the frame pool.

use crate::frame::FrameAllocator;
use crate::perm::MapPermission;
use crate::perm::perm_of_prot;
use crate::perm::prot_of_bits;
use vstd::prelude::*;

verus! {

/// The page that holds address `addr`.
pub open spec fn page_floor(addr: int) -> int {
    addr / 4096
}

/// The first page at or after address `addr`.
pub open spec fn page_ceil(addr: int) -> int {
    (addr + 4095) / 4096
}

/// The page of the trampoline: the last page of the address range.
pub open spec fn trampoline_vpn() -> int {
    usize::MAX as int / 4096
}

/// The offset of `addr` inside its page.
pub fn page_offset(addr: usize) -> (off: usize)
    ensures
        off == addr % 4096,
{
    addr % 4096
}

/// The number of the page that holds `addr`.
pub fn floor_page(addr: usize) -> (vpn: usize)
    ensures
        vpn == page_floor(addr as int),
{
    addr / 4096
}

/// The number of the first page at or after `addr`.
pub fn ceil_page(addr: usize) -> (vpn: usize)
    ensures
        vpn == page_ceil(addr as int),
        vpn <= trampoline_vpn() + 1,
{
    let base: usize = addr / 4096;
    if addr % 4096 == 0 {
        base
    } else {
        base + 1
    }
}

/// How the pages of an area find their frames.
#[derive(Clone, Copy, Debug, PartialEq, Eq, Structural)]
pub enum MapType {
    /// Each page is its own frame: kernel memory seen at its physical address.
    Identical,
    /// Each page has a frame of its own, taken from the pool.
    Framed,
}

/// What a page is mapped to.
#[derive(Clone, Copy, Debug, PartialEq, Eq, Structural)]
pub struct PageTableEntry {
    pub ppn: usize,
    pub perm: MapPermission,
}

/// A run of virtual pages `start_vpn..end_vpn` mapped in one way with one
/// permission set. A framed area lists the frame of each page, in order.
#[derive(Debug)]
pub struct MapArea {
    pub start_vpn: usize,
    pub end_vpn: usize,
    pub map_type: MapType,
    pub perm: MapPermission,
    pub frames: Vec<usize>,
}

impl MapArea {
    /// The area's pages are in order, and a framed area has exactly one
    /// frame per page, none twice.
    pub open spec fn wf(&self) -> bool {
        &&& self.start_vpn <= self.end_vpn
        &&& self.frames@.no_duplicates()
        &&& self.map_type == MapType::Framed ==> self.frames@.len() == self.end_vpn - self.start_vpn
        &&& self.map_type == MapType::Identical ==> self.frames@.len() == 0
    }

    /// Whether page `vpn` lies in the area.
    pub open spec fn covers(&self, vpn: int) -> bool {
        self.start_vpn <= vpn < self.end_vpn
    }

    /// Whether the area shares a page with `start..end`.
    pub open spec fn overlaps(&self, start: int, end: int) -> bool {
        self.start_vpn < end && start < self.end_vpn
    }

    /// Whether frame `ppn` backs a page of the area.
    pub open spec fn holds(&self, ppn: usize) -> bool {
        self.frames@.contains(ppn)
    }

    /// What page `vpn` of the area is mapped to.
    pub open spec fn entry(&self, vpn: int) -> PageTableEntry {
        PageTableEntry {
            ppn: match self.map_type {
                MapType::Identical => vpn as usize,
                MapType::Framed => self.frames@[vpn - self.start_vpn],
            },
            perm: self.perm,
        }
    }

    /// Whether the area is a trap-context page: the one page just below the
    /// trampoline, on a frame of its own, for the kernel to read and write.
    pub open spec fn is_trap_context(&self) -> bool {
        &&& self.start_vpn == trampoline_vpn() - 1
        &&& self.end_vpn == trampoline_vpn()
        &&& self.map_type == MapType::Framed
        &&& self.perm == (MapPermission { r: true, w: true, x: false, u: false })
    }

    /// Whether a user may ask for this very area to be unmapped: it is
    /// framed, open to user mode, and spans exactly `start..end`.
    pub open spec fn unmappable_as(&self, start: int, end: int) -> bool {
        &&& self.map_type == MapType::Framed
        &&& self.perm.u
        &&& self.start_vpn == start
        &&& self.end_vpn == end
    }

    /// Whether the bytes `start..end` all lie in pages of this area and a
    /// user may read them.
    pub open spec fn user_readable(&self, start: int, end: int) -> bool {
        &&& self.perm.u
        &&& self.perm.r
        &&& start <= end
        &&& self.start_vpn * 4096 <= start
        &&& end <= self.end_vpn * 4096
    }
}

/// The mapping of the trampoline page: readable and executable, kernel only.
pub open spec fn trampoline_entry(ppn: usize) -> PageTableEntry {
    PageTableEntry { ppn, perm: MapPermission { r: true, w: false, x: true, u: false } }
}

/// Gives every frame of `frames` back to the pool.
fn give_back(frames: &Vec<usize>, pool: &mut FrameAllocator)
    requires
        old(pool).wf(),
        frames@.no_duplicates(),
        forall|j: int| 0 <= j < frames@.len() ==> old(pool).is_allocated(#[trigger] frames@[j]),
    ensures
        final(pool).wf(),
        final(pool).free_count() == old(pool).free_count() + frames@.len(),
        forall|q: usize|
            #[trigger] final(pool).is_free(q) == (old(pool).is_free(q) || frames@.contains(q)),
        forall|q: usize|
            #[trigger] final(pool).is_allocated(q) == (old(pool).is_allocated(q)
                && !frames@.contains(q)),
{
    let ghost pool0 = *pool;
    let total: usize = frames.len();
    let mut k: usize = 0;
    while k < total
        invariant
            k <= total,
            total == frames@.len(),
            frames@.no_duplicates(),
            pool.wf(),
            pool.free_count() == pool0.free_count() + k,
            forall|j: int| k <= j < total ==> pool.is_allocated(#[trigger] frames@[j]),
            forall|q: usize|
                #[trigger] pool.is_free(q) == (pool0.is_free(q) || frames@.take(k as int).contains(
                    q,
                )),
            forall|q: usize|
                #[trigger] pool.is_allocated(q) == (pool0.is_allocated(q) && !frames@.take(
                    k as int,
                ).contains(q)),
        decreases total - k,
    {
        let p: usize = frames[k];
        let ghost done = frames@.take(k as int);
        pool.frame_dealloc(p);
        proof {
            let next = frames@.take(k + 1);
            assert(next =~= done.push(p));
            assert(next[k as int] == p);
            assert forall|q: usize| next.contains(q) == (done.contains(q) || q == p) by {
                if done.contains(q) {
                    let j = choose|j: int| 0 <= j < done.len() && done[j] == q;
                    assert(next[j] == q);
                }
            }
            assert(!done.contains(p)) by {
                if done.contains(p) {
                    let j = choose|j: int| 0 <= j < done.len() && done[j] == p;
                    assert(frames@[j] == p);
                }
            }
        }
        k += 1;
    }
    proof {
        assert(frames@.take(total as int) =~= frames@);
    }
}

/// One task's (or the kernel's) view of memory: a root page table, the
/// trampoline page at the top, and mapped areas in the order they were added.
pub struct AddressSpace {
    root_ppn: usize,
    trampoline_ppn: usize,
    areas: Vec<MapArea>,
}

impl AddressSpace {
    /// The mapped areas, in the order they were added.
    pub closed spec fn areas(&self) -> Seq<MapArea> {
        self.areas@
    }

    /// The frame of the root page table.
    pub closed spec fn root(&self) -> usize {
        self.root_ppn
    }

    /// The frame that the trampoline page is mapped to.
    pub closed spec fn trampoline_frame(&self) -> usize {
        self.trampoline_ppn
    }

    /// The invariant of an address space: its areas are well formed, lie
    /// below the trampoline, share no page and no frame, and none holds the
    /// root table's frame.
    pub open spec fn wf(&self) -> bool {
        &&& self.root() <= usize::MAX / 4096
        &&& forall|i: int|
            0 <= i < self.areas().len() ==> {
                &&& (#[trigger] self.areas()[i]).wf()
                &&& self.areas()[i].end_vpn <= trampoline_vpn()
                &&& !self.areas()[i].holds(self.root())
            }
        &&& forall|i: int, j: int|
            0 <= i < j < self.areas().len() ==> !(#[trigger] self.areas()[i]).overlaps(
                (#[trigger] self.areas()[j]).start_vpn as int,
                self.areas()[j].end_vpn as int,
            )
        &&& forall|i: int, j: int, p: usize|
            0 <= i < j < self.areas().len() && #[trigger] self.areas()[i].holds(p)
                ==> !#[trigger] self.areas()[j].holds(p)
    }

    /// Whether the space owns frame `ppn`, as its root table or as the
    /// backing of a page.
    pub open spec fn holds(&self, ppn: usize) -> bool {
        ppn == self.root() || exists|i: int|
            0 <= i < self.areas().len() && (#[trigger] self.areas()[i]).holds(ppn)
    }

    /// Whether every frame the space owns is out of `pool`.
    pub open spec fn backed_by(&self, pool: &FrameAllocator) -> bool {
        forall|p: usize| self.holds(p) ==> pool.is_allocated(p)
    }

    /// Whether the space has a trap-context page.
    pub open spec fn has_trap_context(&self) -> bool {
        exists|i: int| 0 <= i < self.areas().len() && (#[trigger] self.areas()[i]).is_trap_context()
    }

    /// Whether some area covers page `vpn`.
    pub open spec fn is_mapped(&self, vpn: int) -> bool {
        exists|i: int| 0 <= i < self.areas().len() && (#[trigger] self.areas()[i]).covers(vpn)
    }

    /// What page `vpn` is mapped to, if it is mapped.
    pub open spec fn mapping(&self, vpn: int) -> Option<PageTableEntry> {
        if vpn == trampoline_vpn() {
            Some(trampoline_entry(self.trampoline_frame()))
        } else if self.is_mapped(vpn) {
            let i = choose|i: int|
                0 <= i < self.areas().len() && (#[trigger] self.areas()[i]).covers(vpn);
            Some(self.areas()[i].entry(vpn))
        } else {
            None
        }
    }

    /// Whether no area shares a page with `start..end`.
    pub open spec fn range_is_clear(&self, start: int, end: int) -> bool {
        forall|i: int|
            0 <= i < self.areas().len() ==> !(#[trigger] self.areas()[i]).overlaps(start, end)
    }

    /// Whether a user of this space may read the bytes `start..end`: one
    /// readable user area contains them all.
    pub open spec fn user_can_read(&self, start: int, end: int) -> bool {
        exists|i: int|
            0 <= i < self.areas().len() && (#[trigger] self.areas()[i]).user_readable(start, end)
    }

    /// An address space with no area yet: only the trampoline is mapped, to
    /// frame `trampoline_ppn`. Takes the root table's frame from the pool;
    /// `None` if the pool is empty.
    pub fn new_bare(trampoline_ppn: usize, pool: &mut FrameAllocator) -> (space: Option<
        AddressSpace,
    >)
        requires
            old(pool).wf(),
        ensures
            final(pool).wf(),
            space is None <==> old(pool).free_count() == 0,
            space is None ==> *final(pool) == *old(pool),
            space matches Some(s) ==> {
                &&& s.wf()
                &&& s.backed_by(final(pool))
                &&& s.areas().len() == 0
                &&& s.trampoline_frame() == trampoline_ppn
                &&& old(pool).is_free(s.root())
                &&& !final(pool).is_free(s.root())
                &&& final(pool).free_count() == old(pool).free_count() - 1
                &&& forall|q: usize|
                    q != s.root() ==> final(pool).is_free(q) == old(pool).is_free(q)
                &&& forall|q: usize|
                    q != s.root() ==> final(pool).is_allocated(q) == old(pool).is_allocated(q)
            },
    {
        match pool.frame_alloc() {
            None => None,
            Some(root_ppn) => {
                proof {
                    pool.allocated_is_a_page(root_ppn);
                }
                Some(AddressSpace { root_ppn, trampoline_ppn, areas: Vec::new() })
            },
        }
    }

    /// The value that selects this space in the address-translation
    /// register: paging switched on, and the root table's frame.
    pub fn token(&self) -> (t: usize)
        requires
            self.wf(),
        ensures
            t == usize::MAX / 2 + 1 + self.root(),
    {
        usize::MAX / 2 + 1 + self.root_ppn
    }

    /// The frame that the trampoline page is mapped to.
    pub fn trampoline_ppn(&self) -> (ppn: usize)
        ensures
            ppn == self.trampoline_frame(),
    {
        self.trampoline_ppn
    }

    /// How many areas the space has.
    pub fn area_count(&self) -> (n: usize)
        ensures
            n == self.areas().len(),
    {
        self.areas.len()
    }

    /// The `i`-th area, in the order of insertion.
    pub fn area(&self, i: usize) -> (a: &MapArea)
        requires
            i < self.areas().len(),
        ensures
            *a == self.areas()[i as int],
    {
        &self.areas[i]
    }

    /// Whether a fresh framed area for the bytes `start_va..end_va` can be
    /// added: the range is in order, its length fits a signed word, its pages
    /// lie below the trampoline and are all unmapped, and the pool has a
    /// frame for each.
    pub open spec fn can_insert(&self, start_va: int, end_va: int, pool: &FrameAllocator) -> bool {
        &&& self.has_room(start_va, end_va)
        &&& page_ceil(end_va) - page_floor(start_va) <= pool.free_count()
    }

    /// Whether the space has room for an area over the bytes
    /// `start_va..end_va`: the range is in order, its length fits a signed
    /// word, and its pages lie below the trampoline and are all unmapped.
    pub open spec fn has_room(&self, start_va: int, end_va: int) -> bool {
        &&& start_va <= end_va
        &&& end_va - start_va <= isize::MAX
        &&& page_ceil(end_va) <= trampoline_vpn()
        &&& self.range_is_clear(page_floor(start_va), page_ceil(end_va))
    }

    /// Whether `next` is this space with one more area at the end and
    /// nothing else changed.
    pub open spec fn extended_by(&self, next: &AddressSpace) -> bool {
        &&& next.root() == self.root()
        &&& next.trampoline_frame() == self.trampoline_frame()
        &&& next.areas().len() == self.areas().len() + 1
        &&& forall|i: int| 0 <= i < self.areas().len() ==> next.areas()[i] == self.areas()[i]
    }

    /// Whether `next` is this space without its `k`-th area and nothing else
    /// changed.
    pub open spec fn reduced_by(&self, next: &AddressSpace, k: int) -> bool {
        &&& next.root() == self.root()
        &&& next.trampoline_frame() == self.trampoline_frame()
        &&& 0 <= k < self.areas().len()
        &&& next.areas() == self.areas().remove(k)
    }

    /// Whether no area shares a page with `start_vpn..end_vpn`.
    pub fn is_clear(&self, start_vpn: usize, end_vpn: usize) -> (r: bool)
        ensures
            r == self.range_is_clear(start_vpn as int, end_vpn as int),
    {
        let count: usize = self.areas.len();
        let mut i: usize = 0;
        while i < count
            invariant
                i <= count,
                count == self.areas().len(),
                forall|j: int|
                    0 <= j < i ==> !(#[trigger] self.areas()[j]).overlaps(
                        start_vpn as int,
                        end_vpn as int,
                    ),
            decreases count - i,
        {
            let area = &self.areas[i];
            if area.start_vpn < end_vpn && start_vpn < area.end_vpn {
                assert(self.areas()[i as int].overlaps(start_vpn as int, end_vpn as int));
                return false;
            }
            i += 1;
        }
        true
    }

    /// Maps the bytes `start_va..end_va`, rounded out to whole pages, to
    /// fresh frames from the pool, as a new area at the end of the space.
    /// Returns the length in bytes on success; on failure returns -1 and
    /// changes nothing.
    pub fn insert_framed_area(
        &mut self,
        start_va: usize,
        end_va: usize,
        perm: MapPermission,
        pool: &mut FrameAllocator,
    ) -> (r: isize)
        requires
            old(self).wf(),
            old(pool).wf(),
            old(self).backed_by(old(pool)),
        ensures
            final(self).wf(),
            final(pool).wf(),
            final(self).backed_by(final(pool)),
            !old(self).can_insert(start_va as int, end_va as int, old(pool)) ==> {
                &&& r == -1
                &&& *final(self) == *old(self)
                &&& *final(pool) == *old(pool)
            },
            old(self).can_insert(start_va as int, end_va as int, old(pool)) ==> {
                let a = final(self).areas().last();
                &&& r == end_va - start_va
                &&& old(self).extended_by(final(self))
                &&& a.start_vpn == page_floor(start_va as int)
                &&& a.end_vpn == page_ceil(end_va as int)
                &&& a.map_type == MapType::Framed
                &&& a.perm == perm
                &&& final(pool).free_count() == old(pool).free_count() - (a.end_vpn - a.start_vpn)
                &&& forall|q: usize| a.holds(q) ==> old(pool).is_free(q)
                &&& forall|q: usize|
                    #[trigger] final(pool).is_free(q) == (old(pool).is_free(q) && !a.holds(q))
                &&& forall|q: usize|
                    #[trigger] final(pool).is_allocated(q) == (old(pool).is_allocated(q)
                        || a.holds(q))
            },
    {
        if start_va > end_va || end_va - start_va > isize::MAX as usize {
            return -1;
        }
        let start_vpn: usize = floor_page(start_va);
        let end_vpn: usize = ceil_page(end_va);
        if end_vpn > usize::MAX / 4096 {
            return -1;
        }
        if !self.is_clear(start_vpn, end_vpn) {
            return -1;
        }
        let pages: usize = end_vpn - start_vpn;
        if !pool.has_free(pages) {
            return -1;
        }
        let ghost pool0 = *pool;
        let ghost root = self.root();
        let mut frames: Vec<usize> = Vec::new();
        let mut k: usize = 0;
        while k < pages
            invariant
                k <= pages,
                pool.wf(),
                pool0.wf(),
                frames@.len() == k,
                frames@.no_duplicates(),
                pool.free_count() == pool0.free_count() - k,
                pages <= pool0.free_count(),
                forall|q: usize| frames@.contains(q) ==> pool0.is_free(q),
                forall|q: usize|
                    #[trigger] pool.is_free(q) == (pool0.is_free(q) && !frames@.contains(q)),
                forall|q: usize|
                    #[trigger] pool.is_allocated(q) == (pool0.is_allocated(q) || frames@.contains(
                        q,
                    )),
            decreases pages - k,
        {
            let ghost before = frames@;
            let ghost pool1 = *pool;
            match pool.frame_alloc() {
                None => {
                    assert(false);
                },
                Some(p) => {
                    frames.push(p);
                    proof {
                        assert(frames@ =~= before.push(p));
                        assert(pool1.is_free(p));
                        assert(!before.contains(p));
                        assert(frames@[k as int] == p);
                        assert forall|q: usize| frames@.contains(q) == (before.contains(q) || q
                            == p) by {
                            if before.contains(q) {
                                let j = choose|j: int| 0 <= j < before.len() && before[j] == q;
                                assert(frames@[j] == q);
                            }
                        }
                        pool0.free_is_not_allocated(p);
                    }
                },
            }
            k += 1;
        }
        let area = MapArea { start_vpn, end_vpn, map_type: MapType::Framed, perm, frames };
        let ghost before = self.areas();
        self.areas.push(area);
        proof {
            let after = self.areas();
            assert(after =~= before.push(area));
            assert(after.last() == area);
            assert forall|q: usize| area.holds(q) implies !pool0.is_allocated(q) by {
                pool0.free_is_not_allocated(q);
            }
            assert(!area.holds(root)) by {
                assert(old(self).holds(root));
            }
            assert forall|i: int, p: usize|
                0 <= i < before.len() && #[trigger] before[i].holds(p) implies !area.holds(p) by {
                assert(old(self).holds(p));
            }
            assert forall|p: usize| self.holds(p) implies pool.is_allocated(p) by {
                if p != self.root() {
                    let i = choose|i: int|
                        0 <= i < after.len() && (#[trigger] after[i]).holds(p);
                    if i < before.len() {
                        assert(before[i].holds(p));
                        assert(old(self).holds(p));
                    }
                } else {
                    assert(old(self).holds(p));
                }
            }
        }
        (end_va - start_va) as isize
    }

    /// Maps the bytes `start_va..end_va`, rounded out to whole pages, each
    /// page to the frame of its own number, as a new area at the end of the
    /// space: kernel memory seen at its physical address. Takes no frame.
    /// Returns the length in bytes; or -1, changing nothing, if the space has
    /// no room for the range.
    pub fn insert_identical_area(&mut self, start_va: usize, end_va: usize, perm: MapPermission) -> (r:
        isize)
        requires
            old(self).wf(),
        ensures
            final(self).wf(),
            forall|q: usize| final(self).holds(q) == old(self).holds(q),
            !old(self).has_room(start_va as int, end_va as int) ==> {
                &&& r == -1
                &&& *final(self) == *old(self)
            },
            old(self).has_room(start_va as int, end_va as int) ==> {
                let a = final(self).areas().last();
                &&& r == end_va - start_va
                &&& old(self).extended_by(final(self))
                &&& a.start_vpn == page_floor(start_va as int)
                &&& a.end_vpn == page_ceil(end_va as int)
                &&& a.map_type == MapType::Identical
                &&& a.perm == perm
                &&& a.frames@.len() == 0
            },
    {
        if start_va > end_va || end_va - start_va > isize::MAX as usize {
            return -1;
        }
        let start_vpn: usize = floor_page(start_va);
        let end_vpn: usize = ceil_page(end_va);
        if end_vpn > usize::MAX / 4096 {
            return -1;
        }
        if !self.is_clear(start_vpn, end_vpn) {
            return -1;
        }
        let area = MapArea {
            start_vpn,
            end_vpn,
            map_type: MapType::Identical,
            perm,
            frames: Vec::new(),
        };
        let ghost before = self.areas();
        self.areas.push(area);
        proof {
            let after = self.areas();
            assert(after =~= before.push(area));
            assert(after.last() == area);
            assert forall|q: usize| self.holds(q) == old(self).holds(q) by {
                if self.holds(q) && q != self.root() {
                    let i = choose|i: int|
                        0 <= i < after.len() && (#[trigger] after[i]).holds(q);
                    assert(before[i].holds(q));
                }
                if old(self).holds(q) && q != self.root() {
                    let i = choose|i: int|
                        0 <= i < before.len() && (#[trigger] before[i]).holds(q);
                    assert(after[i].holds(q));
                }
            }
        }
        (end_va - start_va) as isize
    }

    /// Unmaps the first area that a user may unmap and that spans exactly
    /// the pages of the bytes `start_va..end_va`, and gives its frames back
    /// to the pool. Returns 0 on success; if there is no such area, returns
    /// -1 and changes nothing.
    pub fn remove_frame_area(&mut self, start_va: usize, end_va: usize, pool: &mut FrameAllocator) -> (r:
        isize)
        requires
            old(self).wf(),
            old(pool).wf(),
            old(self).backed_by(old(pool)),
        ensures
            final(self).wf(),
            final(pool).wf(),
            final(self).backed_by(final(pool)),
            r == 0 || r == -1,
            r == -1 <==> forall|i: int|
                0 <= i < old(self).areas().len() ==> !(#[trigger] old(self).areas()[i]).unmappable_as(
                    page_floor(start_va as int),
                    page_ceil(end_va as int),
                ),
            r == -1 ==> *final(self) == *old(self) && *final(pool) == *old(pool),
            r == 0 ==> exists|k: int|
                {
                    &&& old(self).reduced_by(final(self), k)
                    &&& (#[trigger] old(self).areas()[k]).unmappable_as(
                        page_floor(start_va as int),
                        page_ceil(end_va as int),
                    )
                    &&& forall|j: int|
                        0 <= j < k ==> !(#[trigger] old(self).areas()[j]).unmappable_as(
                            page_floor(start_va as int),
                            page_ceil(end_va as int),
                        )
                    &&& final(pool).free_count() == old(pool).free_count() + old(
                        self,
                    ).areas()[k].frames@.len()
                    &&& forall|q: usize|
                        #[trigger] final(pool).is_free(q) == (old(pool).is_free(q) || old(
                            self,
                        ).areas()[k].holds(q))
                    &&& forall|q: usize|
                        #[trigger] final(pool).is_allocated(q) == (old(pool).is_allocated(q)
                            && !old(self).areas()[k].holds(q))
                },
    {
        let start_vpn: usize = floor_page(start_va);
        let end_vpn: usize = ceil_page(end_va);
        let count: usize = self.areas.len();
        let mut i: usize = 0;
        let mut found: bool = false;
        while i < count && !found
            invariant
                i <= count,
                count == self.areas().len(),
                *self == *old(self),
                *pool == *old(pool),
                self.wf(),
                pool.wf(),
                self.backed_by(pool),
                start_vpn == page_floor(start_va as int),
                end_vpn == page_ceil(end_va as int),
                found ==> i < count && self.areas()[i as int].unmappable_as(
                    start_vpn as int,
                    end_vpn as int,
                ),
                forall|j: int|
                    0 <= j < i ==> !(#[trigger] self.areas()[j]).unmappable_as(
                        start_vpn as int,
                        end_vpn as int,
                    ),
            decreases count - i + (if found { 0int } else { 1int }),
        {
            let area = &self.areas[i];
            let framed: bool = match area.map_type {
                MapType::Framed => true,
                MapType::Identical => false,
            };
            if framed && area.perm.u && area.start_vpn == start_vpn && area.end_vpn == end_vpn {
                found = true;
            } else {
                i += 1;
            }
        }
        if !found {
            return -1;
        }
        let ghost before = self.areas();
        let ghost pool0 = *pool;
        let ghost idx = i as int;
        let area = self.areas.remove(i);
        proof {
            assert(self.areas() =~= before.remove(idx));
            assert(area == before[idx]);
            assert(area.unmappable_as(start_vpn as int, end_vpn as int));
            assert(area.wf());
        }
        proof {
            assert forall|j: int| 0 <= j < area.frames@.len() implies pool.is_allocated(
                #[trigger] area.frames@[j],
            ) by {
                assert(before[idx].holds(area.frames@[j]));
                assert(old(self).holds(area.frames@[j]));
            }
        }
        give_back(&area.frames, pool);
        proof {
            let after = self.areas();
            assert forall|i: int| 0 <= i < after.len() implies {
                &&& (#[trigger] after[i]).wf()
                &&& after[i].end_vpn <= trampoline_vpn()
                &&& !after[i].holds(self.root())
            } by {
                if i < idx {
                    assert(after[i] == before[i]);
                } else {
                    assert(after[i] == before[i + 1]);
                }
            }
            assert forall|i: int, j: int| 0 <= i < j < after.len() implies !(
            #[trigger] after[i]).overlaps(
                (#[trigger] after[j]).start_vpn as int,
                after[j].end_vpn as int,
            ) by {
                let a = if i < idx { i } else { i + 1 };
                let b = if j < idx { j } else { j + 1 };
                assert(after[i] == before[a]);
                assert(after[j] == before[b]);
            }
            assert forall|i: int, j: int, p: usize|
                0 <= i < j < after.len() && #[trigger] after[i].holds(p) implies !#[trigger] after[j].holds(
                p,
            ) by {
                let a = if i < idx { i } else { i + 1 };
                let b = if j < idx { j } else { j + 1 };
                assert(after[i] == before[a]);
                assert(after[j] == before[b]);
                assert(before[a].holds(p));
            }
            assert forall|p: usize| self.holds(p) implies pool.is_allocated(p) by {
                if p != self.root() {
                    let i = choose|i: int|
                        0 <= i < after.len() && (#[trigger] after[i]).holds(p);
                    let a = if i < idx { i } else { i + 1 };
                    assert(after[i] == before[a]);
                    assert(before[a].holds(p));
                    assert(old(self).holds(p));
                    if a < idx {
                        assert(!before[idx].holds(p));
                    } else {
                        assert(!before[idx].holds(p)) by {
                            if before[idx].holds(p) {
                                assert(!before[a].holds(p));
                            }
                        }
                    }
                } else {
                    assert(old(self).holds(p));
                    assert(!before[idx].holds(p));
                }
            }
            assert(old(self).reduced_by(self, idx));
        }
        0
    }

    /// Destroys the space: gives the frame of its root table and the frames
    /// of all its areas back to the pool.
    pub fn release(self, pool: &mut FrameAllocator)
        requires
            self.wf(),
            old(pool).wf(),
            self.backed_by(old(pool)),
        ensures
            final(pool).wf(),
            forall|q: usize| #[trigger] final(pool).is_free(q) == (old(pool).is_free(q) || self.holds(q)),
            forall|q: usize|
                #[trigger] final(pool).is_allocated(q) == (old(pool).is_allocated(q) && !self.holds(
                    q,
                )),
    {
        let ghost pool0 = *pool;
        assert(self.holds(self.root()));
        pool.frame_dealloc(self.root_ppn);
        let count: usize = self.areas.len();
        let mut i: usize = 0;
        while i < count
            invariant
                i <= count,
                count == self.areas().len(),
                self.wf(),
                self.backed_by(&pool0),
                pool.wf(),
                forall|q: usize|
                    #[trigger] pool.is_free(q) == (pool0.is_free(q) || q == self.root() || exists|
                        a: int,
                    |
                        0 <= a < i && (#[trigger] self.areas()[a]).holds(q)),
                forall|q: usize|
                    #[trigger] pool.is_allocated(q) == (pool0.is_allocated(q) && q != self.root()
                        && !exists|a: int| 0 <= a < i && (#[trigger] self.areas()[a]).holds(q)),
            decreases count - i,
        {
            let area = &self.areas[i];
            let ghost pool1 = *pool;
            proof {
                assert(self.areas()[i as int].wf());
                assert forall|j: int| 0 <= j < area.frames@.len() implies pool.is_allocated(
                    #[trigger] area.frames@[j],
                ) by {
                    let q = area.frames@[j];
                    assert(self.areas()[i as int].holds(q));
                    assert(self.holds(q));
                    if exists|a: int| 0 <= a < i && (#[trigger] self.areas()[a]).holds(q) {
                        let a = choose|a: int| 0 <= a < i && (#[trigger] self.areas()[a]).holds(q);
                        assert(!self.areas()[i as int].holds(q));
                    }
                }
            }
            give_back(&area.frames, pool);
            proof {
                assert forall|q: usize|
                    (exists|a: int| 0 <= a < i + 1 && (#[trigger] self.areas()[a]).holds(q)) == ((
                    exists|a: int| 0 <= a < i && (#[trigger] self.areas()[a]).holds(q))
                        || area.frames@.contains(q)) by {
                    if exists|a: int| 0 <= a < i + 1 && (#[trigger] self.areas()[a]).holds(q) {
                        let a = choose|a: int|
                            0 <= a < i + 1 && (#[trigger] self.areas()[a]).holds(q);
                        if a < i {
                            assert(self.areas()[a].holds(q));
                        }
                    }
                    if area.frames@.contains(q) {
                        assert(self.areas()[i as int].holds(q));
                    }
                    if exists|a: int| 0 <= a < i && (#[trigger] self.areas()[a]).holds(q) {
                        let a = choose|a: int| 0 <= a < i && (#[trigger] self.areas()[a]).holds(q);
                        assert(self.areas()[a].holds(q));
                    }
                }
            }
            i += 1;
        }
    }

    /// Whether a user of this space may read the bytes `start..end`.
    pub fn can_user_read(&self, start: usize, end: usize) -> (r: bool)
        requires
            self.wf(),
        ensures
            r == self.user_can_read(start as int, end as int),
    {
        if start > end {
            return false;
        }
        let n: usize = self.areas.len();
        let mut i: usize = 0;
        while i < n
            invariant
                i <= n,
                n == self.areas().len(),
                self.wf(),
                start <= end,
                forall|j: int|
                    0 <= j < i ==> !(#[trigger] self.areas()[j]).user_readable(
                        start as int,
                        end as int,
                    ),
            decreases n - i,
        {
            let area = &self.areas[i];
            assert(self.areas()[i as int].wf() && self.areas()[i as int].end_vpn
                <= trampoline_vpn());
            if area.perm.u && area.perm.r && area.start_vpn * 4096 <= start && end
                <= area.end_vpn * 4096 {
                assert(self.areas()[i as int].user_readable(start as int, end as int));
                return true;
            }
            i += 1;
        }
        false
    }

    /// Looks page `vpn` up.
    pub fn translate(&self, vpn: usize) -> (pte: Option<PageTableEntry>)
        requires
            self.wf(),
        ensures
            pte == self.mapping(vpn as int),
    {
        if vpn == usize::MAX / 4096 {
            return Some(
                PageTableEntry {
                    ppn: self.trampoline_ppn,
                    perm: MapPermission { r: true, w: false, x: true, u: false },
                },
            );
        }
        let n: usize = self.areas.len();
        let mut i: usize = 0;
        while i < n
            invariant
                i <= n,
                n == self.areas().len(),
                self.wf(),
                forall|j: int| 0 <= j < i ==> !(#[trigger] self.areas()[j]).covers(vpn as int),
            decreases n - i,
        {
            let area = &self.areas[i];
            if area.start_vpn <= vpn && vpn < area.end_vpn {
                assert(self.areas()[i as int].covers(vpn as int));
                let ghost k = choose|k: int|
                    0 <= k < self.areas().len() && (#[trigger] self.areas()[k]).covers(vpn as int);
                assert(k == i) by {
                    if k < i {
                        assert(!self.areas()[k].covers(vpn as int));
                    } else if k > i {
                        assert(!self.areas()[i as int].overlaps(
                            self.areas()[k].start_vpn as int,
                            self.areas()[k].end_vpn as int,
                        ));
                    }
                }
                let ppn: usize = match area.map_type {
                    MapType::Identical => vpn,
                    MapType::Framed => area.frames[vpn - area.start_vpn],
                };
                return Some(PageTableEntry { ppn, perm: area.perm });
            }
            i += 1;
        }
        None
    }
}

/// The permission set of a mapping that a user asks for with the raw
/// protection `prot`: the rights it names, and access from user mode.
/// Nothing if `prot` names no right or has a bit that stands for none.
pub open spec fn mmap_permission(prot: int) -> Option<MapPermission> {
    match prot_of_bits(prot) {
        Some(p) => if p.r || p.w || p.x {
            Some(MapPermission { u: true, ..perm_of_prot(p) })
        } else {
            None
        },
        None => None,
    }
}

/// What a request to map `len` bytes at `start` with protection `prot`
/// makes of an address space and the pool, and what it returns.
///
/// A request that is not allowed returns -1 and changes nothing. One that is
/// allowed returns `len`; the space gains one framed area at its end, open
/// to user mode with the rights asked for, over the pages of the range, and
/// backed by frames that were free, which leave the pool.
pub open spec fn mmap_effect(
    before: &AddressSpace,
    after: &AddressSpace,
    pool: &FrameAllocator,
    next_pool: &FrameAllocator,
    start: usize,
    len: usize,
    prot: usize,
    r: isize,
) -> bool {
    if start % 4096 == 0 && 1 <= prot <= 7 && start + len <= usize::MAX && before.can_insert(
        start as int,
        start + len,
        pool,
    ) {
        let a = after.areas().last();
        &&& r == len
        &&& before.extended_by(after)
        &&& a.start_vpn == page_floor(start as int)
        &&& a.end_vpn == page_ceil(start + len)
        &&& a.map_type == MapType::Framed
        &&& Some(a.perm) == mmap_permission(prot as int)
        &&& next_pool.free_count() == pool.free_count() - (a.end_vpn - a.start_vpn)
        &&& forall|q: usize| a.holds(q) ==> pool.is_free(q)
        &&& forall|q: usize| #[trigger] next_pool.is_free(q) == (pool.is_free(q) && !a.holds(q))
    } else {
        &&& r == -1
        &&& after == before
        &&& next_pool == pool
    }
}

/// What a request to unmap the `len` bytes at `start` makes of an address
/// space and the pool, and what it returns.
///
/// If `start` is page-aligned, the range ends inside the address range, and
/// some area that a user may unmap spans exactly the pages of the range, the
/// first such area leaves the space, its frames go back to the pool, and
/// the request returns 0. Otherwise it returns -1 and changes nothing.
pub open spec fn munmap_effect(
    before: &AddressSpace,
    after: &AddressSpace,
    pool: &FrameAllocator,
    next_pool: &FrameAllocator,
    start: usize,
    len: usize,
    r: isize,
) -> bool {
    if start % 4096 == 0 && start + len <= usize::MAX && exists|i: int|
        0 <= i < before.areas().len() && (#[trigger] before.areas()[i]).unmappable_as(
            page_floor(start as int),
            page_ceil(start + len),
        ) {
        &&& r == 0
        &&& exists|k: int|
            {
                &&& before.reduced_by(after, k)
                &&& (#[trigger] before.areas()[k]).unmappable_as(
                    page_floor(start as int),
                    page_ceil(start + len),
                )
                &&& forall|j: int|
                    0 <= j < k ==> !(#[trigger] before.areas()[j]).unmappable_as(
                        page_floor(start as int),
                        page_ceil(start + len),
                    )
                &&& next_pool.free_count() == pool.free_count() + before.areas()[k].frames@.len()
                &&& forall|q: usize|
                    #[trigger] next_pool.is_free(q) == (pool.is_free(q) || before.areas()[k].holds(
                        q,
                    ))
            }
    } else {
        &&& r == -1
        &&& after == before
        &&& next_pool == pool
    }
}

/// Mapping memory takes nothing away: every area that the space had, it
/// still has, in the same place.
pub proof fn mmap_keeps_every_area(
    before: &AddressSpace,
    after: &AddressSpace,
    pool: &FrameAllocator,
    next_pool: &FrameAllocator,
    start: usize,
    len: usize,
    prot: usize,
    r: isize,
    i: int,
)
    requires
        mmap_effect(before, after, pool, next_pool, start, len, prot, r),
        0 <= i < before.areas().len(),
    ensures
        i < after.areas().len(),
        after.areas()[i] == before.areas()[i],
{
}

/// Unmapping takes away at most the one area asked for, and never one that
/// is closed to user mode: the trap-context page, and whatever else the
/// kernel keeps in a task's address space for itself, outlasts every
/// request of the task.
pub proof fn munmap_spares_kernel_areas(
    before: &AddressSpace,
    after: &AddressSpace,
    pool: &FrameAllocator,
    next_pool: &FrameAllocator,
    start: usize,
    len: usize,
    r: isize,
    i: int,
)
    requires
        munmap_effect(before, after, pool, next_pool, start, len, r),
        0 <= i < before.areas().len(),
        !before.areas()[i].perm.u || !before.areas()[i].unmappable_as(
            page_floor(start as int),
            page_ceil(start + len),
        ),
    ensures
        after.areas().contains(before.areas()[i]),
        after.trampoline_frame() == before.trampoline_frame(),
{
    if r == 0 {
        let k = choose|k: int|
            {
                &&& before.reduced_by(after, k)
                &&& (#[trigger] before.areas()[k]).unmappable_as(
                    page_floor(start as int),
                    page_ceil(start + len),
                )
            };
        assert(k != i);
        if i < k {
            assert(after.areas()[i] == before.areas()[i]);
        } else {
            assert(after.areas()[i - 1] == before.areas()[i]);
        }
    } else {
        assert(after.areas()[i] == before.areas()[i]);
    }
}

/// The trap-context page of a space outlasts every request to map or unmap
/// memory.
pub proof fn trap_context_outlasts_requests(
    before: &AddressSpace,
    after: &AddressSpace,
    pool: &FrameAllocator,
    next_pool: &FrameAllocator,
    start: usize,
    len: usize,
    prot: usize,
    r: isize,
)
    requires
        before.has_trap_context(),
        mmap_effect(before, after, pool, next_pool, start, len, prot, r) || munmap_effect(
            before,
            after,
            pool,
            next_pool,
            start,
            len,
            r,
        ),
    ensures
        after.has_trap_context(),
{
    let i = choose|i: int|
        0 <= i < before.areas().len() && (#[trigger] before.areas()[i]).is_trap_context();
    if mmap_effect(before, after, pool, next_pool, start, len, prot, r) {
        mmap_keeps_every_area(before, after, pool, next_pool, start, len, prot, r, i);
        assert(after.areas()[i].is_trap_context());
    } else {
        munmap_spares_kernel_areas(before, after, pool, next_pool, start, len, r, i);
        let j = choose|j: int| 0 <= j < after.areas().len() && after.areas()[j] == before.areas()[i];
        assert(after.areas()[j].is_trap_context());
    }
}

} // verus!
