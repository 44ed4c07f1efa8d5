//! The loadable image of an application and the address space built from
//! it.

use crate::config::USER_STACK_SIZE;
use crate::frame::FrameAllocator;
use crate::memory::AddressSpace;
use crate::memory::ceil_page;
use crate::memory::MapType;
use crate::memory::page_ceil;
use crate::memory::page_floor;
use crate::memory::trampoline_vpn;
use crate::perm::MapPermission;
use vstd::prelude::*;

verus! {

/// One loadable segment of an image: `mem_size` bytes at `start_va`, with
/// the access flags of its program header (bit 0 execute, bit 1 write,
/// bit 2 read). Its first `file_size` bytes are those at `file_offset` in
/// the image's file; the rest is zero.
#[derive(Clone, Copy, Debug)]
pub struct Segment {
    pub start_va: usize,
    pub mem_size: usize,
    pub flags: u32,
    pub file_offset: usize,
    pub file_size: usize,
}

/// What the kernel needs of an application image: where execution starts,
/// and the loadable segments in the order of their program headers.
#[derive(Debug)]
pub struct AppImage {
    pub entry: usize,
    pub segments: Vec<Segment>,
}

impl Segment {
    /// The first address past the segment.
    pub open spec fn end_va(&self) -> int {
        self.start_va + self.mem_size
    }

    /// The first page of the segment.
    pub open spec fn first_page(&self) -> int {
        page_floor(self.start_va as int)
    }

    /// The first page past the segment.
    pub open spec fn past_page(&self) -> int {
        page_ceil(self.end_va())
    }

    /// The permission set of the segment's pages: open to user mode, with
    /// the rights that the flags name.
    pub open spec fn perm(&self) -> MapPermission {
        MapPermission {
            r: (self.flags / 4) % 2 == 1,
            w: (self.flags / 2) % 2 == 1,
            x: self.flags % 2 == 1,
            u: true,
        }
    }

    /// Whether the segment lies inside the address range, below the
    /// trampoline, with a length that fits a signed word.
    pub open spec fn fits(&self) -> bool {
        &&& self.end_va() <= usize::MAX
        &&& self.mem_size <= isize::MAX
        &&& self.past_page() <= trampoline_vpn()
    }

    /// The permission set of the segment's pages.
    pub fn permission(&self) -> (p: MapPermission)
        ensures
            p == self.perm(),
    {
        MapPermission {
            r: (self.flags / 4) % 2 == 1,
            w: (self.flags / 2) % 2 == 1,
            x: self.flags % 2 == 1,
            u: true,
        }
    }
}

/// The pages that the first `k` of the segments take.
pub open spec fn pages_of(segments: Seq<Segment>, k: nat) -> int
    decreases k,
{
    if k == 0 {
        0
    } else {
        pages_of(segments, (k - 1) as nat) + segments[k - 1].past_page() - segments[k
            - 1].first_page()
    }
}

/// The first page past the first `k` of the segments: the end of the last
/// of them, or page 0 if there is none.
pub open spec fn end_page_of(segments: Seq<Segment>, k: int) -> int {
    if k <= 0 {
        0
    } else {
        segments[k - 1].past_page()
    }
}

/// Whether the first `k` segments each fit and follow one another in
/// ascending order without sharing a page.
pub open spec fn segments_in_order(segments: Seq<Segment>, k: int) -> bool {
    forall|j: int|
        0 <= j < k ==> (#[trigger] segments[j]).fits() && end_page_of(segments, j)
            <= segments[j].first_page()
}

/// The bottom of the user stack over the segments: one guard page above
/// the last of them.
pub open spec fn stack_bottom_of(segments: Seq<Segment>) -> int {
    (end_page_of(segments, segments.len() as int) + 1) * 4096
}

/// The top of the user stack over the segments, where the stack pointer
/// starts.
pub open spec fn stack_top_of(segments: Seq<Segment>) -> int {
    stack_bottom_of(segments) + USER_STACK_SIZE
}

/// Whether an address space can be laid out for the segments: they fit and
/// are in ascending order, and the user stack above them ends below the
/// trap-context page.
pub open spec fn layout_ok(segments: Seq<Segment>) -> bool {
    &&& segments_in_order(segments, segments.len() as int)
    &&& stack_top_of(segments) <= (trampoline_vpn() - 1) * 4096
}

/// The frames that the address space of the segments takes: the root
/// table, the segments, two pages of user stack and the trap-context page.
pub open spec fn frames_of(segments: Seq<Segment>) -> int {
    pages_of(segments, segments.len()) + 4
}

impl AppImage {
    /// The bottom of the user stack: one guard page above the image.
    pub open spec fn stack_bottom(&self) -> int {
        stack_bottom_of(self.segments@)
    }

    /// The top of the user stack, where the stack pointer starts.
    pub open spec fn stack_top(&self) -> int {
        stack_top_of(self.segments@)
    }

    /// Whether an address space can be laid out for the image.
    pub open spec fn wf(&self) -> bool {
        layout_ok(self.segments@)
    }

    /// The frames that the address space of the image takes.
    pub open spec fn frames_needed(&self) -> int {
        frames_of(self.segments@)
    }
}

/// The pages of the segments add up: more segments never take fewer pages.
pub proof fn pages_of_grows(segments: Seq<Segment>, a: nat, b: nat)
    requires
        a <= b <= segments.len(),
        segments_in_order(segments, b as int),
    ensures
        0 <= pages_of(segments, a) <= pages_of(segments, b),
    decreases b,
{
    if a == 0 && b == 0 {
    } else if a < b {
        pages_of_grows(segments, a, (b - 1) as nat);
        assert(segments[b - 1].fits());
    } else {
        pages_of_grows(segments, (a - 1) as nat, (b - 1) as nat);
        assert(segments[b - 1].fits());
    }
}

/// Whether `space` is the address space of the segments: one area per
/// segment, in order, then the user stack, then the trap-context page.
pub open spec fn space_of_segments(space: &AddressSpace, segments: Seq<Segment>) -> bool {
    let n = segments.len() as int;
    &&& space.areas().len() == n + 2
    &&& forall|j: int|
        0 <= j < n ==> {
            &&& (#[trigger] space.areas()[j]).start_vpn == segments[j].first_page()
            &&& space.areas()[j].end_vpn == segments[j].past_page()
            &&& space.areas()[j].map_type == MapType::Framed
            &&& space.areas()[j].perm == segments[j].perm()
        }
    &&& space.areas()[n].start_vpn == stack_bottom_of(segments) / 4096
    &&& space.areas()[n].end_vpn == stack_bottom_of(segments) / 4096 + 2
    &&& space.areas()[n].map_type == MapType::Framed
    &&& space.areas()[n].perm == (MapPermission { r: true, w: true, x: false, u: true })
    &&& space.areas()[n + 1].start_vpn == trampoline_vpn() - 1
    &&& space.areas()[n + 1].end_vpn == trampoline_vpn()
    &&& space.areas()[n + 1].map_type == MapType::Framed
    &&& space.areas()[n + 1].perm == (MapPermission { r: true, w: true, x: false, u: false })
}

/// Whether `space` is the address space of `image`.
pub open spec fn space_of_image(space: &AddressSpace, image: &AppImage) -> bool {
    space_of_segments(space, image.segments@)
}

/// Whether everything that `space` owns and everything still in `pool` was
/// free in `origin`, and nothing that was out of `origin` has come back.
spec fn drawn_from(space: &AddressSpace, pool: &FrameAllocator, origin: &FrameAllocator) -> bool {
    &&& forall|q: usize| space.holds(q) ==> origin.is_free(q)
    &&& forall|q: usize| pool.is_free(q) ==> origin.is_free(q)
    &&& forall|q: usize| origin.is_allocated(q) ==> pool.is_allocated(q)
}

/// Whether `space` and `pool` are sound together and drawn from `origin`.
#[verifier::opaque]
spec fn sound(space: &AddressSpace, pool: &FrameAllocator, origin: &FrameAllocator) -> bool {
    &&& space.wf()
    &&& pool.wf()
    &&& space.backed_by(pool)
    &&& drawn_from(space, pool, origin)
}

/// Adds a framed area for the bytes `start..end` above every area that
/// `space` has. Fails, changing nothing, if the range is too long, reaches
/// the trampoline, or needs more frames than the pool has.
fn append_area(
    space: &mut AddressSpace,
    start: usize,
    end: usize,
    perm: MapPermission,
    pool: &mut FrameAllocator,
    Ghost(origin): Ghost<FrameAllocator>,
) -> (ok: bool)
    requires
        old(space).wf(),
        old(pool).wf(),
        old(space).backed_by(old(pool)),
        drawn_from(old(space), old(pool), &origin),
        start <= end,
        forall|j: int|
            0 <= j < old(space).areas().len() ==> (#[trigger] old(space).areas()[j]).end_vpn
                <= page_floor(start as int),
    ensures
        final(space).wf(),
        final(pool).wf(),
        final(space).backed_by(final(pool)),
        drawn_from(final(space), final(pool), &origin),
        ok <==> {
            &&& end - start <= isize::MAX
            &&& page_ceil(end as int) <= trampoline_vpn()
            &&& page_ceil(end as int) - page_floor(start as int) <= old(pool).free_count()
        },
        !ok ==> *final(space) == *old(space) && *final(pool) == *old(pool),
        ok ==> {
            let a = final(space).areas().last();
            &&& old(space).extended_by(final(space))
            &&& a.start_vpn == page_floor(start as int)
            &&& a.end_vpn == page_ceil(end as int)
            &&& a.map_type == MapType::Framed
            &&& a.perm == perm
            &&& final(pool).free_count() == old(pool).free_count() - (a.end_vpn - a.start_vpn)
        },
{
    assert(space.range_is_clear(page_floor(start as int), page_ceil(end as int)));
    let r = space.insert_framed_area(start, end, perm, pool);
    proof {
        if r >= 0 {
            let count = old(space).areas().len() as int;
            assert forall|q: usize| space.holds(q) implies origin.is_free(q) by {
                if q != space.root() {
                    let i = choose|i: int|
                        0 <= i < space.areas().len() && (#[trigger] space.areas()[i]).holds(q);
                    if i < count {
                        assert(old(space).areas()[i].holds(q));
                        assert(old(space).holds(q));
                    } else {
                        assert(space.areas()[i] == space.areas().last());
                        assert(old(pool).is_free(q));
                    }
                } else {
                    assert(old(space).holds(q));
                }
            }
        }
    }
    r >= 0
}

/// Adds the area of one segment to a space whose areas all end at or below
/// page `max_end`. Returns the first page past the segment; or `None`,
/// changing nothing, if the segment does not fit, starts below `max_end`,
/// or needs more frames than the pool has.
fn load_segment(
    space: &mut AddressSpace,
    seg: &Segment,
    max_end: usize,
    pool: &mut FrameAllocator,
    Ghost(origin): Ghost<FrameAllocator>,
) -> (r: Option<usize>)
    requires
        sound(old(space), old(pool), &origin),
        forall|j: int|
            0 <= j < old(space).areas().len() ==> (#[trigger] old(space).areas()[j]).end_vpn
                <= max_end,
    ensures
        sound(final(space), final(pool), &origin),
        r is Some <==> {
            &&& seg.fits()
            &&& max_end <= seg.first_page()
            &&& seg.past_page() - seg.first_page() <= old(pool).free_count()
        },
        r is None ==> *final(space) == *old(space) && *final(pool) == *old(pool),
        r matches Some(e) ==> {
            let a = final(space).areas().last();
            &&& e == seg.past_page()
            &&& old(space).extended_by(final(space))
            &&& a.start_vpn == seg.first_page()
            &&& a.end_vpn == seg.past_page()
            &&& a.map_type == MapType::Framed
            &&& a.perm == seg.perm()
            &&& final(pool).free_count() == old(pool).free_count() - (seg.past_page()
                - seg.first_page())
        },
{
    reveal(sound);
    let start: usize = seg.start_va;
    let end: usize = match start.checked_add(seg.mem_size) {
        None => {
            return None;
        },
        Some(e) => e,
    };
    if start / 4096 < max_end {
        return None;
    }
    if !append_area(space, start, end, seg.permission(), pool, Ghost(origin)) {
        return None;
    }
    Some(ceil_page(end))
}

/// Builds the address space of an application: the trampoline, one framed
/// area per segment, a user stack one guard page above the image, and the
/// trap-context page just below the trampoline. Returns the space, the
/// initial user stack pointer and the entry point; or `None` if the image
/// cannot be laid out or the pool runs out of frames.
#[verifier::rlimit(40)]
pub fn from_elf(image: &AppImage, trampoline_ppn: usize, pool: &mut FrameAllocator) -> (r: Option<
    (AddressSpace, usize, usize),
>)
    requires
        old(pool).wf(),
    ensures
        final(pool).wf(),
        forall|q: usize| old(pool).is_allocated(q) ==> final(pool).is_allocated(q),
        forall|q: usize| final(pool).is_free(q) ==> old(pool).is_free(q),
        r is Some <==> image.wf() && image.frames_needed() <= old(pool).free_count(),
        r matches Some((space, user_sp, entry)) ==> {
            &&& space.wf()
            &&& space.backed_by(final(pool))
            &&& space.trampoline_frame() == trampoline_ppn
            &&& space_of_image(&space, image)
            &&& user_sp == image.stack_top()
            &&& entry == image.entry
            &&& final(pool).free_count() == old(pool).free_count() - image.frames_needed()
            &&& forall|q: usize| space.holds(q) ==> old(pool).is_free(q)
        },
{
    let ghost pool0 = *pool;
    let ghost segs = image.segments@;
    let mut space = match AddressSpace::new_bare(trampoline_ppn, pool) {
        None => {
            proof {
                if image.wf() {
                    pages_of_grows(segs, 0, segs.len());
                }
            }
            return None;
        },
        Some(s) => s,
    };
    proof {
        assert forall|q: usize| space.holds(q) implies pool0.is_free(q) by {
            assert(space.areas().len() == 0);
        }
        reveal(sound);
    }
    let count: usize = image.segments.len();
    let mut max_end: usize = 0;
    let mut k: usize = 0;
    while k < count
        invariant
            k <= count,
            count == segs.len(),
            segs == image.segments@,
            pool0 == *old(pool),
            sound(&space, pool, &pool0),
            space.trampoline_frame() == trampoline_ppn,
            space.areas().len() == k,
            segments_in_order(segs, k as int),
            max_end == end_page_of(segs, k as int),
            forall|j: int| 0 <= j < k ==> (#[trigger] space.areas()[j]).end_vpn <= max_end,
            forall|j: int|
                0 <= j < k ==> {
                    &&& (#[trigger] space.areas()[j]).start_vpn == segs[j].first_page()
                    &&& space.areas()[j].end_vpn == segs[j].past_page()
                    &&& space.areas()[j].map_type == MapType::Framed
                    &&& space.areas()[j].perm == segs[j].perm()
                },
            pool.free_count() == pool0.free_count() - 1 - pages_of(segs, k as nat),
        decreases count - k,
    {
        let ghost before = space;
        let ghost free = pool.free_count();
        let next_end = match load_segment(&mut space, &image.segments[k], max_end, pool, Ghost(pool0)) {
            None => {
                proof {
                    if image.wf() && image.frames_needed() <= pool0.free_count() {
                        assert(segs[k as int].fits());
                        pages_of_grows(segs, (k + 1) as nat, segs.len());
                    }
                    reveal(sound);
                }
                return None;
            },
            Some(e) => e,
        };
        proof {
            assert(space.areas()[k as int] == space.areas().last());
            assert forall|j: int| 0 <= j < k implies (#[trigger] space.areas()[j])
                == before.areas()[j] by {}
        }
        max_end = next_end;
        k += 1;
    }
    proof {
        reveal(sound);
    }
    finish_space(image, space, max_end, pool, Ghost(pool0))
}

/// Adds the user stack and the trap-context page to a space that holds the
/// segments of `image`.
#[verifier::rlimit(40)]
fn finish_space(
    image: &AppImage,
    space: AddressSpace,
    max_end: usize,
    pool: &mut FrameAllocator,
    Ghost(origin): Ghost<FrameAllocator>,
) -> (r: Option<(AddressSpace, usize, usize)>)
    requires
        old(pool).wf(),
        origin.wf(),
        space.wf(),
        space.backed_by(old(pool)),
        drawn_from(&space, old(pool), &origin),
        space.areas().len() == image.segments@.len(),
        segments_in_order(image.segments@, image.segments@.len() as int),
        max_end == end_page_of(image.segments@, image.segments@.len() as int),
        forall|j: int|
            0 <= j < space.areas().len() ==> (#[trigger] space.areas()[j]).end_vpn <= max_end,
        forall|j: int|
            0 <= j < space.areas().len() ==> {
                &&& (#[trigger] space.areas()[j]).start_vpn == image.segments@[j].first_page()
                &&& space.areas()[j].end_vpn == image.segments@[j].past_page()
                &&& space.areas()[j].map_type == MapType::Framed
                &&& space.areas()[j].perm == image.segments@[j].perm()
            },
        old(pool).free_count() == origin.free_count() - 1 - pages_of(
            image.segments@,
            image.segments@.len(),
        ),
    ensures
        final(pool).wf(),
        r is Some <==> image.wf() && image.frames_needed() <= origin.free_count(),
        r is None ==> drawn_from(&space, final(pool), &origin),
        r matches Some((full, user_sp, entry)) ==> {
            &&& full.wf()
            &&& full.backed_by(final(pool))
            &&& drawn_from(&full, final(pool), &origin)
            &&& full.trampoline_frame() == space.trampoline_frame()
            &&& space_of_image(&full, image)
            &&& user_sp == image.stack_top()
            &&& entry == image.entry
            &&& final(pool).free_count() == origin.free_count() - image.frames_needed()
        },
{
    let mut space = space;
    let ghost first = space;
    let count: usize = image.segments.len();
    let limit: usize = usize::MAX / 4096 - 1;
    if max_end >= limit || limit - max_end < 3 {
        assert(!image.wf());
        return None;
    }
    let stack_bottom: usize = (max_end + 1) * 4096;
    let stack_top: usize = stack_bottom + USER_STACK_SIZE;
    assert(stack_bottom == image.stack_bottom());
    assert(image.wf());
    assert(page_floor(stack_bottom as int) == max_end + 1 && page_ceil(stack_top as int)
        == max_end + 3 && stack_bottom / 4096 == max_end + 1) by {
        assert(stack_top == (max_end + 3) * 4096);
    }
    if !append_area(
        &mut space,
        stack_bottom,
        stack_top,
        MapPermission { r: true, w: true, x: false, u: true },
        pool,
        Ghost(origin),
    ) {
        return None;
    }
    let ghost second = space;
    assert(second.areas()[count as int] == second.areas().last());
    let trap_context: usize = limit * 4096;
    let trampoline: usize = trap_context + 4096;
    assert(page_floor(trap_context as int) == limit && page_ceil(trampoline as int) == limit + 1
        && limit + 1 == trampoline_vpn()) by {
        assert(trampoline == (limit + 1) * 4096);
    }
    assert forall|j: int| 0 <= j < second.areas().len() implies (
    #[trigger] second.areas()[j]).end_vpn <= page_floor(trap_context as int) by {
        if j < count {
            assert(second.areas()[j] == first.areas()[j]);
        }
    }
    if !append_area(
        &mut space,
        trap_context,
        trampoline,
        MapPermission { r: true, w: true, x: false, u: false },
        pool,
        Ghost(origin),
    ) {
        return None;
    }
    proof {
        assert(space.areas()[count + 1] == space.areas().last());
        assert(space.areas()[count as int] == second.areas()[count as int]);
        assert forall|j: int| 0 <= j < count implies (#[trigger] space.areas()[j])
            == first.areas()[j] by {
            assert(second.areas()[j] == first.areas()[j]);
        }
    }
    Some((space, stack_top, image.entry))
}

} // verus!
