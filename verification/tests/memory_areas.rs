use stride_kernel::config::kernel_stack_position;
use stride_kernel::config::KERNEL_STACK_SIZE;
use stride_kernel::config::MAX_APP_LIFETIME_CLOCK;
use stride_kernel::config::PAGE_SIZE;
use stride_kernel::config::TRAMPOLINE;
use stride_kernel::config::TRAP_CONTEXT;
use stride_kernel::frame::FrameAllocator;
use stride_kernel::image::from_elf;
use stride_kernel::image::AppImage;
use stride_kernel::image::Segment;
use stride_kernel::memory::ceil_page;
use stride_kernel::memory::floor_page;
use stride_kernel::memory::page_offset;
use stride_kernel::memory::AddressSpace;
use stride_kernel::memory::MapType;
use stride_kernel::perm::MapPermission;
use stride_kernel::perm::MapProt;

fn user_rw() -> MapPermission {
    MapPermission { r: true, w: true, x: false, u: true }
}

fn sample_image() -> AppImage {
    AppImage {
        entry: 0x1000,
        segments: vec![
            Segment { start_va: 0x0, mem_size: 0x2800, flags: 5, file_offset: 0, file_size: 0 },
            Segment { start_va: 0x3000, mem_size: 0x1000, flags: 6, file_offset: 0, file_size: 0 },
        ],
    }
}

#[test]
fn constants_have_their_values() {
    assert_eq!(PAGE_SIZE, 4096);
    assert_eq!(KERNEL_STACK_SIZE, 8192);
    assert_eq!(MAX_APP_LIFETIME_CLOCK, 750_000_000);
    assert_eq!(TRAMPOLINE, usize::MAX - 4095);
    assert_eq!(TRAP_CONTEXT, usize::MAX - 8191);
}

#[test]
fn kernel_stacks_descend_with_a_guard_page() {
    let (bottom0, top0) = kernel_stack_position(0);
    assert_eq!(top0, TRAMPOLINE);
    assert_eq!(bottom0, TRAMPOLINE - 8192);
    let (bottom1, top1) = kernel_stack_position(1);
    assert_eq!(top1, TRAMPOLINE - 12288);
    assert_eq!(bottom1, TRAMPOLINE - 12288 - 8192);
    assert_eq!(bottom0 - top1, PAGE_SIZE);
    let (bottom5, top5) = kernel_stack_position(5);
    assert_eq!(top5, TRAMPOLINE - 5 * 12288);
    assert_eq!(top5 - bottom5, KERNEL_STACK_SIZE);
}

#[test]
fn page_arithmetic() {
    assert_eq!(page_offset(0x1001), 1);
    assert_eq!(page_offset(0x10000), 0);
    assert_eq!(floor_page(0x1fff), 1);
    assert_eq!(floor_page(0x2000), 2);
    assert_eq!(ceil_page(0x2000), 2);
    assert_eq!(ceil_page(0x2001), 3);
    assert_eq!(ceil_page(0), 0);
    assert_eq!(ceil_page(usize::MAX), usize::MAX / 4096 + 1);
}

#[test]
fn protection_parses_the_three_low_bits() {
    assert_eq!(MapProt::from_bits(0), Some(MapProt { r: false, w: false, x: false }));
    assert_eq!(MapProt::from_bits(1), Some(MapProt { r: true, w: false, x: false }));
    assert_eq!(MapProt::from_bits(2), Some(MapProt { r: false, w: true, x: false }));
    assert_eq!(MapProt::from_bits(3), Some(MapProt { r: true, w: true, x: false }));
    assert_eq!(MapProt::from_bits(4), Some(MapProt { r: false, w: false, x: true }));
    assert_eq!(MapProt::from_bits(7), Some(MapProt::all()));
    assert_eq!(MapProt::from_bits(8), None);
    assert_eq!(MapProt::from_bits(255), None);
}

#[test]
fn protection_round_trips_through_its_bits() {
    for bits in 0u8..8 {
        assert_eq!(MapProt::from_bits(bits).unwrap().bits(), bits);
    }
    assert!(MapProt::from_bits(0).unwrap().is_empty());
    assert!(!MapProt::from_bits(4).unwrap().is_empty());
    assert_eq!(MapProt::all().bits(), 7);
}

#[test]
fn protection_becomes_permission_one_bit_up() {
    for bits in 0u8..8 {
        let prot = MapProt::from_bits(bits).unwrap();
        let perm = MapPermission::from(prot);
        assert_eq!(perm.bits(), bits << 1);
        assert!(!perm.u);
        assert_eq!(perm.with_user().bits(), (bits << 1) | 16);
    }
}

#[test]
fn permission_bits() {
    assert_eq!(MapPermission::kernel_rw().bits(), 6);
    assert_eq!(user_rw().bits(), 22);
    assert_eq!(MapPermission::from_bits_truncate(0xff).bits(), 30);
    assert_eq!(MapPermission::from_bits_truncate(1).bits(), 0);
    assert!(MapPermission::from_bits_truncate(1).is_empty());
    assert!(!MapPermission::from_bits_truncate(8).is_empty());
    assert_eq!(
        MapPermission::from_bits_truncate(10),
        MapPermission { r: true, w: false, x: true, u: false }
    );
}

#[test]
fn pool_hands_out_fresh_frames_in_order() {
    let mut pool = FrameAllocator::new(100, 103);
    assert!(pool.has_free(3));
    assert!(!pool.has_free(4));
    assert_eq!(pool.frame_alloc(), Some(100));
    assert_eq!(pool.frame_alloc(), Some(101));
    assert_eq!(pool.frame_alloc(), Some(102));
    assert_eq!(pool.frame_alloc(), None);
    assert!(pool.has_free(0));
    assert!(!pool.has_free(1));
}

#[test]
fn pool_reuses_recycled_frames_first() {
    let mut pool = FrameAllocator::new(100, 110);
    let a = pool.frame_alloc().unwrap();
    let b = pool.frame_alloc().unwrap();
    pool.frame_dealloc(a);
    assert!(pool.has_free(9));
    assert!(!pool.has_free(10));
    assert_eq!(pool.frame_alloc(), Some(a));
    assert_eq!(pool.frame_alloc(), Some(b + 1));
}

#[test]
fn empty_pool_gives_nothing() {
    let mut pool = FrameAllocator::new(7, 7);
    assert_eq!(pool.frame_alloc(), None);
    assert!(AddressSpace::new_bare(1, &mut pool).is_none());
}

#[test]
fn bare_space_maps_only_the_trampoline() {
    let mut pool = FrameAllocator::new(100, 110);
    let space = AddressSpace::new_bare(0x80200, &mut pool).unwrap();
    assert_eq!(space.area_count(), 0);
    assert_eq!(space.token(), usize::MAX / 2 + 1 + 100);
    let pte = space.translate(usize::MAX / 4096).unwrap();
    assert_eq!(pte.ppn, 0x80200);
    assert_eq!(pte.perm, MapPermission { r: true, w: false, x: true, u: false });
    assert_eq!(space.translate(0), None);
    assert_eq!(space.translate(usize::MAX / 4096 - 1), None);
}

#[test]
fn insert_maps_whole_pages_to_fresh_frames() {
    let mut pool = FrameAllocator::new(100, 110);
    let mut space = AddressSpace::new_bare(1, &mut pool).unwrap();
    let r = space.insert_framed_area(0x10010, 0x12001, user_rw(), &mut pool);
    assert_eq!(r, 0x1ff1);
    assert_eq!(space.area_count(), 1);
    let area = space.area(0);
    assert_eq!(area.start_vpn, 0x10);
    assert_eq!(area.end_vpn, 0x13);
    assert_eq!(area.map_type, MapType::Framed);
    assert_eq!(area.perm, user_rw());
    assert_eq!(area.frames, vec![101, 102, 103]);
    assert_eq!(space.translate(0x10).unwrap().ppn, 101);
    assert_eq!(space.translate(0x12).unwrap().ppn, 103);
    assert_eq!(space.translate(0x12).unwrap().perm, user_rw());
    assert_eq!(space.translate(0x13), None);
    assert_eq!(space.translate(0xf), None);
    assert!(pool.has_free(6));
    assert!(!pool.has_free(7));
}

#[test]
fn insert_refuses_overlap_and_changes_nothing() {
    let mut pool = FrameAllocator::new(100, 110);
    let mut space = AddressSpace::new_bare(1, &mut pool).unwrap();
    assert_eq!(space.insert_framed_area(0x10000, 0x12000, user_rw(), &mut pool), 0x2000);
    assert_eq!(space.insert_framed_area(0x11000, 0x13000, user_rw(), &mut pool), -1);
    assert_eq!(space.insert_framed_area(0xf000, 0x10001, user_rw(), &mut pool), -1);
    assert_eq!(space.area_count(), 1);
    assert!(pool.has_free(7));
    assert!(!pool.has_free(8));
    assert_eq!(space.insert_framed_area(0x12000, 0x13000, user_rw(), &mut pool), 0x1000);
    assert_eq!(space.area_count(), 2);
}

#[test]
fn insert_refuses_bad_ranges() {
    let mut pool = FrameAllocator::new(100, 110);
    let mut space = AddressSpace::new_bare(1, &mut pool).unwrap();
    assert_eq!(space.insert_framed_area(0x2000, 0x1000, user_rw(), &mut pool), -1);
    assert_eq!(space.insert_framed_area(0, usize::MAX, user_rw(), &mut pool), -1);
    assert_eq!(
        space.insert_framed_area(usize::MAX - 4095, usize::MAX, user_rw(), &mut pool),
        -1
    );
    assert_eq!(space.area_count(), 0);
    assert!(pool.has_free(9));
}

#[test]
fn insert_refuses_when_frames_run_out() {
    let mut pool = FrameAllocator::new(100, 103);
    let mut space = AddressSpace::new_bare(1, &mut pool).unwrap();
    assert_eq!(space.insert_framed_area(0x10000, 0x13000, user_rw(), &mut pool), -1);
    assert_eq!(space.area_count(), 0);
    assert!(pool.has_free(2));
    assert_eq!(space.insert_framed_area(0x10000, 0x12000, user_rw(), &mut pool), 0x2000);
    assert!(!pool.has_free(1));
}

#[test]
fn insert_of_an_empty_range_adds_an_empty_area() {
    let mut pool = FrameAllocator::new(100, 110);
    let mut space = AddressSpace::new_bare(1, &mut pool).unwrap();
    assert_eq!(space.insert_framed_area(0x10000, 0x10000, user_rw(), &mut pool), 0);
    assert_eq!(space.area_count(), 1);
    assert_eq!(space.area(0).frames.len(), 0);
    assert_eq!(space.translate(0x10), None);
}

#[test]
fn remove_gives_the_frames_back() {
    let mut pool = FrameAllocator::new(100, 110);
    let mut space = AddressSpace::new_bare(1, &mut pool).unwrap();
    assert_eq!(space.insert_framed_area(0x10000, 0x12000, user_rw(), &mut pool), 0x2000);
    assert_eq!(space.insert_framed_area(0x20000, 0x21000, user_rw(), &mut pool), 0x1000);
    assert!(!pool.has_free(7));
    assert_eq!(space.remove_frame_area(0x10000, 0x12000, &mut pool), 0);
    assert!(pool.has_free(8));
    assert!(!pool.has_free(9));
    assert_eq!(space.area_count(), 1);
    assert_eq!(space.area(0).start_vpn, 0x20);
    assert_eq!(space.translate(0x10), None);
    assert_eq!(space.translate(0x20).unwrap().ppn, 103);
}

#[test]
fn remove_needs_the_exact_range_of_a_user_area() {
    let mut pool = FrameAllocator::new(100, 110);
    let mut space = AddressSpace::new_bare(1, &mut pool).unwrap();
    assert_eq!(space.insert_framed_area(0x10000, 0x12000, user_rw(), &mut pool), 0x2000);
    assert_eq!(
        space.insert_framed_area(0x30000, 0x31000, MapPermission::kernel_rw(), &mut pool),
        0x1000
    );
    assert_eq!(space.remove_frame_area(0x10000, 0x11000, &mut pool), -1);
    assert_eq!(space.remove_frame_area(0x11000, 0x12000, &mut pool), -1);
    assert_eq!(space.remove_frame_area(0x40000, 0x41000, &mut pool), -1);
    assert_eq!(space.remove_frame_area(0x30000, 0x31000, &mut pool), -1);
    assert_eq!(space.area_count(), 2);
    assert_eq!(space.remove_frame_area(0x10001, 0x11fff, &mut pool), 0);
    assert_eq!(space.area_count(), 1);
}

#[test]
fn user_reads_need_one_readable_user_area() {
    let mut pool = FrameAllocator::new(100, 120);
    let mut space = AddressSpace::new_bare(1, &mut pool).unwrap();
    space.insert_framed_area(0x10000, 0x12000, user_rw(), &mut pool);
    space.insert_framed_area(0x20000, 0x21000, MapPermission::kernel_rw(), &mut pool);
    space.insert_framed_area(
        0x30000,
        0x31000,
        MapPermission { r: false, w: true, x: false, u: true },
        &mut pool,
    );
    assert!(space.can_user_read(0x10000, 0x12000));
    assert!(space.can_user_read(0x10800, 0x10800));
    assert!(space.can_user_read(0x11fff, 0x12000));
    assert!(!space.can_user_read(0x10000, 0x12001));
    assert!(!space.can_user_read(0xffff, 0x10010));
    assert!(!space.can_user_read(0x20000, 0x20010));
    assert!(!space.can_user_read(0x30000, 0x30010));
    assert!(!space.can_user_read(0x10010, 0x10000));
}

#[test]
fn segment_flags_become_permissions() {
    let rx = Segment { start_va: 0, mem_size: 1, flags: 5, file_offset: 0, file_size: 0 }.permission();
    assert_eq!(rx, MapPermission { r: true, w: false, x: true, u: true });
    let rw = Segment { start_va: 0, mem_size: 1, flags: 6, file_offset: 0, file_size: 0 }.permission();
    assert_eq!(rw, MapPermission { r: true, w: true, x: false, u: true });
    let none = Segment { start_va: 0, mem_size: 1, flags: 8, file_offset: 0, file_size: 0 }.permission();
    assert_eq!(none, MapPermission { r: false, w: false, x: false, u: true });
}

#[test]
fn image_space_has_segments_stack_and_trap_context() {
    let mut pool = FrameAllocator::new(100, 200);
    let (space, user_sp, entry) = from_elf(&sample_image(), 0x80200, &mut pool).unwrap();
    assert_eq!(entry, 0x1000);
    assert_eq!(user_sp, 0x5000 + 0x2000);
    assert_eq!(space.area_count(), 4);
    assert_eq!((space.area(0).start_vpn, space.area(0).end_vpn), (0, 3));
    assert_eq!(space.area(0).perm, MapPermission { r: true, w: false, x: true, u: true });
    assert_eq!((space.area(1).start_vpn, space.area(1).end_vpn), (3, 4));
    assert_eq!(space.area(1).perm, user_rw());
    assert_eq!((space.area(2).start_vpn, space.area(2).end_vpn), (5, 7));
    assert_eq!(space.area(2).perm, user_rw());
    let top = usize::MAX / 4096;
    assert_eq!((space.area(3).start_vpn, space.area(3).end_vpn), (top - 1, top));
    assert_eq!(space.area(3).perm, MapPermission::kernel_rw());
    assert_eq!(space.translate(4), None);
    assert_eq!(space.translate(top).unwrap().ppn, 0x80200);
    assert!(space.translate(top - 1).is_some());
    assert!(pool.has_free(100 - 8));
    assert!(!pool.has_free(100 - 7));
}

#[test]
fn image_with_segments_out_of_order_is_refused() {
    let mut pool = FrameAllocator::new(100, 200);
    let image = AppImage {
        entry: 0,
        segments: vec![
            Segment { start_va: 0x3000, mem_size: 0x1000, flags: 6, file_offset: 0, file_size: 0 },
            Segment { start_va: 0x0, mem_size: 0x1000, flags: 5, file_offset: 0, file_size: 0 },
        ],
    };
    assert!(from_elf(&image, 1, &mut pool).is_none());
    let overlapping = AppImage {
        entry: 0,
        segments: vec![
            Segment { start_va: 0x0, mem_size: 0x1001, flags: 5, file_offset: 0, file_size: 0 },
            Segment { start_va: 0x1800, mem_size: 0x1000, flags: 6, file_offset: 0, file_size: 0 },
        ],
    };
    assert!(from_elf(&overlapping, 1, &mut pool).is_none());
}

#[test]
fn image_that_wraps_the_address_range_is_refused() {
    let mut pool = FrameAllocator::new(100, 200);
    let image = AppImage {
        entry: 0,
        segments: vec![Segment { start_va: usize::MAX - 10, mem_size: 0x1000, flags: 5, file_offset: 0, file_size: 0 }],
    };
    assert!(from_elf(&image, 1, &mut pool).is_none());
}

#[test]
fn image_needs_its_frames() {
    let mut pool = FrameAllocator::new(100, 107);
    assert!(from_elf(&sample_image(), 1, &mut pool).is_none());
    let mut pool = FrameAllocator::new(100, 108);
    assert!(from_elf(&sample_image(), 1, &mut pool).is_some());
}

#[test]
fn image_without_segments_still_gets_a_stack() {
    let mut pool = FrameAllocator::new(100, 200);
    let image = AppImage { entry: 0x42, segments: vec![] };
    let (space, user_sp, entry) = from_elf(&image, 1, &mut pool).unwrap();
    assert_eq!(entry, 0x42);
    assert_eq!(user_sp, 0x3000);
    assert_eq!(space.area_count(), 2);
    assert_eq!((space.area(0).start_vpn, space.area(0).end_vpn), (1, 3));
}

#[test]
fn identical_area_maps_each_page_to_itself() {
    let mut pool = FrameAllocator::new(100, 110);
    let mut space = AddressSpace::new_bare(1, &mut pool).unwrap();
    let perm = MapPermission { r: true, w: false, x: true, u: false };
    assert_eq!(space.insert_identical_area(0x8020_0000, 0x8020_2800, perm), 0x2800);
    assert_eq!(space.area_count(), 1);
    let area = space.area(0);
    assert_eq!((area.start_vpn, area.end_vpn), (0x80200, 0x80203));
    assert_eq!(area.map_type, MapType::Identical);
    assert!(area.frames.is_empty());
    let pte = space.translate(0x80202).unwrap();
    assert_eq!(pte.ppn, 0x80202);
    assert_eq!(pte.perm, perm);
    assert_eq!(space.translate(0x80203), None);
    assert!(pool.has_free(9));
    assert!(!pool.has_free(10));
}

#[test]
fn identical_area_needs_room() {
    let mut pool = FrameAllocator::new(100, 110);
    let mut space = AddressSpace::new_bare(1, &mut pool).unwrap();
    let perm = MapPermission::kernel_rw();
    assert_eq!(space.insert_identical_area(0x2000, 0x4000, perm), 0x2000);
    assert_eq!(space.insert_identical_area(0x3000, 0x5000, perm), -1);
    assert_eq!(space.insert_identical_area(0x5000, 0x4000, perm), -1);
    assert_eq!(space.insert_identical_area(usize::MAX - 100, usize::MAX, perm), -1);
    assert_eq!(space.insert_framed_area(0x2000, 0x3000, user_rw(), &mut pool), -1);
    assert_eq!(space.area_count(), 1);
    assert_eq!(space.remove_frame_area(0x2000, 0x4000, &mut pool), -1);
}

#[test]
fn release_gives_every_frame_back() {
    let mut pool = FrameAllocator::new(100, 110);
    let mut space = AddressSpace::new_bare(1, &mut pool).unwrap();
    space.insert_framed_area(0x10000, 0x12000, user_rw(), &mut pool);
    space.insert_identical_area(0x8020_0000, 0x8020_1000, MapPermission::kernel_rw());
    space.insert_framed_area(0x20000, 0x23000, user_rw(), &mut pool);
    assert!(pool.has_free(4));
    assert!(!pool.has_free(5));
    space.release(&mut pool);
    assert!(pool.has_free(10));
    assert!(!pool.has_free(11));
    let mut seen = Vec::new();
    while let Some(frame) = pool.frame_alloc() {
        assert!(!seen.contains(&frame));
        seen.push(frame);
    }
    seen.sort();
    assert_eq!(seen, (100..110).collect::<Vec<usize>>());
}
