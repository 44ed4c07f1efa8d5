use stride_kernel::config::kernel_stack_position;
use stride_kernel::config::MAX_APP_LIFETIME_CLOCK;
use stride_kernel::frame::FrameAllocator;
use stride_kernel::image::AppImage;
use stride_kernel::image::Segment;
use stride_kernel::manager::current_mmap;
use stride_kernel::manager::current_munmap;
use stride_kernel::manager::current_sleep_for_ticks;
use stride_kernel::manager::current_user_token;
use stride_kernel::manager::exit_current_and_run_next;
use stride_kernel::manager::run_first_task;
use stride_kernel::manager::set_current_task_priority;
use stride_kernel::manager::suspend_current_and_run_next;
use stride_kernel::manager::test_translate_in_current;
use stride_kernel::scheduler::Dispatch;
use stride_kernel::manager::TaskManager;
use stride_kernel::memory::AddressSpace;
use stride_kernel::perm::MapPermission;
use stride_kernel::task::BootInfo;
use stride_kernel::task::TaskControlBlock;
use stride_kernel::task::TaskStatus;

const NAMES: [&str; 6] = ["app0", "app1", "app2", "app3", "app4", "app5"];

fn image() -> AppImage {
    AppImage {
        entry: 0x1000,
        segments: vec![
            Segment { start_va: 0x0, mem_size: 0x3000, flags: 5, file_offset: 0, file_size: 0 },
            Segment { start_va: 0x3000, mem_size: 0x2000, flags: 6, file_offset: 0, file_size: 0 },
        ],
    }
}

fn boot() -> BootInfo {
    BootInfo { trap_handler: 0x8020_1000, trap_return: 0x8020_2000, sstatus: 0x122 }
}

fn manager_with_frames(n: usize, frames: usize) -> Option<TaskManager> {
    let mut pool = FrameAllocator::new(0x80400, 0x80400 + frames);
    let kernel = AddressSpace::new_bare(0x80200, &mut pool)?;
    let images: Vec<AppImage> = (0..n).map(|_| image()).collect();
    let names: Vec<&'static str> = NAMES[..n].to_vec();
    TaskManager::new(&images, &names, &boot(), kernel, pool)
}

fn manager(n: usize) -> TaskManager {
    manager_with_frames(n, 1024).unwrap()
}

fn started(n: usize) -> TaskManager {
    let mut m = manager(n);
    assert_eq!(run_first_task(&mut m, 10), Dispatch::Launch { to: 0 });
    m
}

fn statuses(m: &TaskManager) -> Vec<TaskStatus> {
    (0..m.num_app()).map(|i| m.task(i).task_status).collect()
}

#[test]
fn new_tasks_are_ready_with_default_scheduling_fields() {
    let m = manager(3);
    assert_eq!(m.num_app(), 3);
    assert_eq!(m.get_current_app(), 0);
    for i in 0..3 {
        let t = m.task(i);
        assert_eq!(t.task_status, TaskStatus::Ready);
        assert_eq!(t.task_name, NAMES[i]);
        assert_eq!(t.task_stride.value, 0);
        assert_eq!(t.task_priority, 16);
        assert_eq!(t.task_awake_time, 0);
        assert_eq!(t.task_elapse_time, 0);
        assert_eq!(t.task_last_switch_time, 0);
        assert_eq!(t.base_size, 0x8000);
        assert_eq!(t.memory_set.area_count(), 4);
    }
}

#[test]
fn new_tasks_get_their_trap_context_and_continuation() {
    let m = manager(2);
    let kernel_token = m.kernel().token();
    for i in 0..2 {
        let (_, kernel_stack_top) = kernel_stack_position(i);
        let cx = m.trap_cx(i);
        assert_eq!(cx.sepc, 0x1000);
        assert_eq!(cx.x[2], 0x8000);
        for r in 0..32 {
            if r != 2 {
                assert_eq!(cx.x[r], 0);
            }
        }
        assert_eq!(cx.kernel_satp, kernel_token);
        assert_eq!(cx.kernel_sp, kernel_stack_top);
        assert_eq!(cx.trap_handler, 0x8020_1000);
        assert_eq!(cx.sstatus, 0x22);
        let t = m.task(i);
        assert_eq!(t.task_cx.ra, 0x8020_2000);
        assert_eq!(t.task_cx.sp, kernel_stack_top);
        assert_eq!(t.task_cx.s, [0; 12]);
        let top = usize::MAX / 4096;
        assert_eq!(t.trap_cx_ppn, t.memory_set.translate(top - 1).unwrap().ppn);
        assert_eq!(t.get_user_token(), t.memory_set.token());
    }
}

#[test]
fn kernel_stacks_are_mapped_in_the_kernel_space() {
    let m = manager(3);
    let kernel = m.kernel();
    assert_eq!(kernel.area_count(), 3);
    for i in 0..3 {
        let (bottom, top) = kernel_stack_position(i);
        let area = kernel.area(i);
        assert_eq!(area.start_vpn, bottom / 4096);
        assert_eq!(area.end_vpn, top / 4096);
        assert_eq!(area.perm, MapPermission::kernel_rw());
        assert_eq!(area.frames.len(), 2);
    }
    let (bottom0, _) = kernel_stack_position(0);
    assert_eq!(kernel.translate(bottom0 / 4096 - 1), None);
}

#[test]
fn tasks_share_no_frame() {
    let m = manager(3);
    let mut seen: Vec<usize> = Vec::new();
    let mut spaces: Vec<&AddressSpace> = vec![m.kernel()];
    for i in 0..3 {
        spaces.push(&m.task(i).memory_set);
    }
    for space in spaces {
        for a in 0..space.area_count() {
            for f in &space.area(a).frames {
                assert!(!seen.contains(f));
                seen.push(*f);
            }
        }
    }
    assert_eq!(seen.len(), 3 * 2 + 3 * 8);
}

#[test]
fn manager_needs_a_task_a_name_each_and_enough_frames() {
    assert!(manager_with_frames(0, 1024).is_none());
    assert!(manager_with_frames(2, 1 + 2 * 11).is_some());
    assert!(manager_with_frames(2, 2 * 11).is_none());
    let mut pool = FrameAllocator::new(0x80400, 0x80800);
    let kernel = AddressSpace::new_bare(0x80200, &mut pool).unwrap();
    let images = vec![image(), image()];
    let names: Vec<&'static str> = vec!["only"];
    assert!(TaskManager::new(&images, &names, &boot(), kernel, pool).is_none());
}

#[test]
fn manager_counts_its_free_frames() {
    let m = manager_with_frames(2, 100).unwrap();
    assert!(m.has_free_frames(100 - 1 - 22));
    assert!(!m.has_free_frames(100 - 22));
}

#[test]
fn task_creation_refuses_a_taken_kernel_stack_slot() {
    let mut pool = FrameAllocator::new(0x80400, 0x80800);
    let mut kernel = AddressSpace::new_bare(0x80200, &mut pool).unwrap();
    let first = TaskControlBlock::from_image(&image(), 0, "a", &boot(), &mut kernel, &mut pool);
    assert!(first.is_some());
    let again = TaskControlBlock::from_image(&image(), 0, "b", &boot(), &mut kernel, &mut pool);
    assert!(again.is_none());
    let beyond = TaskControlBlock::from_image(&image(), usize::MAX / 12288, "c", &boot(), &mut kernel, &mut pool);
    assert!(beyond.is_none());
}

#[test]
fn first_task_runs_without_advancing_its_stride() {
    let m = started(3);
    assert_eq!(statuses(&m), vec![TaskStatus::Running, TaskStatus::Ready, TaskStatus::Ready]);
    assert_eq!(m.task(0).task_stride.value, 0);
    assert_eq!(m.task(0).task_last_switch_time, 10);
    assert_eq!(m.get_current_app(), 0);
}

#[test]
fn scan_starts_after_the_current_task() {
    let m = started(3);
    assert_eq!(m.find_next_task(11), Some(1));
}

#[test]
fn ties_go_to_the_first_task_scanned() {
    let mut m = started(4);
    assert_eq!(suspend_current_and_run_next(&mut m, 11), Dispatch::Switch { from: 0, to: 1 });
    assert_eq!(m.task(1).task_stride.value, 4095);
    assert_eq!(suspend_current_and_run_next(&mut m, 12), Dispatch::Switch { from: 1, to: 2 });
    assert_eq!(suspend_current_and_run_next(&mut m, 13), Dispatch::Switch { from: 2, to: 3 });
    assert_eq!(suspend_current_and_run_next(&mut m, 14), Dispatch::Switch { from: 3, to: 0 });
    assert_eq!(m.task(0).task_stride.value, 4095);
    assert_eq!(suspend_current_and_run_next(&mut m, 15), Dispatch::Switch { from: 0, to: 1 });
    assert_eq!(m.task(1).task_stride.value, 8190);
}

#[test]
fn the_least_stride_wins() {
    let mut m = started(3);
    assert_eq!(suspend_current_and_run_next(&mut m, 11), Dispatch::Switch { from: 0, to: 1 });
    assert_eq!(suspend_current_and_run_next(&mut m, 12), Dispatch::Switch { from: 1, to: 2 });
    assert_eq!(suspend_current_and_run_next(&mut m, 13), Dispatch::Switch { from: 2, to: 0 });
    let strides: Vec<u16> = (0..3).map(|i| m.task(i).task_stride.value).collect();
    assert_eq!(strides, vec![4095, 4095, 4095]);
}

#[test]
fn switch_marks_exactly_one_task_running() {
    let mut m = started(3);
    for now in 11..40 {
        let d = suspend_current_and_run_next(&mut m, now);
        let to = match d {
            Dispatch::Switch { to, .. } => to,
            _ => panic!("a task was ready"),
        };
        assert_eq!(m.get_current_app(), to);
        let running: Vec<usize> =
            (0..3).filter(|i| m.task(*i).task_status == TaskStatus::Running).collect();
        assert_eq!(running, vec![to]);
        assert_eq!(m.task(to).task_last_switch_time, now);
    }
}

#[test]
fn a_lone_task_is_rescheduled_onto_itself() {
    let mut m = started(1);
    assert_eq!(suspend_current_and_run_next(&mut m, 11), Dispatch::Switch { from: 0, to: 0 });
    assert_eq!(m.task(0).task_status, TaskStatus::Running);
    assert_eq!(m.task(0).task_stride.value, 4095);
    assert_eq!(m.task(0).task_elapse_time, 1);
}

#[test]
fn priority_sets_the_stride_step() {
    let mut m = started(2);
    set_current_task_priority(&mut m, 2);
    assert_eq!(m.task(0).task_priority, 2);
    assert_eq!(suspend_current_and_run_next(&mut m, 11), Dispatch::Switch { from: 0, to: 1 });
    assert_eq!(suspend_current_and_run_next(&mut m, 12), Dispatch::Switch { from: 1, to: 0 });
    assert_eq!(m.task(0).task_stride.value, 32767);
    assert_eq!(m.task(1).task_stride.value, 4095);
}

#[test]
fn share_of_the_processor_follows_the_priority() {
    let mut m = started(2);
    set_current_task_priority(&mut m, 2);
    let mut picked = [0usize; 2];
    for round in 0..9000 {
        match suspend_current_and_run_next(&mut m, 11 + round) {
            Dispatch::Switch { to, .. } => picked[to] += 1,
            _ => panic!("a task was ready"),
        }
    }
    assert_eq!(picked[0] + picked[1], 9000);
    let ratio = picked[1] as f64 / picked[0] as f64;
    assert!(ratio > 7.9 && ratio < 8.1, "ratio {}", ratio);
}

#[test]
fn scheduler_passes_over_tasks_that_are_not_ready() {
    let mut m = started(3);
    assert_eq!(exit_current_and_run_next(&mut m, 11), Dispatch::Switch { from: 0, to: 1 });
    assert_eq!(m.task(0).task_status, TaskStatus::Exited);
    for now in 12..30 {
        match suspend_current_and_run_next(&mut m, now) {
            Dispatch::Switch { to, .. } => assert_ne!(to, 0),
            _ => panic!("a task was ready"),
        }
        assert_eq!(m.task(0).task_status, TaskStatus::Exited);
    }
}

#[test]
fn halt_when_every_task_has_exited() {
    let mut m = started(2);
    assert_eq!(exit_current_and_run_next(&mut m, 11), Dispatch::Switch { from: 0, to: 1 });
    assert_eq!(exit_current_and_run_next(&mut m, 12), Dispatch::Halt);
    assert_eq!(statuses(&m), vec![TaskStatus::Exited, TaskStatus::Exited]);
    assert_eq!(m.find_next_task(13), None);
}

#[test]
fn exit_accounts_for_the_time_run() {
    let mut m = started(2);
    exit_current_and_run_next(&mut m, 510);
    assert_eq!(m.task(0).task_elapse_time, 500);
    assert_eq!(m.task(1).task_last_switch_time, 510);
}

#[test]
fn sleeper_is_passed_over_until_its_tick_has_passed() {
    let mut m = started(2);
    let d = current_sleep_for_ticks(&mut m, 1_250_000, 1000);
    assert_eq!(d, Dispatch::Switch { from: 0, to: 1 });
    assert_eq!(m.task(0).task_awake_time, 1_251_000);
    assert_eq!(m.task(0).task_status, TaskStatus::Ready);
    assert_eq!(suspend_current_and_run_next(&mut m, 2000), Dispatch::Switch { from: 1, to: 1 });
    assert_eq!(
        suspend_current_and_run_next(&mut m, 1_251_000),
        Dispatch::Switch { from: 1, to: 1 }
    );
    assert_eq!(
        suspend_current_and_run_next(&mut m, 1_251_001),
        Dispatch::Switch { from: 1, to: 0 }
    );
}

#[test]
fn halt_when_the_only_task_sleeps() {
    let mut m = started(1);
    assert_eq!(current_sleep_for_ticks(&mut m, 100, 1000), Dispatch::Halt);
    assert_eq!(m.task(0).task_status, TaskStatus::Ready);
    assert_eq!(m.find_next_task(1100), None);
    assert_eq!(m.find_next_task(1101), Some(0));
}

#[test]
fn a_task_at_tick_zero_is_not_yet_awake() {
    let m = manager(2);
    assert_eq!(m.find_next_task(0), None);
    assert_eq!(m.find_next_task(1), Some(1));
}

#[test]
fn a_task_past_the_lifetime_ceiling_is_ended_when_suspended() {
    let mut m = started(2);
    let d = suspend_current_and_run_next(&mut m, 10 + MAX_APP_LIFETIME_CLOCK);
    assert_eq!(d, Dispatch::Switch { from: 0, to: 1 });
    assert_eq!(m.task(0).task_status, TaskStatus::Ready);
    assert_eq!(m.task(0).task_elapse_time, MAX_APP_LIFETIME_CLOCK);
    let now = 20 + MAX_APP_LIFETIME_CLOCK;
    assert_eq!(suspend_current_and_run_next(&mut m, now), Dispatch::Switch { from: 1, to: 0 });
    let d = suspend_current_and_run_next(&mut m, now + 1);
    assert_eq!(m.task(0).task_status, TaskStatus::Exited);
    assert_eq!(m.task(0).task_elapse_time, MAX_APP_LIFETIME_CLOCK + 1);
    assert_eq!(d, Dispatch::Switch { from: 0, to: 1 });
    assert_eq!(suspend_current_and_run_next(&mut m, now + 2), Dispatch::Switch { from: 1, to: 1 });
}

#[test]
fn run_time_adds_up_over_slices() {
    let mut m = started(2);
    suspend_current_and_run_next(&mut m, 110);
    suspend_current_and_run_next(&mut m, 150);
    suspend_current_and_run_next(&mut m, 175);
    assert_eq!(m.task(0).task_elapse_time, 100 + 25);
    assert_eq!(m.task(1).task_elapse_time, 40);
}

#[test]
fn mmap_of_a_misaligned_start_fails_and_changes_nothing() {
    let mut m = started(2);
    let before = m.task(0).memory_set.area_count();
    assert_eq!(current_mmap(&mut m, 0x1001, 0x1000, 3), -1);
    assert_eq!(m.task(0).memory_set.area_count(), before);
    assert!(m.has_free_frames(1024 - 1 - 22));
    assert!(!m.has_free_frames(1024 - 22));
}

#[test]
fn mmap_of_an_empty_or_unknown_protection_fails() {
    let mut m = started(2);
    assert_eq!(current_mmap(&mut m, 0x10000, 0x1000, 0), -1);
    assert_eq!(current_mmap(&mut m, 0x10000, 0x1000, 8), -1);
    assert_eq!(current_mmap(&mut m, 0x10000, 0x1000, 0x103), -1);
    assert_eq!(current_mmap(&mut m, 0x10000, 0x1000, usize::MAX), -1);
    assert_eq!(m.task(0).memory_set.area_count(), 4);
}

#[test]
fn mmap_munmap_mmap_round_trip() {
    let mut m = started(2);
    assert_eq!(current_mmap(&mut m, 0x10000, 0x1000, 3), 0x1000);
    assert_eq!(m.task(0).memory_set.area_count(), 5);
    assert!(!m.has_free_frames(1024 - 23));
    assert_eq!(current_munmap(&mut m, 0x10000, 0x1000), 0);
    assert_eq!(m.task(0).memory_set.area_count(), 4);
    assert!(m.has_free_frames(1024 - 23));
    assert_eq!(current_mmap(&mut m, 0x10000, 0x1000, 3), 0x1000);
    assert_eq!(m.task(0).memory_set.area_count(), 5);
}

#[test]
fn mmap_maps_user_pages_with_the_rights_asked_for() {
    let mut m = started(2);
    assert_eq!(current_mmap(&mut m, 0x10000, 0x1800, 5), 0x1800);
    let pte = test_translate_in_current(&m, 0x11234).unwrap();
    assert_eq!(pte.perm, MapPermission { r: true, w: false, x: true, u: true });
    assert_eq!(test_translate_in_current(&m, 0x12000), None);
    let area = m.task(0).memory_set.area(4);
    assert_eq!((area.start_vpn, area.end_vpn), (0x10, 0x12));
    assert_eq!(m.task(1).memory_set.area_count(), 4);
}

#[test]
fn mmap_over_mapped_pages_fails() {
    let mut m = started(2);
    assert_eq!(current_mmap(&mut m, 0x0, 0x1000, 3), -1);
    assert_eq!(current_mmap(&mut m, 0x6000, 0x1000, 3), -1);
    assert_eq!(current_mmap(&mut m, 0x10000, 0x2000, 3), 0x2000);
    assert_eq!(current_mmap(&mut m, 0x11000, 0x1000, 3), -1);
    assert_eq!(current_mmap(&mut m, usize::MAX - 8191, 0x1000, 3), -1);
    assert_eq!(current_mmap(&mut m, 0x20000, usize::MAX, 3), -1);
}

#[test]
fn mmap_fails_when_frames_run_out() {
    let mut m = manager_with_frames(1, 1 + 11 + 2).unwrap();
    run_first_task(&mut m, 1);
    assert_eq!(current_mmap(&mut m, 0x10000, 0x3000, 3), -1);
    assert_eq!(current_mmap(&mut m, 0x10000, 0x2000, 3), 0x2000);
    assert_eq!(current_mmap(&mut m, 0x20000, 0x1000, 3), -1);
    assert_eq!(current_munmap(&mut m, 0x10000, 0x2000), 0);
    assert_eq!(current_mmap(&mut m, 0x20000, 0x1000, 3), 0x1000);
}

#[test]
fn munmap_fails_on_misaligned_or_unmapped_ranges() {
    let mut m = started(2);
    assert_eq!(current_mmap(&mut m, 0x10000, 0x2000, 3), 0x2000);
    assert_eq!(current_munmap(&mut m, 0x10001, 0x1000), -1);
    assert_eq!(current_munmap(&mut m, 0x10000, 0x1000), -1);
    assert_eq!(current_munmap(&mut m, 0x30000, 0x1000), -1);
    assert_eq!(current_munmap(&mut m, 0x10000, usize::MAX), -1);
    assert_eq!(m.task(0).memory_set.area_count(), 5);
    assert_eq!(current_munmap(&mut m, 0x10000, 0x2000), 0);
    assert_eq!(current_munmap(&mut m, 0x10000, 0x2000), -1);
}

#[test]
fn munmap_cannot_take_the_trap_context_away() {
    let mut m = started(2);
    assert_eq!(current_munmap(&mut m, usize::MAX - 8191, 0x1000), -1);
    assert_eq!(m.task(0).memory_set.area_count(), 4);
    assert!(test_translate_in_current(&m, usize::MAX - 8191).is_some());
    assert!(test_translate_in_current(&m, usize::MAX - 4095).is_some());
}

#[test]
fn mmap_touches_only_the_current_task() {
    let mut m = started(2);
    assert_eq!(suspend_current_and_run_next(&mut m, 11), Dispatch::Switch { from: 0, to: 1 });
    assert_eq!(current_mmap(&mut m, 0x10000, 0x1000, 3), 0x1000);
    assert_eq!(m.task(0).memory_set.area_count(), 4);
    assert_eq!(m.task(1).memory_set.area_count(), 5);
    assert_eq!(current_user_token(&m), m.task(1).get_user_token());
}

#[test]
fn the_least_stride_wins_wherever_the_scan_meets_it() {
    let mut m = started(3);
    set_current_task_priority(&mut m, 16);
    assert_eq!(suspend_current_and_run_next(&mut m, 11), Dispatch::Switch { from: 0, to: 1 });
    set_current_task_priority(&mut m, 2);
    assert_eq!(suspend_current_and_run_next(&mut m, 12), Dispatch::Switch { from: 1, to: 2 });
    set_current_task_priority(&mut m, 4);
    assert_eq!(suspend_current_and_run_next(&mut m, 13), Dispatch::Switch { from: 2, to: 0 });
    let strides: Vec<u16> = (0..3).map(|i| m.task(i).task_stride.value).collect();
    assert_eq!(strides, vec![4095, 4095, 4095]);
    assert_eq!(suspend_current_and_run_next(&mut m, 14), Dispatch::Switch { from: 0, to: 1 });
    assert_eq!(suspend_current_and_run_next(&mut m, 15), Dispatch::Switch { from: 1, to: 2 });
    let strides: Vec<u16> = (0..3).map(|i| m.task(i).task_stride.value).collect();
    assert_eq!(strides, vec![4095, 4095 + 32767, 4095 + 16383]);
    assert_eq!(suspend_current_and_run_next(&mut m, 16), Dispatch::Switch { from: 2, to: 0 });
    assert_eq!(suspend_current_and_run_next(&mut m, 17), Dispatch::Switch { from: 0, to: 0 });
    assert_eq!(suspend_current_and_run_next(&mut m, 18), Dispatch::Switch { from: 0, to: 0 });
    assert_eq!(m.task(0).task_stride.value, 4 * 4095);
    assert_eq!(suspend_current_and_run_next(&mut m, 19), Dispatch::Switch { from: 0, to: 0 });
    assert_eq!(m.task(0).task_stride.value, 5 * 4095);
    assert_eq!(suspend_current_and_run_next(&mut m, 20), Dispatch::Switch { from: 0, to: 0 });
    assert_eq!(m.task(0).task_stride.value, 6 * 4095);
    assert_eq!(suspend_current_and_run_next(&mut m, 21), Dispatch::Switch { from: 0, to: 2 });
    assert_eq!(suspend_current_and_run_next(&mut m, 22), Dispatch::Switch { from: 2, to: 0 });
}

#[test]
fn fairness_survives_the_wraparound_of_the_counter() {
    let mut m = started(2);
    let mut picked = [0usize; 2];
    let mut last = 0;
    for round in 0..200 {
        match suspend_current_and_run_next(&mut m, 11 + round) {
            Dispatch::Switch { from, to } => {
                assert_eq!(from, last);
                assert_ne!(to, from);
                picked[to] += 1;
                last = to;
            },
            _ => panic!("a task was ready"),
        }
    }
    assert_eq!(picked, [100, 100]);
    assert!(m.task(0).task_stride.value < 65535 / 2 || m.task(1).task_stride.value < 65535);
    assert_eq!(m.task(1).task_stride.value, (100u32 * 4095 % 65536) as u16);
}

#[test]
fn every_task_has_the_trampoline_where_the_kernel_has_it() {
    let mut m = started(3);
    current_mmap(&mut m, 0x10000, 0x1000, 3);
    let top = usize::MAX / 4096;
    let in_kernel = m.kernel().translate(top).unwrap();
    assert_eq!(in_kernel.ppn, 0x80200);
    assert_eq!(in_kernel.perm, MapPermission { r: true, w: false, x: true, u: false });
    for i in 0..3 {
        assert_eq!(m.task(i).memory_set.translate(top), Some(in_kernel));
        assert_eq!(m.task(i).memory_set.trampoline_ppn(), m.kernel().trampoline_ppn());
    }
}
