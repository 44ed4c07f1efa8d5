//! The task control block: everything the kernel keeps about one task.

use crate::config::kernel_stack_fits;
use crate::config::kernel_stack_position;
use crate::config::KERNEL_STACK_SIZE;
use crate::config::kernel_stack_top;
use crate::config::PAGE_SIZE;
use crate::config::TRAMPOLINE;
use crate::context::TaskContext;
use crate::context::TrapContext;
use crate::context::user_sstatus;
use crate::elf::elf_entry;
use crate::elf::elf_header_count;
use crate::elf::elf_ok;
use crate::elf::loads;
use crate::frame::FrameAllocator;
use crate::image::AppImage;
use crate::image::frames_of;
use crate::image::from_elf;
use crate::image::layout_ok;
use crate::image::Segment;
use crate::image::space_of_segments;
use crate::image::stack_top_of;
use crate::memory::AddressSpace;
use crate::memory::MapType;
use crate::memory::page_ceil;
use crate::memory::page_floor;
use crate::memory::trampoline_vpn;
use crate::perm::MapPermission;
use crate::stride::Stride;
use vstd::prelude::*;

verus! {

/// Where a task stands in its life. A task is created `Ready`, alternates
/// between `Ready` and `Running`, and ends `Exited`, for good.
#[derive(Clone, Copy, Debug, PartialEq, Eq, Structural)]
pub enum TaskStatus {
    UnInit,
    Ready,
    Running,
    Exited,
}

/// The priority that a task starts with.
pub const DEFAULT_PRIORITY: u16 = 16;

/// The state of one task.
pub struct TaskControlBlock {
    /// The continuation to resume the task's kernel-side control flow.
    pub task_cx: TaskContext,
    pub task_status: TaskStatus,
    /// The task's address space.
    pub memory_set: AddressSpace,
    /// The frame that holds the task's trap context.
    pub trap_cx_ppn: usize,
    /// The top of the user stack at creation.
    pub base_size: usize,
    pub task_name: &'static str,
    pub task_stride: Stride,
    /// The weight of the task: positive, and the larger the more often run.
    pub task_priority: u16,
    /// The tick after which the task may run again; 0 for at once.
    pub task_awake_time: usize,
    /// Ticks the task has spent scheduled in, up to its last suspension.
    pub task_elapse_time: usize,
    /// The tick at which the task was last scheduled in.
    pub task_last_switch_time: usize,
}

/// What the kernel knows of the machine when it creates tasks.
#[derive(Clone, Copy, Debug)]
pub struct BootInfo {
    /// The address of the kernel's trap handler.
    pub trap_handler: usize,
    /// The address of the kernel's trap-return routine.
    pub trap_return: usize,
    /// The value of the status register.
    pub sstatus: usize,
}

/// The first page of the kernel stack of slot `app_id`.
pub open spec fn kernel_stack_first_page(app_id: int) -> int {
    page_floor(kernel_stack_top(app_id) - KERNEL_STACK_SIZE)
}

/// The first page past the kernel stack of slot `app_id`.
pub open spec fn kernel_stack_past_page(app_id: int) -> int {
    page_ceil(kernel_stack_top(app_id))
}

/// Whether a task can be created for `image` in slot `app_id`: the image
/// can be laid out, the slot's kernel stack lies inside the address range
/// and on pages that the kernel space has not mapped, and the pool has the
/// frames for the task's address space and its kernel stack.
pub open spec fn can_create(
    image: &AppImage,
    app_id: usize,
    kernel_space: &AddressSpace,
    pool: &FrameAllocator,
) -> bool {
    can_create_from(image.segments@, app_id, kernel_space, pool)
}

/// Whether a task can be created for an image of the given segments in
/// slot `app_id`.
pub open spec fn can_create_from(
    segments: Seq<Segment>,
    app_id: usize,
    kernel_space: &AddressSpace,
    pool: &FrameAllocator,
) -> bool {
    &&& layout_ok(segments)
    &&& kernel_stack_fits(app_id as int)
    &&& kernel_space.range_is_clear(
        kernel_stack_first_page(app_id as int),
        kernel_stack_past_page(app_id as int),
    )
    &&& frames_of(segments) + 2 <= pool.free_count()
}

/// Whether `t` and `cx` are the task and the trap context created in slot
/// `app_id` under the name `app_name` for an image of the given segments
/// and entry point, where the kernel space grew from `kernel_space` to
/// `next_space` and the pool shrank from `pool` to `next_pool`.
///
/// The task owns the address space of the image, on frames that were free.
/// The kernel space has gained the task's kernel stack. The task is ready,
/// with stride 0, the default priority and no time on its record. Its
/// continuation resumes at the trap-return routine on its kernel stack, and
/// its trap context enters the image at the entry point on the user stack.
pub open spec fn created(
    t: TaskControlBlock,
    cx: TrapContext,
    segments: Seq<Segment>,
    entry: int,
    app_id: usize,
    app_name: &'static str,
    boot: &BootInfo,
    kernel_space: &AddressSpace,
    next_space: &AddressSpace,
    pool: &FrameAllocator,
    next_pool: &FrameAllocator,
) -> bool {
    let stack = next_space.areas().last();
    &&& t.wf()
    &&& t.memory_set.backed_by(next_pool)
    &&& t.memory_set.trampoline_frame() == kernel_space.trampoline_frame()
    &&& space_of_segments(&t.memory_set, segments)
    &&& forall|q: usize| t.memory_set.holds(q) ==> pool.is_free(q)
    &&& forall|q: usize| t.memory_set.holds(q) ==> !next_space.holds(q)
    &&& kernel_space.extended_by(next_space)
    &&& stack.start_vpn == kernel_stack_first_page(app_id as int)
    &&& stack.end_vpn == kernel_stack_past_page(app_id as int)
    &&& stack.map_type == MapType::Framed
    &&& stack.perm == (MapPermission { r: true, w: true, x: false, u: false })
    &&& next_pool.free_count() == pool.free_count() - frames_of(segments) - 2
    &&& t.task_status == TaskStatus::Ready
    &&& t.task_name == app_name
    &&& t.task_stride.value == 0
    &&& t.task_priority == DEFAULT_PRIORITY
    &&& t.task_awake_time == 0
    &&& t.task_elapse_time == 0
    &&& t.task_last_switch_time == 0
    &&& t.base_size == stack_top_of(segments)
    &&& Some(t.trap_cx_ppn) == match t.memory_set.mapping(trampoline_vpn() - 1) {
        Some(pte) => Some(pte.ppn),
        None => None,
    }
    &&& t.task_cx.ra == boot.trap_return
    &&& t.task_cx.sp == kernel_stack_top(app_id as int)
    &&& t.task_cx.s@ == Seq::new(12, |i: int| 0usize)
    &&& cx.x@ == Seq::new(32, |i: int| 0usize).update(2, t.base_size)
    &&& cx.sstatus == user_sstatus(boot.sstatus)
    &&& cx.sepc == entry
    &&& cx.kernel_satp == usize::MAX / 2 + 1 + kernel_space.root()
    &&& cx.kernel_sp == kernel_stack_top(app_id as int)
    &&& cx.trap_handler == boot.trap_handler
}

/// The kernel stack of slot `app_id` takes the two pages just below its
/// top, and the top is page-aligned.
pub proof fn kernel_stack_pages(app_id: int)
    requires
        kernel_stack_fits(app_id),
    ensures
        kernel_stack_past_page(app_id) == trampoline_vpn() - 3 * app_id,
        kernel_stack_first_page(app_id) == trampoline_vpn() - 3 * app_id - 2,
        kernel_stack_top(app_id) == (trampoline_vpn() - 3 * app_id) * 4096,
{
    let t = trampoline_vpn();
    assert(TRAMPOLINE == t * 4096) by {
        assert(usize::MAX % 4096 == 4095) by {
            assert(usize::MAX == 0xffff_ffff || usize::MAX == 0xffff_ffff_ffff_ffff);
        }
    }
    assert(kernel_stack_top(app_id) == (t - 3 * app_id) * 4096) by (nonlinear_arith)
        requires
            kernel_stack_top(app_id) == t * 4096 - app_id * (8192 + 4096),
    ;
    let top = kernel_stack_top(app_id);
    assert(top / 4096 == t - 3 * app_id);
    assert((top + 4095) / 4096 == t - 3 * app_id);
    assert((top - 8192) / 4096 == t - 3 * app_id - 2);
}

impl TaskControlBlock {
    /// Creates the task of the ELF file `elf_data` in slot `app_id`: builds its address
    /// space, maps its kernel stack in the kernel space, and prepares its
    /// trap context to enter the application at its entry point on its user
    /// stack. The task is ready, with stride 0 and the default priority.
    /// Returns the task and the initial contents of its trap-context page;
    /// `None` if the bytes are no ELF file that an image can be read from, or
    /// the task cannot be created.
    pub fn new(
        elf_data: &[u8],
        app_id: usize,
        app_name: &'static str,
        boot: &BootInfo,
        kernel_space: &mut AddressSpace,
        pool: &mut FrameAllocator,
    ) -> (r: Option<(TaskControlBlock, TrapContext)>)
        requires
            old(kernel_space).wf(),
            old(pool).wf(),
            old(kernel_space).backed_by(old(pool)),
        ensures
            final(kernel_space).wf(),
            final(pool).wf(),
            final(kernel_space).backed_by(final(pool)),
            final(kernel_space).root() == old(kernel_space).root(),
            forall|q: usize| old(pool).is_allocated(q) ==> final(pool).is_allocated(q),
            forall|q: usize|
                final(kernel_space).holds(q) ==> old(kernel_space).holds(q) || old(pool).is_free(
                    q,
                ),
            final(kernel_space).areas().len() >= old(kernel_space).areas().len(),
            forall|j: int|
                0 <= j < old(kernel_space).areas().len() ==> final(kernel_space).areas()[j] == old(
                    kernel_space,
                ).areas()[j],
            r is Some <==> elf_ok(elf_data@) && can_create_from(
                loads(elf_data@, elf_header_count(elf_data@) as nat),
                app_id,
                old(kernel_space),
                old(pool),
            ),
            r matches Some((t, cx)) ==> created(
                t,
                cx,
                loads(elf_data@, elf_header_count(elf_data@) as nat),
                elf_entry(elf_data@),
                app_id,
                app_name,
                boot,
                old(kernel_space),
                final(kernel_space),
                old(pool),
                final(pool),
            ),
    {
        match AppImage::from_bytes(elf_data) {
            None => None,
            Some(image) => TaskControlBlock::from_image(
                &image,
                app_id,
                app_name,
                boot,
                kernel_space,
                pool,
            ),
        }
    }

    /// Creates the task of `image` in slot `app_id`: builds its address
    /// space, with the trampoline on the frame where the kernel space has it,
    /// maps its kernel stack in the kernel space, and prepares its
    /// trap context to enter the application at its entry point on its user
    /// stack. The task is ready, with stride 0 and the default priority.
    /// Returns the task and the initial contents of its trap-context page;
    /// `None` if the task cannot be created.
    pub fn from_image(
        image: &AppImage,
        app_id: usize,
        app_name: &'static str,
        boot: &BootInfo,
        kernel_space: &mut AddressSpace,
        pool: &mut FrameAllocator,
    ) -> (r: Option<(TaskControlBlock, TrapContext)>)
        requires
            old(kernel_space).wf(),
            old(pool).wf(),
            old(kernel_space).backed_by(old(pool)),
        ensures
            final(kernel_space).wf(),
            final(pool).wf(),
            final(kernel_space).backed_by(final(pool)),
            final(kernel_space).root() == old(kernel_space).root(),
            forall|q: usize| old(pool).is_allocated(q) ==> final(pool).is_allocated(q),
            forall|q: usize|
                final(kernel_space).holds(q) ==> old(kernel_space).holds(q) || old(pool).is_free(
                    q,
                ),
            final(kernel_space).areas().len() >= old(kernel_space).areas().len(),
            forall|j: int|
                0 <= j < old(kernel_space).areas().len() ==> final(kernel_space).areas()[j] == old(
                    kernel_space,
                ).areas()[j],
            r is Some <==> can_create(image, app_id, old(kernel_space), old(pool)),
            r matches Some((t, cx)) ==> created(
                t,
                cx,
                image.segments@,
                image.entry as int,
                app_id,
                app_name,
                boot,
                old(kernel_space),
                final(kernel_space),
                old(pool),
                final(pool),
            ),
    {
        let ghost pool0 = *pool;
        let (memory_set, user_sp, entry_point) = match from_elf(
            image,
            kernel_space.trampoline_ppn(),
            pool,
        ) {
            None => {
                return None;
            },
            Some(built) => built,
        };
        let ghost n = image.segments@.len() as int;
        let trap_cx_ppn: usize = match memory_set.translate(usize::MAX / 4096 - 1) {
            None => {
                assert(memory_set.areas()[n + 1].covers(trampoline_vpn() - 1));
                return None;
            },
            Some(pte) => pte.ppn,
        };
        let last_slot: usize = (TRAMPOLINE - KERNEL_STACK_SIZE) / (KERNEL_STACK_SIZE + PAGE_SIZE);
        proof {
            let slot = crate::config::kernel_stack_slot();
            assert(slot == 12288);
            assert(app_id * slot == app_id * 12288) by (nonlinear_arith)
                requires
                    slot == 12288,
            ;
            assert(kernel_stack_fits(app_id as int) <==> app_id <= last_slot);
        }
        if app_id > last_slot {
            return None;
        }
        let (kernel_stack_bottom, kernel_stack_top) = kernel_stack_position(app_id);
        proof {
            kernel_stack_pages(app_id as int);
            assert forall|q: usize| old(kernel_space).holds(q) implies pool.is_allocated(q) by {}
        }
        let ghost pool1 = *pool;
        let r = kernel_space.insert_framed_area(
            kernel_stack_bottom,
            kernel_stack_top,
            MapPermission::kernel_rw(),
            pool,
        );
        if r < 0 {
            return None;
        }
        proof {
            let stack = kernel_space.areas().last();
            let count = old(kernel_space).areas().len() as int;
            assert forall|q: usize| kernel_space.holds(q) implies old(kernel_space).holds(q) || (
            pool0.is_free(q) && !memory_set.holds(q)) by {
                if q != kernel_space.root() {
                    let i = choose|i: int|
                        0 <= i < kernel_space.areas().len() && (
                        #[trigger] kernel_space.areas()[i]).holds(q);
                    if i < count {
                        assert(old(kernel_space).areas()[i].holds(q));
                    } else {
                        assert(kernel_space.areas()[i] == stack);
                        assert(pool1.is_free(q));
                        pool1.free_is_not_allocated(q);
                    }
                }
            }
            assert forall|q: usize| memory_set.holds(q) implies !kernel_space.holds(q) by {
                if old(kernel_space).holds(q) {
                    pool0.free_is_not_allocated(q);
                }
            }
        }
        let kernel_satp: usize = kernel_space.token();
        let trap_cx = TrapContext::app_init_context(
            entry_point,
            user_sp,
            kernel_satp,
            kernel_stack_top,
            boot.trap_handler,
            boot.sstatus,
        );
        Some(
            (
                TaskControlBlock {
                    task_cx: TaskContext::goto_trap_return(kernel_stack_top, boot.trap_return),
                    task_status: TaskStatus::Ready,
                    memory_set,
                    trap_cx_ppn,
                    base_size: user_sp,
                    task_name: app_name,
                    task_stride: Stride::new(),
                    task_priority: DEFAULT_PRIORITY,
                    task_awake_time: 0,
                    task_elapse_time: 0,
                    task_last_switch_time: 0,
                },
                trap_cx,
            ),
        )
    }

    /// The invariant of a task: a sound address space with a trap-context
    /// page, and a positive priority.
    pub open spec fn wf(&self) -> bool {
        &&& self.memory_set.wf()
        &&& self.memory_set.has_trap_context()
        &&& self.task_priority > 0
    }

    /// Whether the scheduler may pick the task at tick `now`: it is ready
    /// and its wake-up tick has passed.
    pub open spec fn eligible(&self, now: usize) -> bool {
        self.task_status == TaskStatus::Ready && self.task_awake_time < now
    }

    /// The value that selects the task's address space.
    pub fn get_user_token(&self) -> (t: usize)
        requires
            self.wf(),
        ensures
            t == usize::MAX / 2 + 1 + self.memory_set.root(),
    {
        self.memory_set.token()
    }
}

} // verus!
