//! The task manager: every task of the kernel, the index of the one that is
//! current, and the stride scheduler that picks the next.

use crate::config::kernel_stack_fits;
use crate::config::kernel_stack_top;
use crate::config::MAX_APP_LIFETIME_CLOCK;
use crate::context::TrapContext;
use crate::context::user_sstatus;
use crate::frame::FrameAllocator;
use crate::image::AppImage;
use crate::image::pages_of_grows;
use crate::image::space_of_image;
use crate::memory::AddressSpace;
use crate::memory::floor_page;
use crate::memory::mmap_effect;
use crate::memory::mmap_permission;
use crate::memory::munmap_effect;
use crate::memory::page_floor;
use crate::memory::page_offset;
use crate::memory::PageTableEntry;
use crate::memory::trampoline_entry;
use crate::memory::trampoline_vpn;
use crate::memory::trap_context_outlasts_requests;
use crate::perm::MapPermission;
use crate::perm::MapProt;
use crate::scheduler::Dispatch;
use crate::scheduler::exited_at;
use crate::scheduler::pick;
use crate::scheduler::pick_finds_any;
use crate::scheduler::pick_is_eligible;
use crate::scheduler::put_to_sleep;
use crate::scheduler::run_next;
use crate::scheduler::scan_id;
use crate::scheduler::scheduled_at;
use crate::scheduler::suspend;
use crate::scheduler::suspended_at;
use crate::scheduler::terminate;
use crate::task::BootInfo;
use crate::task::can_create;
use crate::task::DEFAULT_PRIORITY;
use crate::task::kernel_stack_first_page;
use crate::task::kernel_stack_pages;
use crate::task::kernel_stack_past_page;
use crate::task::TaskControlBlock;
use crate::task::TaskStatus;
use vstd::prelude::*;

verus! {

/// The frames that the first `k` of the images take: for each its address
/// space and the two pages of its kernel stack.
pub open spec fn frames_for(images: Seq<AppImage>, k: nat) -> int
    decreases k,
{
    if k == 0 {
        0
    } else {
        frames_for(images, (k - 1) as nat) + images[k - 1].frames_needed() + 2
    }
}

/// Whether the first `k` of the images can each be laid out, with a kernel
/// stack inside the address range on pages that `kernel_space` has not
/// mapped.
pub open spec fn images_fit(images: Seq<AppImage>, k: int, kernel_space: &AddressSpace) -> bool {
    forall|i: int|
        0 <= i < k ==> {
            &&& (#[trigger] images[i]).wf()
            &&& kernel_stack_fits(i)
            &&& kernel_space.range_is_clear(kernel_stack_first_page(i), kernel_stack_past_page(i))
        }
}

/// If the first `k` images fit and image `k` does, the first `k + 1` do.
proof fn images_fit_one_more(images: Seq<AppImage>, k: int, kernel_space: &AddressSpace)
    requires
        0 <= k < images.len(),
        images_fit(images, k, kernel_space),
        images[k].wf(),
        kernel_stack_fits(k),
        kernel_space.range_is_clear(kernel_stack_first_page(k), kernel_stack_past_page(k)),
    ensures
        images_fit(images, k + 1, kernel_space),
{
    assert forall|i: int| 0 <= i < k + 1 implies {
        &&& (#[trigger] images[i]).wf()
        &&& kernel_stack_fits(i)
        &&& kernel_space.range_is_clear(kernel_stack_first_page(i), kernel_stack_past_page(i))
    } by {
        if i < k {
            assert(images[i].wf());
        }
    }
}

/// Whether a manager can be set up for the images: there is at least one,
/// each has a name, each fits, and the pool has the frames for them all.
pub open spec fn can_boot(
    images: Seq<AppImage>,
    names: Seq<&'static str>,
    kernel_space: &AddressSpace,
    pool: &FrameAllocator,
) -> bool {
    &&& images.len() > 0
    &&& names.len() == images.len()
    &&& images_fit(images, images.len() as int, kernel_space)
    &&& frames_for(images, images.len()) <= pool.free_count()
}

/// More images never take fewer frames.
pub proof fn frames_for_grows(images: Seq<AppImage>, a: nat, b: nat)
    requires
        a <= b <= images.len(),
        forall|i: int| 0 <= i < b ==> (#[trigger] images[i]).wf(),
    ensures
        0 <= frames_for(images, a) <= frames_for(images, b),
    decreases b,
{
    if b > 0 {
        assert(images[b - 1].wf());
        pages_of_grows(images[b - 1].segments@, 0, images[b - 1].segments@.len());
        if a < b {
            frames_for_grows(images, a, (b - 1) as nat);
        } else {
            frames_for_grows(images, (a - 1) as nat, (b - 1) as nat);
        }
    }
}

/// Whether `cx` is the trap context that a task starts with: it enters the
/// image at its entry point, on its user stack, with every other register
/// zero, and knows the kernel's address space, its own kernel stack and the
/// trap handler.
pub open spec fn initial_trap_context(
    cx: TrapContext,
    image: &AppImage,
    slot: int,
    boot: &BootInfo,
    kernel_space: &AddressSpace,
) -> bool {
    &&& cx.x@ == Seq::new(32, |i: int| 0usize).update(2, image.stack_top() as usize)
    &&& cx.sstatus == user_sstatus(boot.sstatus)
    &&& cx.sepc == image.entry
    &&& cx.kernel_satp == usize::MAX / 2 + 1 + kernel_space.root()
    &&& cx.kernel_sp == kernel_stack_top(slot)
    &&& cx.trap_handler == boot.trap_handler
}

/// All tasks, the index of the current one, the kernel's own address space
/// and the frame pool that every address space draws on.
///
/// The manager also keeps, slot by slot, the contents of each task's
/// trap-context page: the user-mode state that the task's last trap saved.
pub struct TaskManager {
    tasks: Vec<TaskControlBlock>,
    trap_contexts: Vec<TrapContext>,
    current_task: usize,
    kernel_space: AddressSpace,
    pool: FrameAllocator,
}

impl TaskManager {
    /// The tasks, by slot.
    pub closed spec fn tasks(&self) -> Seq<TaskControlBlock> {
        self.tasks@
    }

    /// The saved user-mode state of the tasks, by slot.
    pub closed spec fn trap_contexts(&self) -> Seq<TrapContext> {
        self.trap_contexts@
    }

    /// The slot of the current task.
    pub closed spec fn current(&self) -> int {
        self.current_task as int
    }

    /// The kernel's address space.
    pub closed spec fn kernel_space(&self) -> AddressSpace {
        self.kernel_space
    }

    /// The frame pool.
    pub closed spec fn pool(&self) -> FrameAllocator {
        self.pool
    }

    /// The invariant on memory: every address space is sound and owns only
    /// frames that are out of the pool, no frame has two owners, and every
    /// task has the trampoline on the frame where the kernel has it.
    pub open spec fn memory_wf(&self) -> bool {
        &&& self.pool().wf()
        &&& self.kernel_space().wf()
        &&& self.kernel_space().backed_by(&self.pool())
        &&& forall|i: int|
            0 <= i < self.tasks().len() ==> (#[trigger] self.tasks()[i]).memory_set.backed_by(
                &self.pool(),
            )
        &&& forall|i: int|
            0 <= i < self.tasks().len() ==> (
            #[trigger] self.tasks()[i]).memory_set.trampoline_frame()
                == self.kernel_space().trampoline_frame()
        &&& forall|i: int, p: usize|
            0 <= i < self.tasks().len() && #[trigger] self.tasks()[i].memory_set.holds(p)
                ==> !self.kernel_space().holds(p)
        &&& forall|i: int, j: int, p: usize|
            0 <= i < j < self.tasks().len() && #[trigger] self.tasks()[i].memory_set.holds(p)
                ==> !#[trigger] self.tasks()[j].memory_set.holds(p)
    }

    /// The invariant of the manager: there is a current task, every task is
    /// sound, only the current task can be running, and memory is sound.
    pub open spec fn wf(&self) -> bool {
        &&& 0 <= self.current() < self.tasks().len()
        &&& self.trap_contexts().len() == self.tasks().len()
        &&& forall|i: int| 0 <= i < self.tasks().len() ==> (#[trigger] self.tasks()[i]).wf()
        &&& forall|i: int|
            0 <= i < self.tasks().len() && (#[trigger] self.tasks()[i]).task_status
                == TaskStatus::Running ==> i == self.current()
        &&& self.memory_wf()
    }

    /// Whether the current task is running: the state in which user code
    /// executes and traps arrive.
    pub open spec fn running(&self) -> bool {
        self.tasks()[self.current()].task_status == TaskStatus::Running
    }

    /// Whether `next` has the tasks, the current slot and the memory of this
    /// manager.
    pub open spec fn unchanged(&self, next: &TaskManager) -> bool {
        &&& next.tasks() == self.tasks()
        &&& next.current() == self.current()
        &&& next.kernel_space() == self.kernel_space()
        &&& next.pool() == self.pool()
    }

    /// The task that the scheduler would pick at tick `now`, if any.
    pub open spec fn next_task(&self, now: usize) -> Option<int> {
        pick(self.tasks(), self.current(), now, self.tasks().len())
    }

    /// Whether `next` differs from this manager in task `slot` alone, which
    /// has become `task`.
    pub open spec fn only_task_changed(
        &self,
        next: &TaskManager,
        slot: int,
        task: TaskControlBlock,
    ) -> bool {
        &&& next.tasks() == self.tasks().update(slot, task)
        &&& next.current() == self.current()
        &&& next.kernel_space() == self.kernel_space()
        &&& next.pool() == self.pool()
    }

    /// Sets the manager up: creates one task per image, in order, each in
    /// the slot of its index and under the name of the same index, over the
    /// given kernel space and frame pool. Task 0 is current. `None` if the
    /// manager cannot be set up.
    #[verifier::rlimit(40)]
    pub fn new(
        images: &Vec<AppImage>,
        names: &Vec<&'static str>,
        boot: &BootInfo,
        kernel_space: AddressSpace,
        pool: FrameAllocator,
    ) -> (r: Option<TaskManager>)
        requires
            kernel_space.wf(),
            pool.wf(),
            kernel_space.backed_by(&pool),
        ensures
            r is Some <==> can_boot(images@, names@, &kernel_space, &pool),
            r matches Some(m) ==> {
                &&& m.wf()
                &&& m.current() == 0
                &&& m.tasks().len() == images@.len()
                &&& m.pool().free_count() == pool.free_count() - frames_for(images@, images@.len())
                &&& m.kernel_space().root() == kernel_space.root()
                &&& m.kernel_space().trampoline_frame() == kernel_space.trampoline_frame()
                &&& forall|i: int|
                    0 <= i < images@.len() ==> {
                        &&& (#[trigger] m.tasks()[i]).task_status == TaskStatus::Ready
                        &&& m.tasks()[i].task_name == names@[i]
                        &&& m.tasks()[i].task_stride.value == 0
                        &&& m.tasks()[i].task_priority == DEFAULT_PRIORITY
                        &&& m.tasks()[i].task_awake_time == 0
                        &&& m.tasks()[i].task_elapse_time == 0
                        &&& m.tasks()[i].task_last_switch_time == 0
                        &&& m.tasks()[i].base_size == images@[i].stack_top()
                        &&& space_of_image(&m.tasks()[i].memory_set, &images@[i])
                        &&& initial_trap_context(
                            m.trap_contexts()[i],
                            &images@[i],
                            i,
                            boot,
                            &kernel_space,
                        )
                    }
            },
    {
        let count: usize = images.len();
        if count == 0 || names.len() != count {
            return None;
        }
        let ghost space0 = kernel_space;
        let ghost pool0 = pool;
        let ghost base = kernel_space.areas().len() as int;
        let mut m = TaskManager {
            tasks: Vec::new(),
            trap_contexts: Vec::new(),
            current_task: 0,
            kernel_space,
            pool,
        };
        let mut i: usize = 0;
        while i < count
            invariant
                i <= count,
                count == images@.len(),
                count == names@.len(),
                space0 == kernel_space,
                pool0 == pool,
                space0.wf(),
                pool0.wf(),
                base == space0.areas().len(),
                m.memory_wf(),
                m.current() == 0,
                m.tasks().len() == i,
                m.trap_contexts().len() == i,
                images_fit(images@, i as int, &space0),
                m.pool().free_count() == pool0.free_count() - frames_for(images@, i as nat),
                m.kernel_space().root() == space0.root(),
                m.kernel_space().trampoline_frame() == space0.trampoline_frame(),
                m.kernel_space().areas().len() == base + i,
                forall|j: int|
                    0 <= j < base ==> (#[trigger] m.kernel_space().areas()[j]) == space0.areas()[j],
                forall|j: int|
                    0 <= j < i ==> {
                        &&& (#[trigger] m.kernel_space().areas()[base + j]).start_vpn
                            == kernel_stack_first_page(j)
                        &&& m.kernel_space().areas()[base + j].end_vpn == kernel_stack_past_page(j)
                    },
                forall|j: int|
                    0 <= j < i ==> {
                        &&& (#[trigger] m.tasks()[j]).wf()
                        &&& m.tasks()[j].task_status == TaskStatus::Ready
                        &&& m.tasks()[j].task_name == names@[j]
                        &&& m.tasks()[j].task_stride.value == 0
                        &&& m.tasks()[j].task_priority == DEFAULT_PRIORITY
                        &&& m.tasks()[j].task_awake_time == 0
                        &&& m.tasks()[j].task_elapse_time == 0
                        &&& m.tasks()[j].task_last_switch_time == 0
                        &&& m.tasks()[j].base_size == images@[j].stack_top()
                        &&& space_of_image(&m.tasks()[j].memory_set, &images@[j])
                        &&& initial_trap_context(
                            m.trap_contexts()[j],
                            &images@[j],
                            j,
                            boot,
                            &space0,
                        )
                    },
            decreases count - i,
        {
            let ghost before = m;
            proof {
                stacks_leave_slot_clear(&space0, &m.kernel_space(), i as int);
            }
            match TaskControlBlock::from_image(
                &images[i],
                i,
                names[i],
                boot,
                &mut m.kernel_space,
                &mut m.pool,
            ) {
                None => {
                    proof {
                        if can_boot(images@, names@, &space0, &pool0) {
                            assert(images@[i as int].wf());
                            frames_for_grows(images@, (i + 1) as nat, count as nat);
                        }
                    }
                    return None;
                },
                Some((t, cx)) => {
                    m.tasks.push(t);
                    m.trap_contexts.push(cx);
                    proof {
                        assert(m.tasks() =~= before.tasks().push(t));
                        assert(m.trap_contexts() =~= before.trap_contexts().push(cx));
                        assert forall|j: int| 0 <= j < i implies (#[trigger] m.trap_contexts()[j])
                            == before.trap_contexts()[j] by {}
                        before.push_keeps_memory(&m, t);
                        images_fit_one_more(images@, i as int, &space0);
                        assert(m.kernel_space().areas()[base + i] == m.kernel_space().areas().last());
                        assert forall|j: int| 0 <= j < i implies (#[trigger] m.tasks()[j])
                            == before.tasks()[j] by {}
                    }
                },
            }
            i += 1;
        }
        Some(m)
    }

    /// A new task whose frames were free, beside a kernel space that grew
    /// only by frames that were free, keeps the invariant on memory.
    proof fn push_keeps_memory(&self, next: &TaskManager, t: TaskControlBlock)
        requires
            self.memory_wf(),
            next.tasks() == self.tasks().push(t),
            next.pool().wf(),
            next.kernel_space().wf(),
            next.kernel_space().backed_by(&next.pool()),
            t.memory_set.backed_by(&next.pool()),
            t.memory_set.trampoline_frame() == self.kernel_space().trampoline_frame(),
            next.kernel_space().trampoline_frame() == self.kernel_space().trampoline_frame(),
            forall|q: usize| self.pool().is_allocated(q) ==> next.pool().is_allocated(q),
            forall|q: usize| t.memory_set.holds(q) ==> self.pool().is_free(q),
            forall|q: usize| t.memory_set.holds(q) ==> !next.kernel_space().holds(q),
            forall|q: usize|
                next.kernel_space().holds(q) ==> self.kernel_space().holds(q) || self.pool().is_free(
                    q,
                ),
        ensures
            next.memory_wf(),
    {
        let n = self.tasks().len() as int;
        assert forall|i: int| 0 <= i < n implies (#[trigger] next.tasks()[i]) == self.tasks()[i] by {}
        assert(next.tasks()[n] == t);
        assert forall|i: int| 0 <= i < next.tasks().len() implies (
        #[trigger] next.tasks()[i]).memory_set.backed_by(&next.pool()) by {
            if i < n {
                assert(self.tasks()[i].memory_set.backed_by(&self.pool()));
            }
        }
        assert forall|i: int, p: usize|
            0 <= i < next.tasks().len() && #[trigger] next.tasks()[i].memory_set.holds(
                p,
            ) implies !next.kernel_space().holds(p) by {
            if i < n {
                assert(self.tasks()[i].memory_set.holds(p));
                assert(self.tasks()[i].memory_set.backed_by(&self.pool()));
                self.pool().free_is_not_allocated(p);
            }
        }
        assert forall|i: int, j: int, p: usize|
            0 <= i < j < next.tasks().len() && #[trigger] next.tasks()[i].memory_set.holds(
                p,
            ) implies !#[trigger] next.tasks()[j].memory_set.holds(p) by {
            assert(self.tasks()[i].memory_set.holds(p));
            if j < n {
                assert(!self.tasks()[j].memory_set.holds(p));
            } else {
                assert(self.tasks()[i].memory_set.backed_by(&self.pool()));
                self.pool().free_is_not_allocated(p);
            }
        }
    }

    /// How many tasks there are.
    pub fn num_app(&self) -> (n: usize)
        ensures
            n == self.tasks().len(),
    {
        self.tasks.len()
    }

    /// The slot of the current task.
    pub fn get_current_app(&self) -> (slot: usize)
        ensures
            slot == self.current(),
    {
        self.current_task
    }

    /// The task in slot `slot`.
    pub fn task(&self, slot: usize) -> (t: &TaskControlBlock)
        requires
            slot < self.tasks().len(),
        ensures
            *t == self.tasks()[slot as int],
    {
        &self.tasks[slot]
    }

    /// Suspends the current task at tick `now`: adds the time since it was
    /// scheduled in to its run time, and makes it ready again, or exited if
    /// its run time has passed the lifetime ceiling.
    pub fn mark_current_suspended(&mut self, now: usize)
        requires
            old(self).wf(),
            old(self).running(),
        ensures
            final(self).wf(),
            final(self).trap_contexts() == old(self).trap_contexts(),
            final(self).trap_contexts() == old(self).trap_contexts(),
        old(self).only_task_changed(
                final(self),
                old(self).current(),
                suspended_at(old(self).tasks()[old(self).current()], now),
            ),
    {
        let current: usize = self.current_task;
        let last: usize = self.tasks[current].task_last_switch_time;
        let elapsed: usize = self.tasks[current].task_elapse_time.wrapping_add(
            now.wrapping_sub(last),
        );
        self.tasks[current].task_elapse_time = elapsed;
        if elapsed > MAX_APP_LIFETIME_CLOCK {
            self.tasks[current].task_status = TaskStatus::Exited;
        } else {
            self.tasks[current].task_status = TaskStatus::Ready;
        }
        proof {
            assert(self.tasks() =~= old(self).tasks().update(
                current as int,
                suspended_at(old(self).tasks()[current as int], now),
            ));
            old(self).task_change_keeps_memory(self, current as int);
        }
    }

    /// Ends the current task at tick `now`: adds the time since it was
    /// scheduled in to its run time and marks it exited.
    pub fn mark_current_exited(&mut self, now: usize)
        requires
            old(self).wf(),
            old(self).running(),
        ensures
            final(self).wf(),
            final(self).trap_contexts() == old(self).trap_contexts(),
            final(self).trap_contexts() == old(self).trap_contexts(),
        old(self).only_task_changed(
                final(self),
                old(self).current(),
                exited_at(old(self).tasks()[old(self).current()], now),
            ),
    {
        let current: usize = self.current_task;
        let last: usize = self.tasks[current].task_last_switch_time;
        let elapsed: usize = self.tasks[current].task_elapse_time.wrapping_add(
            now.wrapping_sub(last),
        );
        self.tasks[current].task_elapse_time = elapsed;
        self.tasks[current].task_status = TaskStatus::Exited;
        proof {
            assert(self.tasks() =~= old(self).tasks().update(
                current as int,
                exited_at(old(self).tasks()[current as int], now),
            ));
            old(self).task_change_keeps_memory(self, current as int);
        }
    }

    /// A change to one task that leaves its address space alone, and leaves
    /// the kernel space and the pool alone, keeps the invariant on memory.
    pub proof fn task_change_keeps_memory(&self, next: &TaskManager, slot: int)
        requires
            self.memory_wf(),
            0 <= slot < self.tasks().len(),
            next.tasks().len() == self.tasks().len(),
            forall|i: int|
                0 <= i < self.tasks().len() && i != slot ==> next.tasks()[i] == self.tasks()[i],
            next.tasks()[slot].memory_set == self.tasks()[slot].memory_set,
            next.kernel_space() == self.kernel_space(),
            next.pool() == self.pool(),
        ensures
            next.memory_wf(),
    {
        assert forall|i: int| 0 <= i < next.tasks().len() implies (
        #[trigger] next.tasks()[i]).memory_set == self.tasks()[i].memory_set by {}
        assert forall|i: int| 0 <= i < next.tasks().len() implies (
        #[trigger] next.tasks()[i]).memory_set.backed_by(&next.pool()) by {
            assert(self.tasks()[i].memory_set.backed_by(&self.pool()));
        }
        assert forall|i: int, p: usize|
            0 <= i < next.tasks().len() && #[trigger] next.tasks()[i].memory_set.holds(
                p,
            ) implies !next.kernel_space().holds(p) by {
            assert(self.tasks()[i].memory_set.holds(p));
        }
        assert forall|i: int, j: int, p: usize|
            0 <= i < j < next.tasks().len() && #[trigger] next.tasks()[i].memory_set.holds(
                p,
            ) implies !#[trigger] next.tasks()[j].memory_set.holds(p) by {
            assert(self.tasks()[i].memory_set.holds(p));
            assert(!self.tasks()[j].memory_set.holds(p));
        }
    }

    /// Picks the task to run next at tick `now`: among the tasks that are
    /// ready and whose wake-up tick has passed, scanned from just after the
    /// current one, the one of least stride; among equals the first met.
    pub fn find_next_task(&self, now: usize) -> (next: Option<usize>)
        requires
            self.wf(),
        ensures
            match next {
                Some(id) => self.next_task(now) == Some(id as int),
                None => self.next_task(now) is None,
            },
            next matches Some(id) ==> id < self.tasks().len() && self.tasks()[id as int].eligible(now),
            next is None <==> forall|i: int|
                0 <= i < self.tasks().len() ==> !(#[trigger] self.tasks()[i]).eligible(now),
    {
        let count: usize = self.tasks.len();
        let current: usize = self.current_task;
        let rest: usize = count - 1 - current;
        let mut best: Option<usize> = None;
        let mut k: usize = 0;
        while k < count
            invariant
                k <= count,
                count == self.tasks().len(),
                current == self.current(),
                current < count,
                rest == count - 1 - current,
                match best {
                    Some(id) => pick(self.tasks(), current as int, now, k as nat) == Some(
                        id as int,
                    ) && id < count,
                    None => pick(self.tasks(), current as int, now, k as nat) is None,
                },
            decreases count - k,
        {
            let id: usize = if k < rest {
                current + 1 + k
            } else {
                k - rest
            };
            assert(id == scan_id(current as int, count as int, k as int));
            let task = &self.tasks[id];
            let ready: bool = match task.task_status {
                TaskStatus::Ready => true,
                _ => false,
            };
            if ready && task.task_awake_time < now {
                best = match best {
                    None => Some(id),
                    Some(left) => if self.tasks[left].task_stride.is_after(&task.task_stride) {
                        Some(id)
                    } else {
                        Some(left)
                    },
                };
            }
            k += 1;
        }
        proof {
            pick_is_eligible(self.tasks(), current as int, now, count as nat);
            pick_finds_any(self.tasks(), current as int, now, count as nat);
            if best is None {
                assert forall|i: int| 0 <= i < self.tasks().len() implies !(
                #[trigger] self.tasks()[i]).eligible(now) by {
                    let k = if i > current { i - current - 1 } else { i + count - current - 1 };
                    assert(scan_id(current as int, count as int, k) == i);
                }
            }
        }
        best
    }

    /// Schedules the next task in at tick `now`, or reports that none is
    /// left. The task picked becomes running and current, its stride
    /// advances by the step of its priority, and `now` is recorded as the
    /// tick it was scheduled in.
    pub fn run_next_task(&mut self, now: usize) -> (d: Dispatch)
        requires
            old(self).wf(),
            old(self).tasks()[old(self).current()].task_status != TaskStatus::Running,
        ensures
            final(self).wf(),
            final(self).kernel_space() == old(self).kernel_space(),
            final(self).pool() == old(self).pool(),
            final(self).trap_contexts() == old(self).trap_contexts(),
            run_next(
                old(self).tasks(),
                old(self).current(),
                now,
                final(self).tasks(),
                final(self).current(),
                d,
            ),
            d matches Dispatch::Switch { to, .. } ==> old(self).tasks()[to as int].eligible(now)
                && final(self).running(),
            d is Switch || d is Halt,
    {
        match self.find_next_task(now) {
            None => Dispatch::Halt,
            Some(next) => {
                let current: usize = self.current_task;
                let priority: u16 = self.tasks[next].task_priority;
                assert(old(self).tasks()[next as int].wf());
                self.tasks[next].task_status = TaskStatus::Running;
                self.tasks[next].task_stride.advance(priority);
                self.tasks[next].task_last_switch_time = now;
                self.current_task = next;
                proof {
                    assert(self.tasks() =~= old(self).tasks().update(
                        next as int,
                        scheduled_at(old(self).tasks()[next as int], now),
                    ));
                    old(self).task_change_keeps_memory(self, next as int);
                }
                Dispatch::Switch { from: current, to: next }
            },
        }
    }

    /// Starts the first task at tick `now`: task 0 becomes running, with
    /// `now` as the tick it was scheduled in. Its stride stays as it is.
    pub fn run_first_task(&mut self, now: usize) -> (d: Dispatch)
        requires
            old(self).wf(),
            old(self).current() == 0,
            old(self).tasks()[0].task_status == TaskStatus::Ready,
        ensures
            final(self).wf(),
            final(self).running(),
            d == (Dispatch::Launch { to: 0 }),
            final(self).trap_contexts() == old(self).trap_contexts(),
            final(self).trap_contexts() == old(self).trap_contexts(),
        old(self).only_task_changed(
                final(self),
                0,
                (TaskControlBlock {
                    task_status: TaskStatus::Running,
                    task_last_switch_time: now,
                    ..old(self).tasks()[0]
                }),
            ),
    {
        self.tasks[0].task_status = TaskStatus::Running;
        self.tasks[0].task_last_switch_time = now;
        proof {
            assert(self.tasks() =~= old(self).tasks().update(
                0,
                (TaskControlBlock {
                    task_status: TaskStatus::Running,
                    task_last_switch_time: now,
                    ..old(self).tasks()[0]
                }),
            ));
            old(self).task_change_keeps_memory(self, 0);
        }
        Dispatch::Launch { to: 0 }
    }

    /// Gives the current task the priority `prio`.
    pub fn update_current_task_priority(&mut self, prio: u16)
        requires
            old(self).wf(),
            prio > 0,
        ensures
            final(self).wf(),
            final(self).trap_contexts() == old(self).trap_contexts(),
            final(self).trap_contexts() == old(self).trap_contexts(),
        old(self).only_task_changed(
                final(self),
                old(self).current(),
                (TaskControlBlock { task_priority: prio, ..old(self).tasks()[old(self).current()] }),
            ),
    {
        let current: usize = self.current_task;
        self.tasks[current].task_priority = prio;
        proof {
            assert(self.tasks() =~= old(self).tasks().update(
                current as int,
                (TaskControlBlock { task_priority: prio, ..old(self).tasks()[current as int] }),
            ));
            old(self).task_change_keeps_memory(self, current as int);
        }
    }

    /// Sets the wake-up tick of the current task to `ticks` after `now`,
    /// wrapping around at the width of the clock.
    pub fn current_sleep_for_ticks(&mut self, ticks: usize, now: usize)
        requires
            old(self).wf(),
        ensures
            final(self).wf(),
            final(self).trap_contexts() == old(self).trap_contexts(),
            final(self).trap_contexts() == old(self).trap_contexts(),
        old(self).only_task_changed(
                final(self),
                old(self).current(),
                (TaskControlBlock {
                    task_awake_time: now.wrapping_add(ticks),
                    ..old(self).tasks()[old(self).current()]
                }),
            ),
    {
        let current: usize = self.current_task;
        self.tasks[current].task_awake_time = now.wrapping_add(ticks);
        proof {
            assert(self.tasks() =~= old(self).tasks().update(
                current as int,
                (TaskControlBlock {
                    task_awake_time: now.wrapping_add(ticks),
                    ..old(self).tasks()[current as int]
                }),
            ));
            old(self).task_change_keeps_memory(self, current as int);
        }
    }

    /// The value that selects the current task's address space.
    pub fn get_current_token(&self) -> (t: usize)
        requires
            self.wf(),
        ensures
            t == usize::MAX / 2 + 1 + self.tasks()[self.current()].memory_set.root(),
    {
        self.tasks[self.current_task].get_user_token()
    }

    /// What page `address` lies in is mapped to in the current task's
    /// address space, for a diagnosis of a fault at that address.
    pub fn test_current_page_access(&self, address: usize) -> (pte: Option<PageTableEntry>)
        requires
            self.wf(),
        ensures
            pte == self.tasks()[self.current()].memory_set.mapping(page_floor(address as int)),
    {
        self.tasks[self.current_task].memory_set.translate(floor_page(address))
    }

    /// Whether `next` differs from this manager only in the address space
    /// of the current task and in the pool.
    pub open spec fn only_current_memory_changed(&self, next: &TaskManager) -> bool {
        &&& next.current() == self.current()
        &&& next.kernel_space() == self.kernel_space()
        &&& next.tasks() == self.tasks().update(
            self.current(),
            (TaskControlBlock {
                memory_set: next.tasks()[self.current()].memory_set,
                ..self.tasks()[self.current()]
            }),
        )
    }

    /// Maps `len` bytes at `start` in the current task's address space, to
    /// fresh frames, open to user mode with the rights that `prot` names.
    /// Returns `len`; or -1, with nothing changed, if the request is not
    /// allowed.
    pub fn do_current_mmap(&mut self, start: usize, len: usize, prot: usize) -> (r: isize)
        requires
            old(self).wf(),
        ensures
            final(self).wf(),
            final(self).trap_contexts() == old(self).trap_contexts(),
            final(self).trap_contexts() == old(self).trap_contexts(),
        old(self).only_current_memory_changed(final(self)),
            mmap_effect(
                &old(self).tasks()[old(self).current()].memory_set,
                &final(self).tasks()[old(self).current()].memory_set,
                &old(self).pool(),
                &final(self).pool(),
                start,
                len,
                prot,
                r,
            ),
    {
        let current: usize = self.current_task;
        proof {
            self.no_change_is_a_memory_change();
        }
        if page_offset(start) != 0 {
            return -1;
        }
        if prot > 7 {
            return -1;
        }
        let perm = match MapProt::from_bits(prot as u8) {
            None => {
                return -1;
            },
            Some(p) => p,
        };
        if perm.is_empty() {
            return -1;
        }
        let end: usize = match start.checked_add(len) {
            None => {
                return -1;
            },
            Some(e) => e,
        };
        let ghost before = self.tasks()[current as int].memory_set;
        let r = self.tasks[current].memory_set.insert_framed_area(
            start,
            end,
            MapPermission::from(perm).with_user(),
            &mut self.pool,
        );
        proof {
            let after = self.tasks()[current as int].memory_set;
            assert(self.tasks() =~= old(self).tasks().update(
                current as int,
                (TaskControlBlock { memory_set: after, ..old(self).tasks()[current as int] }),
            ));
            if r >= 0 {
                trap_context_outlasts_requests(
                    &before,
                    &after,
                    &old(self).pool(),
                    &self.pool(),
                    start,
                    len,
                    prot,
                    r,
                );
                old(self).growth_keeps_memory(self);
                let a = after.areas().last();
                assert(before.can_insert(start as int, start + len, &old(self).pool()));
                assert(Some(a.perm) == mmap_permission(prot as int));
                assert(forall|q: usize|
                    #[trigger] self.pool().is_free(q) == (old(self).pool().is_free(q) && !a.holds(
                        q,
                    )));
            } else {
                assert(after == before);
                assert(self.tasks() =~= old(self).tasks());
                assert(!before.can_insert(start as int, start + len, &old(self).pool()));
            }
        }
        r
    }

    /// Unmaps the area of the current task that spans exactly the pages of
    /// the `len` bytes at `start`, if a user may unmap it, and gives its
    /// frames back to the pool. Returns 0; or -1, with nothing changed, if
    /// `start` is not page-aligned, the range runs past the end of the
    /// address range, or there is no such area.
    pub fn do_current_munmap(&mut self, start: usize, len: usize) -> (r: isize)
        requires
            old(self).wf(),
        ensures
            final(self).wf(),
            final(self).trap_contexts() == old(self).trap_contexts(),
            final(self).trap_contexts() == old(self).trap_contexts(),
        old(self).only_current_memory_changed(final(self)),
            munmap_effect(
                &old(self).tasks()[old(self).current()].memory_set,
                &final(self).tasks()[old(self).current()].memory_set,
                &old(self).pool(),
                &final(self).pool(),
                start,
                len,
                r,
            ),
    {
        let current: usize = self.current_task;
        proof {
            self.no_change_is_a_memory_change();
        }
        if page_offset(start) != 0 {
            return -1;
        }
        let end: usize = match start.checked_add(len) {
            None => {
                return -1;
            },
            Some(e) => e,
        };
        let ghost before = self.tasks()[current as int].memory_set;
        let r = self.tasks[current].memory_set.remove_frame_area(start, end, &mut self.pool);
        proof {
            let after = self.tasks()[current as int].memory_set;
            assert(self.tasks() =~= old(self).tasks().update(
                current as int,
                (TaskControlBlock { memory_set: after, ..old(self).tasks()[current as int] }),
            ));
            if r == 0 {
                trap_context_outlasts_requests(
                    &before,
                    &after,
                    &old(self).pool(),
                    &self.pool(),
                    start,
                    len,
                    0,
                    r,
                );
                old(self).shrink_keeps_memory(self);
            } else {
                assert(after == before);
                assert(self.tasks() =~= old(self).tasks());
            }
        }
        r
    }

    /// Whether the frame pool holds at least `n` frames.
    pub fn has_free_frames(&self, n: usize) -> (r: bool)
        requires
            self.wf(),
        ensures
            r == (n <= self.pool().free_count()),
    {
        self.pool.has_free(n)
    }

    /// The kernel's address space.
    pub fn kernel(&self) -> (space: &AddressSpace)
        ensures
            *space == self.kernel_space(),
    {
        &self.kernel_space
    }

    /// The saved user-mode state of the current task.
    pub fn get_current_trap_cx(&mut self) -> (cx: &mut TrapContext)
        requires
            old(self).wf(),
        ensures
            *cx == old(self).trap_contexts()[old(self).current()],
            old(self).unchanged(final(self)),
            final(self).trap_contexts() == old(self).trap_contexts().update(
                old(self).current(),
                *final(cx),
            ),
    {
        let current: usize = self.current_task;
        &mut self.trap_contexts[current]
    }

    /// The saved user-mode state of the task in slot `slot`.
    pub fn trap_cx(&self, slot: usize) -> (cx: &TrapContext)
        requires
            self.wf(),
            slot < self.tasks().len(),
        ensures
            *cx == self.trap_contexts()[slot as int],
    {
        &self.trap_contexts[slot]
    }

    /// Replaces the saved user-mode state of the task in slot `slot`.
    pub fn set_trap_cx(&mut self, slot: usize, cx: TrapContext)
        requires
            old(self).wf(),
            slot < old(self).tasks().len(),
        ensures
            final(self).wf(),
            old(self).unchanged(final(self)),
            final(self).trap_contexts() == old(self).trap_contexts().update(slot as int, cx),
    {
        self.trap_contexts[slot] = cx;
        proof {
            assert(self.trap_contexts() =~= old(self).trap_contexts().update(slot as int, cx));
        }
    }

    /// Whether a user of the current task may read the `len` bytes at `buf`.
    pub fn current_can_read(&self, buf: usize, len: usize) -> (r: bool)
        requires
            self.wf(),
        ensures
            r == (buf + len <= usize::MAX && self.tasks()[self.current()].memory_set.user_can_read(
                buf as int,
                buf + len,
            )),
    {
        match buf.checked_add(len) {
            None => false,
            Some(end) => self.tasks[self.current_task].memory_set.can_user_read(buf, end),
        }
    }

    /// A manager that has not changed differs from itself in nothing, so
    /// also in nothing but the current task's memory.
    proof fn no_change_is_a_memory_change(&self)
        requires
            self.wf(),
        ensures
            self.only_current_memory_changed(self),
    {
        assert(self.tasks() =~= self.tasks().update(self.current(), self.tasks()[self.current()]));
    }

    /// When the current task's address space gains frames that were free,
    /// and the pool loses exactly those, the invariant on memory still holds.
    proof fn growth_keeps_memory(&self, next: &TaskManager)
        requires
            self.wf(),
            self.only_current_memory_changed(next),
            next.trap_contexts() == self.trap_contexts(),
            next.pool().wf(),
            next.tasks()[self.current()].memory_set.wf(),
            next.tasks()[self.current()].memory_set.backed_by(&next.pool()),
            next.tasks()[self.current()].memory_set.trampoline_frame()
                == self.tasks()[self.current()].memory_set.trampoline_frame(),
            next.tasks()[self.current()].memory_set.has_trap_context(),
            forall|q: usize| self.pool().is_allocated(q) ==> next.pool().is_allocated(q),
            forall|q: usize|
                next.tasks()[self.current()].memory_set.holds(q) ==> self.tasks()[self.current()].memory_set.holds(
                    q,
                ) || self.pool().is_free(q),
        ensures
            next.wf(),
    {
        let c = self.current();
        assert forall|i: int| 0 <= i < next.tasks().len() && i != c implies (
        #[trigger] next.tasks()[i]) == self.tasks()[i] by {}
        assert forall|i: int| 0 <= i < next.tasks().len() implies (#[trigger] next.tasks()[i]).wf() by {
            assert(self.tasks()[i].wf());
        }
        assert forall|i: int|
            0 <= i < next.tasks().len() && (#[trigger] next.tasks()[i]).task_status
                == TaskStatus::Running implies i == next.current() by {
            assert(self.tasks()[i].task_status == TaskStatus::Running);
        }
        assert forall|i: int| 0 <= i < next.tasks().len() implies (
        #[trigger] next.tasks()[i]).memory_set.backed_by(&next.pool()) by {
            if i != c {
                assert(self.tasks()[i].memory_set.backed_by(&self.pool()));
            }
        }
        assert forall|q: usize| next.tasks()[c].memory_set.holds(q) && !self.tasks()[c].memory_set.holds(
            q,
        ) implies !self.pool().is_allocated(q) by {
            self.pool().free_is_not_allocated(q);
        }
        assert forall|i: int, p: usize|
            0 <= i < next.tasks().len() && #[trigger] next.tasks()[i].memory_set.holds(
                p,
            ) implies !next.kernel_space().holds(p) by {
            if i != c || self.tasks()[c].memory_set.holds(p) {
                assert(self.tasks()[i].memory_set.holds(p));
            }
        }
        assert forall|i: int, j: int, p: usize|
            0 <= i < j < next.tasks().len() && #[trigger] next.tasks()[i].memory_set.holds(
                p,
            ) implies !#[trigger] next.tasks()[j].memory_set.holds(p) by {
            if next.tasks()[j].memory_set.holds(p) {
                if i == c {
                    assert(self.tasks()[j].memory_set.holds(p));
                    assert(self.tasks()[j].memory_set.backed_by(&self.pool()));
                    if self.tasks()[c].memory_set.holds(p) {
                        assert(!self.tasks()[j].memory_set.holds(p));
                    }
                } else if j == c {
                    assert(self.tasks()[i].memory_set.holds(p));
                    assert(self.tasks()[i].memory_set.backed_by(&self.pool()));
                    if self.tasks()[c].memory_set.holds(p) {
                        assert(!self.tasks()[c].memory_set.holds(p));
                    }
                } else {
                    assert(self.tasks()[i].memory_set.holds(p));
                    assert(!self.tasks()[j].memory_set.holds(p));
                }
            }
        }
    }

    /// When the current task's address space gives frames up, and the pool
    /// gains exactly those, the invariant on memory still holds.
    proof fn shrink_keeps_memory(&self, next: &TaskManager)
        requires
            self.wf(),
            self.only_current_memory_changed(next),
            next.trap_contexts() == self.trap_contexts(),
            next.pool().wf(),
            next.tasks()[self.current()].memory_set.wf(),
            next.tasks()[self.current()].memory_set.backed_by(&next.pool()),
            next.tasks()[self.current()].memory_set.trampoline_frame()
                == self.tasks()[self.current()].memory_set.trampoline_frame(),
            next.tasks()[self.current()].memory_set.has_trap_context(),
            forall|q: usize|
                next.tasks()[self.current()].memory_set.holds(q) ==> self.tasks()[self.current()].memory_set.holds(
                    q,
                ),
            forall|q: usize|
                self.pool().is_allocated(q) && !self.tasks()[self.current()].memory_set.holds(q)
                    ==> next.pool().is_allocated(q),
        ensures
            next.wf(),
    {
        let c = self.current();
        assert forall|i: int| 0 <= i < next.tasks().len() && i != c implies (
        #[trigger] next.tasks()[i]) == self.tasks()[i] by {}
        assert forall|i: int| 0 <= i < next.tasks().len() implies (#[trigger] next.tasks()[i]).wf() by {
            assert(self.tasks()[i].wf());
        }
        assert forall|i: int|
            0 <= i < next.tasks().len() && (#[trigger] next.tasks()[i]).task_status
                == TaskStatus::Running implies i == next.current() by {
            assert(self.tasks()[i].task_status == TaskStatus::Running);
        }
        assert forall|i: int| 0 <= i < next.tasks().len() implies (
        #[trigger] next.tasks()[i]).memory_set.backed_by(&next.pool()) by {
            if i != c {
                assert(self.tasks()[i].memory_set.backed_by(&self.pool()));
                assert forall|p: usize| self.tasks()[i].memory_set.holds(p) implies next.pool().is_allocated(
                    p,
                ) by {
                    if i < c {
                        assert(!self.tasks()[c].memory_set.holds(p));
                    } else {
                        if self.tasks()[c].memory_set.holds(p) {
                            assert(!self.tasks()[i].memory_set.holds(p));
                        }
                    }
                }
            }
        }
        assert(next.kernel_space().backed_by(&next.pool())) by {
            assert forall|p: usize| self.kernel_space().holds(p) implies next.pool().is_allocated(
                p,
            ) by {
                if self.tasks()[c].memory_set.holds(p) {
                    assert(!self.kernel_space().holds(p));
                }
            }
        }
        assert forall|i: int, p: usize|
            0 <= i < next.tasks().len() && #[trigger] next.tasks()[i].memory_set.holds(
                p,
            ) implies !next.kernel_space().holds(p) by {
            assert(self.tasks()[i].memory_set.holds(p));
        }
        assert forall|i: int, j: int, p: usize|
            0 <= i < j < next.tasks().len() && #[trigger] next.tasks()[i].memory_set.holds(
                p,
            ) implies !#[trigger] next.tasks()[j].memory_set.holds(p) by {
            assert(self.tasks()[i].memory_set.holds(p));
            if next.tasks()[j].memory_set.holds(p) {
                assert(self.tasks()[j].memory_set.holds(p));
            }
        }
    }
}

/// The kernel stacks of the slots below `slot` leave the pages of slot
/// `slot` alone: if `grown` is `space` with one kernel stack added for each
/// of those slots, the pages of `slot` are unmapped in the one exactly when
/// they are in the other.
proof fn stacks_leave_slot_clear(space: &AddressSpace, grown: &AddressSpace, slot: int)
    requires
        0 <= slot,
        grown.areas().len() == space.areas().len() + slot,
        forall|j: int|
            0 <= j < space.areas().len() ==> (#[trigger] grown.areas()[j]) == space.areas()[j],
        forall|j: int|
            0 <= j < slot ==> {
                &&& kernel_stack_fits(j)
                &&& (#[trigger] grown.areas()[space.areas().len() + j]).start_vpn
                    == kernel_stack_first_page(j)
                &&& grown.areas()[space.areas().len() + j].end_vpn == kernel_stack_past_page(j)
            },
    ensures
        kernel_stack_fits(slot) ==> (grown.range_is_clear(
            kernel_stack_first_page(slot),
            kernel_stack_past_page(slot),
        ) <==> space.range_is_clear(kernel_stack_first_page(slot), kernel_stack_past_page(slot))),
{
    if kernel_stack_fits(slot) {
        let base = space.areas().len() as int;
        let first = kernel_stack_first_page(slot);
        let past = kernel_stack_past_page(slot);
        kernel_stack_pages(slot);
        if space.range_is_clear(first, past) {
            assert forall|i: int| 0 <= i < grown.areas().len() implies !(
            #[trigger] grown.areas()[i]).overlaps(first, past) by {
                if i < base {
                    assert(grown.areas()[i] == space.areas()[i]);
                } else {
                    let j = i - base;
                    assert(grown.areas()[base + j].start_vpn == kernel_stack_first_page(j));
                    kernel_stack_pages(j);
                }
            }
        }
        if grown.range_is_clear(first, past) {
            assert forall|i: int| 0 <= i < space.areas().len() implies !(
            #[trigger] space.areas()[i]).overlaps(first, past) by {
                assert(grown.areas()[i] == space.areas()[i]);
            }
        }
    }
}

/// Starts the first task: see [`TaskManager::run_first_task`].
pub fn run_first_task(manager: &mut TaskManager, now: usize) -> (d: Dispatch)
    requires
        old(manager).wf(),
        old(manager).current() == 0,
        old(manager).tasks()[0].task_status == TaskStatus::Ready,
    ensures
        final(manager).wf(),
        final(manager).running(),
        d == (Dispatch::Launch { to: 0 }),
        final(manager).trap_contexts() == old(manager).trap_contexts(),
        old(manager).only_task_changed(
            final(manager),
            0,
            (TaskControlBlock {
                task_status: TaskStatus::Running,
                task_last_switch_time: now,
                ..old(manager).tasks()[0]
            }),
        ),
{
    manager.run_first_task(now)
}

/// The value that selects the current task's address space.
pub fn current_user_token(manager: &TaskManager) -> (t: usize)
    requires
        manager.wf(),
    ensures
        t == usize::MAX / 2 + 1 + manager.tasks()[manager.current()].memory_set.root(),
{
    manager.get_current_token()
}

/// The saved user-mode state of the current task.
pub fn current_trap_cx(manager: &mut TaskManager) -> (cx: &mut TrapContext)
    requires
        old(manager).wf(),
    ensures
        *cx == old(manager).trap_contexts()[old(manager).current()],
        old(manager).unchanged(final(manager)),
        final(manager).trap_contexts() == old(manager).trap_contexts().update(
            old(manager).current(),
            *final(cx),
        ),
{
    manager.get_current_trap_cx()
}

/// Suspends the running task at tick `now` and schedules the next one in.
/// The suspended task competes again at once, unless it has outlived the
/// lifetime ceiling.
pub fn suspend_current_and_run_next(manager: &mut TaskManager, now: usize) -> (d: Dispatch)
    requires
        old(manager).wf(),
        old(manager).running(),
    ensures
        final(manager).wf(),
        final(manager).kernel_space() == old(manager).kernel_space(),
        final(manager).pool() == old(manager).pool(),
        final(manager).trap_contexts() == old(manager).trap_contexts(),
        run_next(
            suspend(old(manager).tasks(), old(manager).current(), now),
            old(manager).current(),
            now,
            final(manager).tasks(),
            final(manager).current(),
            d,
        ),
        d is Switch ==> final(manager).running(),
        d is Switch || d is Halt,
{
    manager.mark_current_suspended(now);
    manager.run_next_task(now)
}

/// Ends the running task at tick `now` and schedules the next one in.
pub fn exit_current_and_run_next(manager: &mut TaskManager, now: usize) -> (d: Dispatch)
    requires
        old(manager).wf(),
        old(manager).running(),
    ensures
        final(manager).wf(),
        final(manager).kernel_space() == old(manager).kernel_space(),
        final(manager).pool() == old(manager).pool(),
        final(manager).trap_contexts() == old(manager).trap_contexts(),
        run_next(
            terminate(old(manager).tasks(), old(manager).current(), now),
            old(manager).current(),
            now,
            final(manager).tasks(),
            final(manager).current(),
            d,
        ),
        d is Switch ==> final(manager).running(),
        d is Switch || d is Halt,
{
    manager.mark_current_exited(now);
    manager.run_next_task(now)
}

/// Gives the current task the priority `prio`.
pub fn set_current_task_priority(manager: &mut TaskManager, prio: u16)
    requires
        old(manager).wf(),
        prio > 0,
    ensures
        final(manager).wf(),
        final(manager).trap_contexts() == old(manager).trap_contexts(),
        old(manager).only_task_changed(
            final(manager),
            old(manager).current(),
            (TaskControlBlock {
                task_priority: prio,
                ..old(manager).tasks()[old(manager).current()]
            }),
        ),
{
    manager.update_current_task_priority(prio);
}

/// Puts the running task to sleep until `ticks` after `now`, suspends it
/// and schedules the next one in.
pub fn current_sleep_for_ticks(manager: &mut TaskManager, ticks: usize, now: usize) -> (d: Dispatch)
    requires
        old(manager).wf(),
        old(manager).running(),
    ensures
        final(manager).wf(),
        final(manager).kernel_space() == old(manager).kernel_space(),
        final(manager).pool() == old(manager).pool(),
        final(manager).trap_contexts() == old(manager).trap_contexts(),
        run_next(
            suspend(
                put_to_sleep(old(manager).tasks(), old(manager).current(), ticks, now),
                old(manager).current(),
                now,
            ),
            old(manager).current(),
            now,
            final(manager).tasks(),
            final(manager).current(),
            d,
        ),
        d is Switch ==> final(manager).running(),
        d is Switch || d is Halt,
{
    manager.current_sleep_for_ticks(ticks, now);
    manager.mark_current_suspended(now);
    manager.run_next_task(now)
}

/// Maps memory for the current task: see [`TaskManager::do_current_mmap`].
pub fn current_mmap(manager: &mut TaskManager, start: usize, len: usize, prot: usize) -> (r: isize)
    requires
        old(manager).wf(),
    ensures
        final(manager).wf(),
        final(manager).trap_contexts() == old(manager).trap_contexts(),
        old(manager).only_current_memory_changed(final(manager)),
        mmap_effect(
            &old(manager).tasks()[old(manager).current()].memory_set,
            &final(manager).tasks()[old(manager).current()].memory_set,
            &old(manager).pool(),
            &final(manager).pool(),
            start,
            len,
            prot,
            r,
        ),
{
    manager.do_current_mmap(start, len, prot)
}

/// Unmaps memory of the current task: see
/// [`TaskManager::do_current_munmap`].
pub fn current_munmap(manager: &mut TaskManager, start: usize, len: usize) -> (r: isize)
    requires
        old(manager).wf(),
    ensures
        final(manager).wf(),
        final(manager).trap_contexts() == old(manager).trap_contexts(),
        old(manager).only_current_memory_changed(final(manager)),
        munmap_effect(
            &old(manager).tasks()[old(manager).current()].memory_set,
            &final(manager).tasks()[old(manager).current()].memory_set,
            &old(manager).pool(),
            &final(manager).pool(),
            start,
            len,
            r,
        ),
{
    manager.do_current_munmap(start, len)
}

/// What the page of `address` is mapped to in the current task's address
/// space, for the diagnosis of a fault at that address.
pub fn test_translate_in_current(manager: &TaskManager, address: usize) -> (pte: Option<
    PageTableEntry,
>)
    requires
        manager.wf(),
    ensures
        pte == manager.tasks()[manager.current()].memory_set.mapping(page_floor(address as int)),
{
    manager.test_current_page_access(address)
}

/// The trampoline is the same page in every address space: each task maps
/// the last page of the address range to the frame to which the kernel maps
/// it, with the same rights.
pub proof fn trampoline_is_shared(m: &TaskManager, i: int)
    requires
        m.wf(),
        0 <= i < m.tasks().len(),
    ensures
        m.tasks()[i].memory_set.mapping(trampoline_vpn()) == m.kernel_space().mapping(
            trampoline_vpn(),
        ),
        m.kernel_space().mapping(trampoline_vpn()) == Some(
            trampoline_entry(m.kernel_space().trampoline_frame()),
        ),
{
}

/// No frame has two owners: a frame that one task's address space owns is
/// out of the pool, and neither another task's address space nor the
/// kernel's owns it.
pub proof fn no_frame_is_shared(m: &TaskManager, i: int, j: int, p: usize)
    requires
        m.wf(),
        0 <= i < m.tasks().len(),
        0 <= j < m.tasks().len(),
        i != j,
        m.tasks()[i].memory_set.holds(p),
    ensures
        !m.tasks()[j].memory_set.holds(p),
        !m.kernel_space().holds(p),
        m.pool().is_allocated(p),
        !m.pool().is_free(p),
{
    assert(m.tasks()[i].memory_set.backed_by(&m.pool()));
    m.pool().free_is_not_allocated(p);
    if i < j {
        assert(!m.tasks()[j].memory_set.holds(p));
    } else {
        if m.tasks()[j].memory_set.holds(p) {
            assert(!m.tasks()[i].memory_set.holds(p));
        }
    }
}

/// Once scheduling has begun exactly one task is running: the current one.
pub proof fn one_task_runs(m: &TaskManager, i: int)
    requires
        m.wf(),
        m.running(),
        0 <= i < m.tasks().len(),
    ensures
        m.tasks()[i].task_status == TaskStatus::Running <==> i == m.current(),
{
}

} // verus!
