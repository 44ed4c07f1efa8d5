//! The stride scheduler as mathematics: the order in which tasks are
//! scanned, the task that is picked, what suspending, ending and scheduling
//! a task make of it, and what holds of every scheduling step.

use crate::config::MAX_APP_LIFETIME_CLOCK;
use crate::stride::BIG_STRIDE;
use crate::stride::stride_advance;
use crate::stride::stride_after;
use crate::stride::stride_gap;
use crate::stride::advanced_stride_is_after;
use crate::stride::step_is_at_most_half;
use crate::stride::STRIDE_REVERSE;
use crate::task::TaskControlBlock;
use crate::task::TaskStatus;
use vstd::prelude::*;

verus! {

/// What the caller must do to the processor after a scheduling decision.
#[derive(Clone, Copy, Debug, PartialEq, Eq, Structural)]
pub enum Dispatch {
    /// Save the running control flow into the continuation of task `from`
    /// and resume the continuation of task `to`.
    Switch { from: usize, to: usize },
    /// Resume the continuation of task `to`; nothing ran before, so what is
    /// saved goes to a placeholder.
    Launch { to: usize },
    /// No task can run: the kernel has no further work.
    Halt,
}

/// The `k`-th task index that a scan visits: the scan starts just after the
/// current task and wraps around, ending with the current task itself.
pub open spec fn scan_id(current: int, count: int, k: int) -> int {
    if current + 1 + k < count {
        current + 1 + k
    } else {
        current + 1 + k - count
    }
}

/// The scan counts modulo the number of tasks, and over a whole round it
/// visits every task: the `k`-th index is `current + 1 + k` reduced modulo
/// `count`, and index `id` is visited at position `id - current - 1`,
/// reduced likewise.
pub proof fn scan_is_modular(current: int, count: int, k: int, id: int)
    requires
        0 <= current < count,
        0 <= k < count,
        0 <= id < count,
    ensures
        scan_id(current, count, k) == (current + 1 + k) % count,
        0 <= scan_id(current, count, k) < count,
        scan_id(current, count, (id - current - 1) % count) == id,
        0 <= (id - current - 1) % count < count,
{
    let x = current + 1 + k;
    if x < count {
        vstd::arithmetic::div_mod::lemma_small_mod(x as nat, count as nat);
    } else {
        vstd::arithmetic::div_mod::lemma_small_mod((x - count) as nat, count as nat);
        vstd::arithmetic::div_mod::lemma_mod_sub_multiples_vanish(x, count);
    }
    let y = id - current - 1;
    if y >= 0 {
        vstd::arithmetic::div_mod::lemma_small_mod(y as nat, count as nat);
    } else {
        vstd::arithmetic::div_mod::lemma_small_mod((y + count) as nat, count as nat);
        vstd::arithmetic::div_mod::lemma_mod_sub_multiples_vanish(y + count, count);
    }
}

/// The task that the scheduler prefers among the first `k` the scan visits.
///
/// The first eligible task is the first candidate. Each later eligible task
/// replaces the candidate only if the candidate's stride is ordered strictly
/// after its own, so among equal strides the one met first stays.
pub open spec fn pick(tasks: Seq<TaskControlBlock>, current: int, now: usize, k: nat) -> Option<
    int,
>
    decreases k,
{
    if k == 0 {
        None
    } else {
        let earlier = pick(tasks, current, now, (k - 1) as nat);
        let id = scan_id(current, tasks.len() as int, k - 1);
        if !tasks[id].eligible(now) {
            earlier
        } else {
            match earlier {
                None => Some(id),
                Some(best) => if stride_after(
                    tasks[best].task_stride.value,
                    tasks[id].task_stride.value,
                ) {
                    Some(id)
                } else {
                    Some(best)
                },
            }
        }
    }
}

/// The elapsed run time of a task that is suspended at tick `now`.
pub open spec fn elapsed_at(task: TaskControlBlock, now: usize) -> usize {
    task.task_elapse_time.wrapping_add(now.wrapping_sub(task.task_last_switch_time))
}

/// A task as it is left when it is suspended at tick `now`: its run time is
/// accounted for, and it is ready again unless it has outlived the ceiling.
pub open spec fn suspended_at(task: TaskControlBlock, now: usize) -> TaskControlBlock {
    TaskControlBlock {
        task_elapse_time: elapsed_at(task, now),
        task_status: if elapsed_at(task, now) > MAX_APP_LIFETIME_CLOCK {
            TaskStatus::Exited
        } else {
            TaskStatus::Ready
        },
        ..task
    }
}

/// A task as it is left when it exits at tick `now`.
pub open spec fn exited_at(task: TaskControlBlock, now: usize) -> TaskControlBlock {
    TaskControlBlock {
        task_elapse_time: elapsed_at(task, now),
        task_status: TaskStatus::Exited,
        ..task
    }
}

/// A task as it is left when it is scheduled in at tick `now`.
pub open spec fn scheduled_at(task: TaskControlBlock, now: usize) -> TaskControlBlock {
    TaskControlBlock {
        task_status: TaskStatus::Running,
        task_stride: crate::stride::Stride {
            value: stride_advance(
                task.task_stride.value,
                (BIG_STRIDE / task.task_priority) as u16,
            ),
        },
        task_last_switch_time: now,
        ..task
    }
}

/// The tasks as suspending the one in slot `current` at tick `now` leaves
/// them.
pub open spec fn suspend(tasks: Seq<TaskControlBlock>, current: int, now: usize) -> Seq<
    TaskControlBlock,
> {
    tasks.update(current, suspended_at(tasks[current], now))
}

/// The tasks as ending the one in slot `current` at tick `now` leaves them.
pub open spec fn terminate(tasks: Seq<TaskControlBlock>, current: int, now: usize) -> Seq<
    TaskControlBlock,
> {
    tasks.update(current, exited_at(tasks[current], now))
}

/// The tasks as setting the wake-up tick of the one in slot `current` to
/// `ticks` after `now` leaves them.
pub open spec fn put_to_sleep(
    tasks: Seq<TaskControlBlock>,
    current: int,
    ticks: usize,
    now: usize,
) -> Seq<TaskControlBlock> {
    tasks.update(
        current,
        (TaskControlBlock { task_awake_time: now.wrapping_add(ticks), ..tasks[current] }),
    )
}

/// What scheduling the next task at tick `now` makes of the tasks and the
/// current slot: if a task is picked, it is scheduled in and becomes
/// current, and the processor is to switch to it from the task that was
/// current; if none is, nothing changes and the kernel is to halt.
pub open spec fn run_next(
    tasks: Seq<TaskControlBlock>,
    current: int,
    now: usize,
    next_tasks: Seq<TaskControlBlock>,
    next_current: int,
    d: Dispatch,
) -> bool {
    match pick(tasks, current, now, tasks.len()) {
        None => {
            &&& d == Dispatch::Halt
            &&& next_tasks == tasks
            &&& next_current == current
        },
        Some(next) => {
            &&& d == (Dispatch::Switch { from: current as usize, to: next as usize })
            &&& next_current == next
            &&& next_tasks == tasks.update(next, scheduled_at(tasks[next], now))
        },
    }
}

/// The scheduler only ever picks a task that is ready and awake: whatever
/// `pick` returns is a valid slot whose task is eligible, reached by the
/// scan.
pub proof fn pick_is_eligible(tasks: Seq<TaskControlBlock>, current: int, now: usize, k: nat)
    requires
        0 <= current < tasks.len(),
        k <= tasks.len(),
    ensures
        pick(tasks, current, now, k) matches Some(id) ==> {
            &&& 0 <= id < tasks.len()
            &&& tasks[id].eligible(now)
            &&& tasks[id].task_status == TaskStatus::Ready
            &&& tasks[id].task_awake_time < now
        },
    decreases k,
{
    if k > 0 {
        pick_is_eligible(tasks, current, now, (k - 1) as nat);
    }
}

/// The scheduler finds a task whenever one is eligible: `pick` returns
/// nothing only if none of the tasks scanned so far is eligible.
pub proof fn pick_finds_any(tasks: Seq<TaskControlBlock>, current: int, now: usize, k: nat)
    requires
        0 <= current < tasks.len(),
        k <= tasks.len(),
    ensures
        pick(tasks, current, now, k) is None <==> forall|j: int|
            0 <= j < k ==> !(#[trigger] tasks[scan_id(current, tasks.len() as int, j)]).eligible(
                now,
            ),
    decreases k,
{
    if k > 0 {
        pick_finds_any(tasks, current, now, (k - 1) as nat);
        if pick(tasks, current, now, k) is None {
            assert forall|j: int| 0 <= j < k implies !(#[trigger] tasks[scan_id(
                current,
                tasks.len() as int,
                j,
            )]).eligible(now) by {
                if j < k - 1 {
                }
            }
        } else if pick(tasks, current, now, (k - 1) as nat) is None {
            assert(tasks[scan_id(current, tasks.len() as int, k - 1)].eligible(now));
        } else {
            let j = choose|j: int|
                0 <= j < k - 1 && (#[trigger] tasks[scan_id(
                    current,
                    tasks.len() as int,
                    j,
                )]).eligible(now);
            assert(0 <= j < k);
        }
    }
}

/// Whether the strides of the tasks that are eligible at tick `now` all lie
/// within half the counter's range of one another, so that the wraparound
/// order on them is their numeric order.
pub open spec fn strides_are_near(tasks: Seq<TaskControlBlock>, now: usize) -> bool {
    forall|i: int, j: int|
        0 <= i < tasks.len() && 0 <= j < tasks.len() && (#[trigger] tasks[i]).eligible(now) && (
        #[trigger] tasks[j]).eligible(now) ==> stride_gap(
            tasks[i].task_stride.value,
            tasks[j].task_stride.value,
        ) <= STRIDE_REVERSE
}

/// Whether the `j`-th task that the scan visits is eligible at tick `now`.
pub open spec fn eligible_at(tasks: Seq<TaskControlBlock>, current: int, now: usize, j: int) -> bool {
    tasks[scan_id(current, tasks.len() as int, j)].eligible(now)
}

/// The stride of the `j`-th task that the scan visits.
pub open spec fn stride_at(tasks: Seq<TaskControlBlock>, current: int, j: int) -> u16 {
    tasks[scan_id(current, tasks.len() as int, j)].task_stride.value
}

/// Whether the task met at position `p` of the scan has the least stride of
/// the eligible tasks among the first `k` scanned, and is the first of them
/// with that stride.
pub open spec fn least_at(
    tasks: Seq<TaskControlBlock>,
    current: int,
    now: usize,
    k: int,
    p: int,
) -> bool {
    &&& 0 <= p < k
    &&& eligible_at(tasks, current, now, p)
    &&& forall|j: int|
        0 <= j < k && #[trigger] eligible_at(tasks, current, now, j) ==> stride_at(
            tasks,
            current,
            p,
        ) <= stride_at(tasks, current, j)
    &&& forall|j: int|
        0 <= j < p && #[trigger] eligible_at(tasks, current, now, j) ==> stride_at(
            tasks,
            current,
            p,
        ) < stride_at(tasks, current, j)
}

/// While the strides of the eligible tasks are near one another, the
/// scheduler picks a task of least stride, and among those of least stride
/// the one that the scan meets first. The position at which the scan meets
/// the task picked is returned.
pub proof fn pick_is_least(tasks: Seq<TaskControlBlock>, current: int, now: usize, k: nat) -> (p:
    int)
    requires
        0 <= current < tasks.len(),
        k <= tasks.len(),
        strides_are_near(tasks, now),
    ensures
        pick(tasks, current, now, k) matches Some(w) ==> scan_id(current, tasks.len() as int, p)
            == w && least_at(tasks, current, now, k as int, p),
    decreases k,
{
    if k == 0 {
        0
    } else {
        let n = tasks.len() as int;
        let earlier = pick(tasks, current, now, (k - 1) as nat);
        let id = scan_id(current, n, k - 1);
        let q = pick_is_least(tasks, current, now, (k - 1) as nat);
        if !tasks[id].eligible(now) {
            assert(!eligible_at(tasks, current, now, k - 1));
            q
        } else {
            assert(eligible_at(tasks, current, now, k - 1));
            match earlier {
                None => {
                    pick_finds_any(tasks, current, now, (k - 1) as nat);
                    assert forall|j: int| 0 <= j < k - 1 implies !#[trigger] eligible_at(
                        tasks,
                        current,
                        now,
                        j,
                    ) by {
                        assert(!tasks[scan_id(current, n, j)].eligible(now));
                    }
                    k - 1
                },
                Some(best) => {
                    assert(0 <= scan_id(current, n, q) < n);
                    assert(stride_gap(tasks[best].task_stride.value, tasks[id].task_stride.value)
                        <= STRIDE_REVERSE);
                    if stride_after(tasks[best].task_stride.value, tasks[id].task_stride.value) {
                        assert(stride_at(tasks, current, k - 1) < stride_at(tasks, current, q));
                        k - 1
                    } else {
                        assert(stride_at(tasks, current, q) <= stride_at(tasks, current, k - 1));
                        q
                    }
                },
            }
        }
    }
}

/// Strides never decrease: a task of priority 2 or more that is scheduled
/// in has a stride ordered after the one it had. Nothing else changes a
/// stride.
pub proof fn scheduling_advances_the_stride(task: TaskControlBlock, now: usize)
    requires
        task.task_priority >= 2,
    ensures
        stride_after(scheduled_at(task, now).task_stride.value, task.task_stride.value),
        suspended_at(task, now).task_stride == task.task_stride,
        exited_at(task, now).task_stride == task.task_stride,
{
    step_is_at_most_half(task.task_priority);
    advanced_stride_is_after(task.task_stride.value, BIG_STRIDE / task.task_priority);
}

/// A task that has outlived the lifetime ceiling when it is suspended is
/// ended, whether it asked to exit or not; any other is ready again.
pub proof fn lifetime_is_enforced(task: TaskControlBlock, now: usize)
    ensures
        elapsed_at(task, now) > MAX_APP_LIFETIME_CLOCK ==> suspended_at(task, now).task_status
            == TaskStatus::Exited,
        elapsed_at(task, now) <= MAX_APP_LIFETIME_CLOCK ==> suspended_at(task, now).task_status
            == TaskStatus::Ready,
        task.task_last_switch_time <= now && task.task_elapse_time + (now
            - task.task_last_switch_time) <= usize::MAX ==> elapsed_at(task, now)
            == task.task_elapse_time + (now - task.task_last_switch_time),
{
}

/// A task asleep until tick `wake` is passed over at every tick up to and
/// including `wake`, and competes again, if it is ready, at every later
/// tick.
pub proof fn sleeper_waits(task: TaskControlBlock, wake: usize, now: usize)
    requires
        task.task_awake_time == wake,
    ensures
        now <= wake ==> !task.eligible(now),
        now > wake && task.task_status == TaskStatus::Ready ==> task.eligible(now),
{
}

/// Scheduling never revives a task: one that has exited before the next
/// task is scheduled in has exited after.
pub proof fn exited_is_final(
    tasks: Seq<TaskControlBlock>,
    current: int,
    now: usize,
    next_tasks: Seq<TaskControlBlock>,
    next_current: int,
    d: Dispatch,
    j: int,
)
    requires
        0 <= current < tasks.len(),
        0 <= j < tasks.len(),
        run_next(tasks, current, now, next_tasks, next_current, d),
        tasks[j].task_status == TaskStatus::Exited,
    ensures
        next_tasks[j] == tasks[j],
{
    pick_is_eligible(tasks, current, now, tasks.len());
}

/// A task that is ended, by its own exit or by a fault, has exited once the
/// next task is scheduled in, and is not the one scheduled in.
pub proof fn ended_task_has_exited(
    tasks: Seq<TaskControlBlock>,
    current: int,
    now: usize,
    next_tasks: Seq<TaskControlBlock>,
    next_current: int,
    d: Dispatch,
)
    requires
        0 <= current < tasks.len(),
        run_next(terminate(tasks, current, now), current, now, next_tasks, next_current, d),
    ensures
        next_tasks[current].task_status == TaskStatus::Exited,
        d is Switch ==> next_current != current,
        d is Halt ==> next_current == current,
{
    let ended = terminate(tasks, current, now);
    pick_is_eligible(ended, current, now, ended.len());
}

/// A task that is ended, by its own exit or by a fault, takes no other
/// task with it. After the running task `current` is ended at tick `now`
/// and the next task is scheduled in, every other task is as it was, but
/// for the one that is scheduled in; and if any other task was eligible,
/// one is scheduled in.
pub proof fn ending_a_task_spares_the_others(
    tasks: Seq<TaskControlBlock>,
    current: int,
    now: usize,
    next_tasks: Seq<TaskControlBlock>,
    next_current: int,
    d: Dispatch,
    j: int,
)
    requires
        0 <= current < tasks.len(),
        0 <= j < tasks.len(),
        j != current,
        run_next(terminate(tasks, current, now), current, now, next_tasks, next_current, d),
    ensures
        next_tasks[j].memory_set == tasks[j].memory_set,
        next_tasks[j] == tasks[j] || (d == (Dispatch::Switch {
            from: current as usize,
            to: j as usize,
        }) && tasks[j].eligible(now) && next_tasks[j] == scheduled_at(tasks[j], now)),
        tasks[j].eligible(now) ==> d is Switch,
{
    let ended = terminate(tasks, current, now);
    pick_is_eligible(ended, current, now, ended.len());
    pick_finds_any(ended, current, now, ended.len());
    if tasks[j].eligible(now) {
        let k = if j > current {
            j - current - 1
        } else {
            j + ended.len() - current - 1
        };
        assert(scan_id(current, ended.len() as int, k) == j);
        assert(ended[j].eligible(now));
    }
}

} // verus!
