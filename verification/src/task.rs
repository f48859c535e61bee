//! Task control blocks and the scheduler data structures: task identity,
//! states, scheduling classes, the saved CPU context, and round-robin
//! selection of the next runnable task.
//!
//! The scheduler here only decides; the context-switch itself is a few
//! instructions of assembly that the surrounding kernel performs on the
//! indices this module hands out.

use vstd::prelude::*;

verus! {

/// Identity of a task. The caller supplies the counter value, since the
/// kernel's id counter is a global the trampoline owns.
#[derive(Clone, Copy, PartialEq, Eq, Structural, Debug)]
pub struct TaskId(pub u64);

impl TaskId {
    pub fn new(value: u64) -> (id: TaskId)
        ensures
            id.0 == value,
    {
        TaskId(value)
    }

    pub fn as_u64(self) -> (v: u64)
        ensures
            v == self.0,
    {
        self.0
    }
}

/// Lifecycle states of a task.
#[derive(Clone, Copy, PartialEq, Eq, Structural, Debug)]
pub enum TaskState {
    Ready,
    Running,
    Blocked,
    Terminated,
}

/// Scheduling class, with its priority where the class carries one.
#[derive(Clone, Copy, PartialEq, Eq, Structural, Debug)]
pub enum SchedClass {
    Realtime(u8),
    Fair(u8),
    Batch,
    Iso,
}

impl Default for SchedClass {
    /// Normal priority in the fair class.
    fn default() -> (c: SchedClass)
        ensures
            c == SchedClass::Fair(120),
    {
        SchedClass::Fair(120)
    }
}

/// Saved CPU context of a task: callee-saved registers, execution state,
/// segment selectors, and address-space root.
#[derive(Clone, Copy, PartialEq, Eq, Structural, Debug)]
pub struct CPUContext {
    pub rsp: u64,
    pub rbp: u64,
    pub rbx: u64,
    pub r12: u64,
    pub r13: u64,
    pub r14: u64,
    pub r15: u64,
    pub rip: u64,
    pub rflags: u64,
    pub cs: u64,
    pub ss: u64,
    pub fs: u64,
    pub gs: u64,
    pub ds: u64,
    pub es: u64,
    pub fs_base: u64,
    pub gs_base: u64,
    pub cr3: u64,
}

impl Default for CPUContext {
    /// Zeroed context with interrupts enabled and the kernel code and stack
    /// selectors.
    fn default() -> (c: CPUContext)
        ensures
            c.rsp == 0 && c.rbp == 0 && c.rbx == 0 && c.r12 == 0 && c.r13 == 0 && c.r14 == 0
                && c.r15 == 0 && c.rip == 0,
            c.rflags == 0x202,
            c.cs == 0x8,
            c.ss == 0x10,
            c.fs == 0 && c.gs == 0 && c.ds == 0 && c.es == 0 && c.fs_base == 0 && c.gs_base == 0
                && c.cr3 == 0,
    {
        CPUContext {
            rsp: 0,
            rbp: 0,
            rbx: 0,
            r12: 0,
            r13: 0,
            r14: 0,
            r15: 0,
            rip: 0,
            rflags: 0x202,
            cs: 0x8,
            ss: 0x10,
            fs: 0,
            gs: 0,
            ds: 0,
            es: 0,
            fs_base: 0,
            gs_base: 0,
            cr3: 0,
        }
    }
}

/// A task control block.
#[derive(Clone, Copy, Debug)]
pub struct TaskCB {
    pub id: TaskId,
    pub state: TaskState,
    pub sched_class: SchedClass,
    pub context: CPUContext,
    pub kstack: u64,
    pub ustack: Option<u64>,
    pub name: &'static str,
}

impl TaskCB {
    /// Build a ready kernel task: stack pointer aligned down to 16 bytes,
    /// entry point in RIP, interrupts enabled, kernel selectors, the given
    /// address-space root. The entry point and CR3 arrive as plain values;
    /// reading CR3 is the caller's privilege.
    pub fn new(
        name: &'static str,
        entry_point: u64,
        stack: u64,
        sched_class: SchedClass,
        cr3: u64,
        id: TaskId,
    ) -> (t: TaskCB)
        ensures
            t.id == id,
            t.state == TaskState::Ready,
            t.sched_class == sched_class,
            t.kstack == stack,
            t.ustack.is_none(),
            t.name == name,
            t.context.rsp == stack & !0xfu64,
            t.context.rsp == stack - stack % 16,
            t.context.rbp == 0,
            t.context.rip == entry_point,
            t.context.rflags == 0x202,
            t.context.cs == 0x8,
            t.context.ss == 0x10,
            t.context.ds == 0x10,
            t.context.es == 0x10,
            t.context.fs == 0,
            t.context.gs == 0,
            t.context.cr3 == cr3,
    {
        let mut context = CPUContext::default();
        let rsp = stack & !0xfu64;
        proof {
            assert(stack & !0xfu64 == stack - stack % 16 && stack & !0xfu64 <= stack)
                by (bit_vector);
        }
        context.rsp = rsp;
        context.rbp = 0;
        context.rip = entry_point;
        context.rflags = 0x202;
        context.cs = 0x8;
        context.ss = 0x10;
        context.ds = 0x10;
        context.es = 0x10;
        context.fs = 0;
        context.gs = 0;
        context.cr3 = cr3;
        TaskCB {
            id,
            state: TaskState::Ready,
            sched_class,
            context,
            kstack: stack,
            ustack: None,
            name,
        }
    }

    /// Move the task to a new lifecycle state.
    pub fn set_state(&mut self, state: TaskState)
        ensures
            *final(self) == (TaskCB { state, ..*old(self) }),
    {
        self.state = state;
    }

    /// Effective priority of the task's class.
    pub fn priority(&self) -> (p: u8)
        ensures
            p == match self.sched_class {
                SchedClass::Realtime(q) => q,
                SchedClass::Fair(q) => q,
                SchedClass::Batch => 140u8,
                SchedClass::Iso => 50u8,
            },
    {
        match self.sched_class {
            SchedClass::Realtime(p) => p,
            SchedClass::Fair(p) => p,
            SchedClass::Batch => 140,
            SchedClass::Iso => 50,
        }
    }
}

/// Builder for kernel tasks.
pub struct TaskBuilder {
    pub name: &'static str,
    pub sched_class: SchedClass,
    pub stack_size: usize,
}

/// Base of the placeholder kernel-task stack region.
pub const KERNEL_STACK_BASE: u64 = 0xffff_ff80_0000_0000;

impl TaskBuilder {
    /// A builder with default class and an 8 KiB stack.
    pub fn new(name: &'static str) -> (b: TaskBuilder)
        ensures
            b.name == name,
            b.sched_class == SchedClass::Fair(120),
            b.stack_size == 8192,
    {
        TaskBuilder { name, sched_class: SchedClass::default(), stack_size: 8192 }
    }

    /// Choose the scheduling class.
    pub fn sched_class(self, sched_class: SchedClass) -> (b: TaskBuilder)
        ensures
            b == (TaskBuilder { sched_class, ..self }),
    {
        TaskBuilder { sched_class, ..self }
    }

    /// Choose the stack size.
    pub fn stack_size(self, size: usize) -> (b: TaskBuilder)
        ensures
            b == (TaskBuilder { stack_size: size, ..self }),
    {
        TaskBuilder { stack_size: size, ..self }
    }

    /// Build a kernel task on the placeholder stack region.
    pub fn build_kernel_task(self, entry_point: u64, cr3: u64, id: TaskId) -> (t: TaskCB)
        requires
            self.stack_size <= 0x1_0000_0000,
        ensures
            t.id == id,
            t.state == TaskState::Ready,
            t.sched_class == self.sched_class,
            t.name == self.name,
            t.kstack == KERNEL_STACK_BASE + self.stack_size,
            t.context.rip == entry_point,
            t.context.cr3 == cr3,
    {
        let stack_top = KERNEL_STACK_BASE + (self.stack_size as u64);
        TaskCB::new(self.name, entry_point, stack_top, self.sched_class, cr3, id)
    }
}

/// Poll result of a cooperative task.
pub enum TaskPoll<T> {
    Ready(T),
    Pending,
}

/// A cooperative task that the kernel polls until it is ready. The spec
/// functions pin down when a poll completes, what state it leaves behind,
/// and what value it produces.
pub trait AsyncTask: Sized {
    type Output;

    /// Whether the next poll completes.
    spec fn ready_now(&self) -> bool;

    /// The state after one poll.
    spec fn stepped(&self) -> Self;

    /// The value a completing poll produces.
    spec fn poll_result(&self) -> Self::Output;

    /// Poll the task once.
    fn poll(&mut self) -> (r: TaskPoll<Self::Output>)
        ensures
            *final(self) == old(self).stepped(),
            match r {
                TaskPoll::Ready(v) => old(self).ready_now() && v == old(self).poll_result(),
                TaskPoll::Pending => !old(self).ready_now(),
            },
    ;
}

/// A counting task: pending until it has been polled `target` times.
pub struct AsyncTaskExample {
    pub counter: u64,
    pub target: u64,
}

impl AsyncTaskExample {
    pub fn new(target: u64) -> (t: AsyncTaskExample)
        ensures
            t.counter == 0,
            t.target == target,
    {
        AsyncTaskExample { counter: 0, target }
    }
}

impl AsyncTask for AsyncTaskExample {
    type Output = u64;

    open spec fn ready_now(&self) -> bool {
        self.stepped().counter >= self.target
    }

    open spec fn stepped(&self) -> AsyncTaskExample {
        AsyncTaskExample {
            counter: if self.counter == u64::MAX {
                u64::MAX
            } else {
                (self.counter + 1) as u64
            },
            target: self.target,
        }
    }

    open spec fn poll_result(&self) -> u64 {
        self.stepped().counter
    }

    fn poll(&mut self) -> (r: TaskPoll<u64>) {
        if self.counter < u64::MAX {
            self.counter = self.counter + 1;
        }
        if self.counter >= self.target {
            TaskPoll::Ready(self.counter)
        } else {
            TaskPoll::Pending
        }
    }
}

/// First index with a ready task, probing `steps` slots round-robin from
/// `from`; -1 when none of the probed slots is ready.
pub open spec fn find_ready(s: Seq<TaskCB>, from: int, steps: nat) -> int
    decreases steps,
{
    if s.len() == 0 || !(0 <= from < s.len()) {
        -1
    } else if steps == 0 {
        -1
    } else if s[from].state == TaskState::Ready {
        from
    } else {
        find_ready(s, (from + 1) % (s.len() as int), (steps - 1) as nat)
    }
}

/// First index whose task carries this id; -1 when none does.
pub open spec fn find_id(s: Seq<TaskCB>, id: TaskId, from: int) -> int
    decreases s.len() - from,
{
    if !(0 <= from < s.len()) {
        -1
    } else if s[from].id == id {
        from
    } else {
        find_id(s, id, from + 1)
    }
}

/// The task table: tasks in insertion order plus the round-robin cursor.
pub struct TaskManager {
    pub tasks: Vec<TaskCB>,
    pub current_task_idx: usize,
}

impl TaskManager {
    /// Cursor inside the table (or zero when it is empty).
    pub open spec fn wf(&self) -> bool {
        if self.tasks@.len() == 0 {
            self.current_task_idx == 0
        } else {
            self.current_task_idx < self.tasks@.len()
        }
    }

    /// An empty task table.
    pub fn new() -> (m: TaskManager)
        ensures
            m.wf(),
            m.tasks@ == Seq::<TaskCB>::empty(),
            m.current_task_idx == 0,
    {
        TaskManager { tasks: Vec::new(), current_task_idx: 0 }
    }

    /// Start building a task.
    pub fn create_task(name: &'static str) -> (b: TaskBuilder)
        ensures
            b.name == name,
            b.sched_class == SchedClass::Fair(120),
            b.stack_size == 8192,
    {
        TaskBuilder::new(name)
    }

    /// Register a cooperative task; the id counter value comes from the
    /// caller.
    pub fn spawn_async<T: AsyncTask>(&self, task: T, next_id: u64) -> (id: TaskId)
        ensures
            id.0 == next_id,
    {
        let _ = task;
        TaskId::new(next_id)
    }

    /// Append a task to the table.
    pub fn add_task(&mut self, task: TaskCB)
        requires
            old(self).wf(),
        ensures
            final(self).wf(),
            final(self).tasks@ == old(self).tasks@.push(task),
            final(self).current_task_idx == old(self).current_task_idx,
    {
        self.tasks.push(task);
    }

    /// Pick the next ready task round-robin from the cursor; on success the
    /// cursor moves just past the chosen slot.
    pub fn next_ready_task(&mut self) -> (r: Option<TaskCB>)
        requires
            old(self).wf(),
        ensures
            final(self).wf(),
            final(self).tasks@ == old(self).tasks@,
            ({
                let k = find_ready(
                    old(self).tasks@,
                    old(self).current_task_idx as int,
                    old(self).tasks@.len(),
                );
                if k < 0 {
                    r.is_none() && final(self).current_task_idx == old(self).current_task_idx
                } else {
                    r == Some(old(self).tasks@[k]) && final(self).current_task_idx == (k + 1) % (
                    old(self).tasks@.len() as int)
                }
            }),
    {
        let len = self.tasks.len();
        if len == 0 {
            return None;
        }
        let mut idx = self.current_task_idx;
        let mut probes: usize = 0;
        while probes < len
            invariant
                self.wf(),
                self.tasks@ == old(self).tasks@,
                self.current_task_idx == old(self).current_task_idx,
                len == self.tasks@.len(),
                len > 0,
                0 <= idx < len,
                probes <= len,
                find_ready(old(self).tasks@, old(self).current_task_idx as int, len as nat)
                    == find_ready(self.tasks@, idx as int, (len - probes) as nat),
            decreases len - probes,
        {
            if matches!(self.tasks[idx].state, TaskState::Ready) {
                self.current_task_idx = (idx + 1) % len;
                return Some(self.tasks[idx]);
            }
            idx = (idx + 1) % len;
            probes += 1;
        }
        None
    }

    /// Pick the next ready task, mark it running in the table, and hand it
    /// back, as the timer path's scheduling step does.
    pub fn schedule(&mut self) -> (r: Option<TaskCB>)
        requires
            old(self).wf(),
        ensures
            final(self).wf(),
            ({
                let k = find_ready(
                    old(self).tasks@,
                    old(self).current_task_idx as int,
                    old(self).tasks@.len(),
                );
                if k < 0 {
                    r.is_none() && final(self).tasks@ == old(self).tasks@
                } else {
                    exists|t: TaskCB|
                        r == Some(t) && t == (TaskCB {
                            state: TaskState::Running,
                            ..old(self).tasks@[k]
                        })
                }
            }),
    {
        let next = self.next_ready_task();
        match next {
            None => None,
            Some(mut task) => {
                task.set_state(TaskState::Running);
                self.update_task(task);
                Some(task)
            },
        }
    }

    /// Replace the first task carrying the same id, if any.
    pub fn update_task(&mut self, updated_task: TaskCB)
        requires
            old(self).wf(),
        ensures
            final(self).wf(),
            final(self).current_task_idx == old(self).current_task_idx,
            ({
                let k = find_id(old(self).tasks@, updated_task.id, 0);
                if k < 0 {
                    final(self).tasks@ == old(self).tasks@
                } else {
                    final(self).tasks@ == old(self).tasks@.update(k, updated_task)
                }
            }),
    {
        let len = self.tasks.len();
        let mut i: usize = 0;
        while i < len
            invariant
                self.wf(),
                self.tasks@ == old(self).tasks@,
                self.current_task_idx == old(self).current_task_idx,
                len == self.tasks@.len(),
                i <= len,
                find_id(old(self).tasks@, updated_task.id, 0) == find_id(
                    old(self).tasks@,
                    updated_task.id,
                    i as int,
                ),
            decreases len - i,
        {
            if self.tasks[i].id == updated_task.id {
                let entry = &mut self.tasks[i];
                *entry = updated_task;
                return ;
            }
            i += 1;
        }
    }
}

/// The scheduler proper: its task list and the index of the running task.
pub struct Scheduler {
    pub tasks: Vec<TaskCB>,
    pub current: usize,
}

impl Scheduler {
    pub open spec fn wf(&self) -> bool {
        if self.tasks@.len() == 0 {
            self.current == 0
        } else {
            self.current < self.tasks@.len()
        }
    }

    /// An empty scheduler.
    pub fn new() -> (s: Scheduler)
        ensures
            s.wf(),
            s.tasks@ == Seq::<TaskCB>::empty(),
            s.current == 0,
    {
        Scheduler { tasks: Vec::new(), current: 0 }
    }

    /// Append a task.
    pub fn add_task(&mut self, task: TaskCB)
        requires
            old(self).wf(),
        ensures
            final(self).wf(),
            final(self).tasks@ == old(self).tasks@.push(task),
            final(self).current == old(self).current,
    {
        self.tasks.push(task);
    }

    /// How many tasks are registered.
    pub fn task_count(&self) -> (n: usize)
        ensures
            n == self.tasks@.len(),
    {
        self.tasks.len()
    }

    /// The first context switch: mark the boot task ready, the next task
    /// running, move the cursor, and hand back the pair of indices whose
    /// contexts the assembly switch must save into and load from.
    pub fn start(&mut self) -> (r: (usize, usize))
        requires
            old(self).wf(),
            old(self).tasks@.len() > 0,
        ensures
            final(self).wf(),
            ({
                let len = old(self).tasks@.len() as int;
                let from = old(self).current as int;
                let to = (from + 1) % len;
                &&& r.0 == from
                &&& r.1 == to
                &&& final(self).current == to
                &&& final(self).tasks@ == old(self).tasks@.update(
                    from,
                    TaskCB { state: TaskState::Ready, ..old(self).tasks@[from] },
                ).update(
                    to,
                    TaskCB {
                        state: TaskState::Running,
                        ..old(self).tasks@.update(
                            from,
                            TaskCB { state: TaskState::Ready, ..old(self).tasks@[from] },
                        )[to]
                    },
                )
            }),
    {
        let len = self.tasks.len();
        let current_idx = self.current;
        let next_idx = (current_idx + 1) % len;
        let entry = &mut self.tasks[current_idx];
        entry.state = TaskState::Ready;
        let entry2 = &mut self.tasks[next_idx];
        entry2.state = TaskState::Running;
        self.current = next_idx;
        (current_idx, next_idx)
    }
}

/// Cooperative yield: find the next ready task after the current one,
/// wrapping but never re-picking the current slot (except alone in the
/// list), mark the handover, and return the context indices for the switch;
/// `None` when no other task is ready.
pub fn task_yield(sched: &mut Scheduler) -> (r: Option<(usize, usize)>)
    requires
        old(sched).wf(),
        old(sched).tasks@.len() > 0,
    ensures
        final(sched).wf(),
        ({
            let len = old(sched).tasks@.len() as int;
            let from = old(sched).current as int;
            let probes: nat = if len == 1 {
                1nat
            } else {
                (len - 1) as nat
            };
            let k = find_ready(old(sched).tasks@, (from + 1) % len, probes);
            if k < 0 {
                r.is_none() && final(sched).tasks@ == old(sched).tasks@ && final(sched).current
                    == old(sched).current
            } else {
                &&& r == Some((from as usize, k as usize))
                &&& final(sched).current == k
                &&& final(sched).tasks@ == old(sched).tasks@.update(
                    from,
                    TaskCB { state: TaskState::Ready, ..old(sched).tasks@[from] },
                ).update(
                    k,
                    TaskCB {
                        state: TaskState::Running,
                        ..old(sched).tasks@.update(
                            from,
                            TaskCB { state: TaskState::Ready, ..old(sched).tasks@[from] },
                        )[k]
                    },
                )
            }
        }),
{
    let len = sched.tasks.len();
    let current_idx = sched.current;
    let probes_total: usize = if len == 1 {
        1
    } else {
        len - 1
    };
    let mut next_idx = (current_idx + 1) % len;
    let mut probes: usize = 0;
    let mut found: bool = false;
    while probes < probes_total && !found
        invariant
            sched.wf(),
            sched.tasks@ == old(sched).tasks@,
            sched.current == old(sched).current,
            len == sched.tasks@.len(),
            len > 0,
            current_idx == old(sched).current,
            probes_total == if len == 1 {
                1int
            } else {
                len - 1
            },
            0 <= next_idx < len,
            probes <= probes_total,
            !found ==> find_ready(
                old(sched).tasks@,
                (current_idx as int + 1) % (len as int),
                probes_total as nat,
            ) == find_ready(sched.tasks@, next_idx as int, (probes_total - probes) as nat),
            found ==> find_ready(
                old(sched).tasks@,
                (current_idx as int + 1) % (len as int),
                probes_total as nat,
            ) == next_idx as int && sched.tasks@[next_idx as int].state == TaskState::Ready,
        decreases probes_total - probes, (if found { 0int } else { 1int }),
    {
        if matches!(sched.tasks[next_idx].state, TaskState::Ready) {
            found = true;
        } else {
            next_idx = (next_idx + 1) % len;
            probes += 1;
        }
    }
    if !found {
        return None;
    }
    let entry = &mut sched.tasks[current_idx];
    entry.state = TaskState::Ready;
    let entry2 = &mut sched.tasks[next_idx];
    entry2.state = TaskState::Running;
    sched.current = next_idx;
    Some((current_idx, next_idx))
}

} // verus!
