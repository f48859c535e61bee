//! The cooperative task executor: a FIFO of tasks and a rotating cursor.
//! One pass polls each task once; completed tasks leave the queue, pending
//! tasks merely advance the cursor, so no task starves the others.
//!
//! A task is a small state machine standing for the futures the kernel
//! spawns: the yield primitive, or a countdown that is pending a fixed
//! number of polls before completing.

use vstd::prelude::*;

use crate::yield_now::YieldNow;

verus! {

/// The future a task runs: a one-shot yield, a countdown of pending polls,
/// or already done.
pub enum TaskFuture {
    Yielding(YieldNow),
    CountDown { remaining: u64 },
    Done,
}

/// Whether a poll of this future returns ready.
pub open spec fn future_ready(f: TaskFuture) -> bool {
    match f {
        TaskFuture::Yielding(y) => y.yielded,
        TaskFuture::CountDown { remaining } => remaining <= 1,
        TaskFuture::Done => true,
    }
}

/// The future's state after one poll.
pub open spec fn future_step(f: TaskFuture) -> TaskFuture {
    match f {
        TaskFuture::Yielding(y) => TaskFuture::Yielding(YieldNow { yielded: true }),
        TaskFuture::CountDown { remaining } => TaskFuture::CountDown {
            remaining: if remaining == 0 {
                0
            } else {
                (remaining - 1) as u64
            },
        },
        TaskFuture::Done => TaskFuture::Done,
    }
}

/// A spawned task: its future and whether a waker has been stored for it
/// (the executor's waker is a no-op; the flag records that a pending poll
/// saved it).
pub struct AsyncTask {
    pub future: TaskFuture,
    pub waker_set: bool,
}

impl AsyncTask {
    /// Wrap a future into a task with no waker stored.
    pub fn new(future: TaskFuture) -> (t: AsyncTask)
        ensures
            t.future == future,
            !t.waker_set,
    {
        AsyncTask { future, waker_set: false }
    }

    /// Poll the future once; a pending poll stores the waker.
    pub fn poll(&mut self) -> (ready: bool)
        ensures
            ready == future_ready(old(self).future),
            final(self).future == future_step(old(self).future),
            ready ==> final(self).waker_set == old(self).waker_set,
            !ready ==> final(self).waker_set,
    {
        match &mut self.future {
            TaskFuture::Yielding(y) => {
                let ready = y.poll();
                if !ready {
                    self.waker_set = true;
                }
                ready
            },
            TaskFuture::CountDown { remaining } => {
                if *remaining <= 1 {
                    *remaining = 0;
                    true
                } else {
                    *remaining = *remaining - 1;
                    self.waker_set = true;
                    false
                }
            },
            TaskFuture::Done => true,
        }
    }

    /// Wake the task. The executor's waker is a no-op, so nothing changes.
    pub fn wake(&self)
    {
    }
}

/// One `poll_next_task` on the model level: poll the task under the cursor;
/// remove it when ready (rewinding an out-of-range cursor), advance the
/// cursor when pending.
pub open spec fn pass_step(tasks: Seq<AsyncTask>, idx: int) -> (Seq<AsyncTask>, int) {
    if tasks.len() == 0 || !(0 <= idx < tasks.len()) {
        (tasks, idx)
    } else if future_ready(tasks[idx].future) {
        let t = tasks.remove(idx);
        (t, if idx >= t.len() && t.len() > 0 { 0 } else { idx })
    } else {
        let t = tasks.update(idx, AsyncTask { future: future_step(tasks[idx].future), waker_set: true });
        (t, (idx + 1) % (t.len() as int))
    }
}

/// `n` successive `poll_next_task`s, stopping early on an empty queue.
pub open spec fn run_pass(tasks: Seq<AsyncTask>, idx: int, n: nat) -> (Seq<AsyncTask>, int)
    decreases n,
{
    if n == 0 || tasks.len() == 0 {
        (tasks, idx)
    } else {
        let (t, i) = pass_step(tasks, idx);
        run_pass(t, i, (n - 1) as nat)
    }
}

/// Round-robin executor over a queue of tasks.
pub struct Executor {
    pub tasks: Vec<AsyncTask>,
    pub current_task_index: usize,
}

impl Executor {
    /// The cursor stays inside the queue, and rests at zero when the queue
    /// is empty.
    pub open spec fn wf(&self) -> bool {
        if self.tasks@.len() == 0 {
            self.current_task_index == 0
        } else {
            self.current_task_index < self.tasks@.len()
        }
    }

    /// An empty executor.
    pub fn new() -> (e: Executor)
        ensures
            e.wf(),
            e.tasks@ == Seq::<AsyncTask>::empty(),
            e.current_task_index == 0,
    {
        Executor { tasks: Vec::new(), current_task_index: 0 }
    }

    /// Add a task to the back of the run queue.
    pub fn spawn(&mut self, task: AsyncTask)
        requires
            old(self).wf(),
        ensures
            final(self).wf(),
            final(self).tasks@ == old(self).tasks@.push(task),
            final(self).current_task_index == old(self).current_task_index,
    {
        self.tasks.push(task);
    }

    /// Poll the task under the cursor once; remove it if it completed,
    /// advance past it if not.
    pub fn poll_next_task(&mut self)
        requires
            old(self).wf(),
        ensures
            final(self).wf(),
            (final(self).tasks@, final(self).current_task_index as int) == pass_step(
                old(self).tasks@,
                old(self).current_task_index as int,
            ),
    {
        if self.tasks.len() == 0 {
            return;
        }
        let i = self.current_task_index;
        let task = &mut self.tasks[i];
        let ready = task.poll();
        if ready {
            self.tasks.remove(i);
            if self.current_task_index >= self.tasks.len() && self.tasks.len() > 0 {
                self.current_task_index = 0;
            }
        } else {
            self.current_task_index = (self.current_task_index + 1) % self.tasks.len();
        }
    }

    /// One pass: as many single polls as there were tasks when the pass
    /// began, stopping early if the queue drains.
    pub fn poll_all(&mut self)
        requires
            old(self).wf(),
        ensures
            final(self).wf(),
            (final(self).tasks@, final(self).current_task_index as int) == run_pass(
                old(self).tasks@,
                old(self).current_task_index as int,
                old(self).tasks@.len(),
            ),
    {
        let count = self.tasks.len();
        let mut k: usize = 0;
        while k < count && self.tasks.len() != 0
            invariant
                self.wf(),
                k <= count,
                run_pass(old(self).tasks@, old(self).current_task_index as int, k as nat) == (
                    self.tasks@,
                    self.current_task_index as int,
                ),
            decreases count - k,
        {
            self.poll_next_task();
            proof {
                lemma_run_pass_extend(
                    old(self).tasks@,
                    old(self).current_task_index as int,
                    k as nat,
                );
            }
            k += 1;
        }
        proof {
            if k < count {
                lemma_run_pass_stall(self.tasks@, self.current_task_index as int, (count
                    - k) as nat);
                lemma_run_pass_split(
                    old(self).tasks@,
                    old(self).current_task_index as int,
                    k as nat,
                    (count - k) as nat,
                );
            }
        }
    }

    /// Skip the task under the cursor without polling it.
    pub fn task_yield(&mut self)
        requires
            old(self).wf(),
        ensures
            final(self).wf(),
            final(self).tasks@ == old(self).tasks@,
            old(self).tasks@.len() == 0 ==> final(self).current_task_index == old(
                self,
            ).current_task_index,
            old(self).tasks@.len() > 0 ==> final(self).current_task_index == (old(
                self,
            ).current_task_index + 1) % (old(self).tasks@.len() as int),
    {
        if self.tasks.len() > 0 {
            self.current_task_index = (self.current_task_index + 1) % self.tasks.len();
        }
    }
}

/// Running one more step extends the pass by one `pass_step`.
pub proof fn lemma_run_pass_extend(tasks: Seq<AsyncTask>, idx: int, k: nat)
    requires
        run_pass(tasks, idx, k).0.len() > 0,
    ensures
        run_pass(tasks, idx, k + 1) == pass_step(
            run_pass(tasks, idx, k).0,
            run_pass(tasks, idx, k).1,
        ),
    decreases k,
{
    if k == 0 {
        let (t, i) = pass_step(tasks, idx);
        assert(run_pass(tasks, idx, 1) == run_pass(t, i, 0));
        assert(run_pass(t, i, 0) == (t, i));
    } else {
        if tasks.len() == 0 {
        } else {
            let (t, i) = pass_step(tasks, idx);
            lemma_run_pass_extend(t, i, (k - 1) as nat);
        }
    }
}

/// An empty queue stays empty under further steps.
pub proof fn lemma_run_pass_stall(tasks: Seq<AsyncTask>, idx: int, n: nat)
    requires
        tasks.len() == 0,
    ensures
        run_pass(tasks, idx, n) == (tasks, idx),
{
}

/// A pass of `a + b` steps is a pass of `a` steps followed by one of `b`.
pub proof fn lemma_run_pass_split(tasks: Seq<AsyncTask>, idx: int, a: nat, b: nat)
    ensures
        run_pass(tasks, idx, a + b) == run_pass(
            run_pass(tasks, idx, a).0,
            run_pass(tasks, idx, a).1,
            b,
        ),
    decreases a,
{
    if a == 0 {
    } else if tasks.len() == 0 {
        lemma_run_pass_stall(tasks, idx, (a + b - 1) as nat);
        lemma_run_pass_stall(tasks, idx, (a - 1) as nat);
        lemma_run_pass_stall(tasks, idx, b);
    } else {
        let (t, i) = pass_step(tasks, idx);
        lemma_run_pass_split(t, i, (a - 1) as nat, b);
    }
}

/// The yield future completes on exactly its second poll: the first poll of
/// a fresh yield is pending, and the very next poll is ready.
pub proof fn lemma_yield_ready_on_second_poll(y: YieldNow)
    requires
        !y.yielded,
    ensures
        !future_ready(TaskFuture::Yielding(y)),
        future_ready(future_step(TaskFuture::Yielding(y))),
{
}

/// In a pass where no task completes, every task is polled exactly once:
/// the queue keeps its length and order, each future advances by exactly
/// one step, and the cursor returns to where it started. Pending tasks cost
/// the others exactly one poll per pass, never more.
pub proof fn lemma_pass_no_starvation(tasks: Seq<AsyncTask>, idx: int)
    requires
        0 <= idx < tasks.len(),
        forall|j: int| 0 <= j < tasks.len() ==> !future_ready((#[trigger] tasks[j]).future),
    ensures
        run_pass(tasks, idx, tasks.len()).0.len() == tasks.len(),
        forall|j: int|
            0 <= j < tasks.len() ==> (#[trigger] run_pass(tasks, idx, tasks.len()).0[j]).future
                == future_step(tasks[j].future),
        run_pass(tasks, idx, tasks.len()).1 == idx,
{
    let len = tasks.len() as int;
    assert(!future_ready(tasks[idx].future));
    let stepped = tasks.update(
        idx,
        AsyncTask { future: future_step(tasks[idx].future), waker_set: true },
    );
    let next = (idx + 1) % len;
    assert(pass_step(tasks, idx) == (stepped, next));
    assert forall|j: int|
        0 <= j < len implies (#[trigger] stepped[j]).future == (if (j - idx) % len < 1 {
        future_step(tasks[j].future)
    } else {
        tasks[j].future
    }) by {
        assert((j - idx) % len >= 0 && ((j - idx) % len == 0 <==> j == idx)) by (nonlinear_arith)
            requires
                0 <= j < len,
                0 <= idx < len,
        ;
    }
    assert(next == (idx + 1) % len);
    lemma_pass_window(tasks, stepped, idx, next, (len - 1) as nat, 1);
    assert(run_pass(tasks, idx, tasks.len()) == run_pass(stepped, next, (len - 1) as nat));
    assert(run_pass(tasks, idx, tasks.len()).1 == (idx + 1 + (len - 1)) % len);
    assert((idx + 1 + (len - 1)) % len == idx) by (nonlinear_arith)
        requires
            0 <= idx < len,
    ;
    assert forall|j: int|
        0 <= j < len implies (#[trigger] run_pass(tasks, idx, tasks.len()).0[j]).future
        == future_step(tasks[j].future) by {
        assert((j - idx) % len < len) by (nonlinear_arith)
            requires
                len > 0,
        ;
        assert(0 <= (j - idx) % len) by (nonlinear_arith)
            requires
                len > 0,
        ;
    }
}

/// Helper: `done` tasks at rotational distance under `done` from `first`
/// are already stepped and none of the originals is ready; `k` more steps
/// of the pass step the next `k` tasks and move the cursor `k` on.
proof fn lemma_pass_window(
    orig: Seq<AsyncTask>,
    tasks: Seq<AsyncTask>,
    first: int,
    cur: int,
    k: nat,
    done: int,
)
    requires
        0 <= first < orig.len(),
        orig.len() == tasks.len(),
        1 <= done <= orig.len(),
        cur == (first + done) % orig.len() as int,
        k + done <= orig.len(),
        forall|j: int| 0 <= j < orig.len() ==> !future_ready((#[trigger] orig[j]).future),
        forall|j: int|
            0 <= j < orig.len() ==> (#[trigger] tasks[j]).future == (if ((j - first) % orig.len() as int) < done {
                future_step(orig[j].future)
            } else {
                orig[j].future
            }),
    ensures
        run_pass(tasks, cur, k).0.len() == orig.len(),
        run_pass(tasks, cur, k).1 == (first + done + k) % orig.len() as int,
        forall|j: int|
            0 <= j < orig.len() ==> (#[trigger] run_pass(tasks, cur, k).0[j]).future == (if ((j - first) % orig.len() as int) < done + k {
                future_step(orig[j].future)
            } else {
                orig[j].future
            }),
    decreases k,
{
    let len = orig.len() as int;
    assert(0 <= cur < len) by (nonlinear_arith)
        requires
            len > 0,
            cur == (first + done) % len,
    ;
    if k == 0 {
    } else {
        assert(done < len) by {
            if done == len {
                assert(k >= 1 && k + done <= len);
                assert(false);
            }
        }
        assert((cur - first) % len == done) by (nonlinear_arith)
            requires
                0 <= first < len,
                0 <= done < len,
                cur == (first + done) % len,
        ;
        assert(tasks[cur].future == orig[cur].future);
        assert(!future_ready(tasks[cur].future));
        let stepped = tasks.update(
            cur,
            AsyncTask { future: future_step(tasks[cur].future), waker_set: true },
        );
        let next = (cur + 1) % len;
        assert(pass_step(tasks, cur) == (stepped, next));
        assert(next == (first + (done + 1)) % len) by (nonlinear_arith)
            requires
                0 <= first < len,
                cur == (first + done) % len,
                next == (cur + 1) % len,
                0 <= cur < len,
        ;
        assert forall|j: int|
            0 <= j < len implies (#[trigger] stepped[j]).future == (if (j - first) % len < done
            + 1 {
            future_step(orig[j].future)
        } else {
            orig[j].future
        }) by {
            assert(((j - first) % len == done) <==> j == cur) by (nonlinear_arith)
                requires
                    0 <= j < len,
                    0 <= first < len,
                    0 <= cur < len,
                    0 <= done < len,
                    cur == (first + done) % len,
            ;
            assert(0 <= (j - first) % len) by (nonlinear_arith)
                requires
                    len > 0,
            ;
        }
        lemma_pass_window(orig, stepped, first, next, (k - 1) as nat, done + 1);
        assert((first + done + k) % len == (first + (done + 1) + (k - 1)) % len);
    }
}

/// What one full pass leaves behind: polled front to back, the ready
/// tasks leave the queue and the pending ones advance one step, order
/// kept, each polled exactly once.
pub open spec fn pass_result(s: Seq<AsyncTask>) -> Seq<AsyncTask>
    decreases s.len(),
{
    if s.len() == 0 {
        Seq::empty()
    } else if future_ready(s[0].future) {
        pass_result(s.skip(1))
    } else {
        seq![AsyncTask { future: future_step(s[0].future), waker_set: true }] + pass_result(
            s.skip(1),
        )
    }
}

/// A full pass from the head of the queue is exactly `pass_result`, and the
/// cursor comes back to the head.
pub proof fn lemma_full_pass(tasks: Seq<AsyncTask>)
    ensures
        run_pass(tasks, 0, tasks.len()) == (pass_result(tasks), 0int),
{
    if tasks.len() == 0 {
        assert(pass_result(tasks) =~= tasks);
    } else {
        lemma_full_pass_window(tasks, 0, tasks.len());
        assert(tasks.skip(0) =~= tasks);
        assert(tasks.take(0) + pass_result(tasks) =~= pass_result(tasks));
    }
}

/// Window induction for `lemma_full_pass`: the `m` unpolled tasks sit at
/// the end of the queue, the cursor at their start; `m` more steps polls
/// exactly them.
proof fn lemma_full_pass_window(q: Seq<AsyncTask>, c: int, m: nat)
    requires
        0 <= c,
        c + m == q.len(),
        m >= 1,
    ensures
        run_pass(q, c, m) == (q.take(c) + pass_result(q.skip(c)), 0int),
    decreases m,
{
    let len = q.len() as int;
    assert(0 <= c < len);
    let (t, i) = pass_step(q, c);
    assert(run_pass(q, c, m) == run_pass(t, i, (m - 1) as nat));
    if future_ready(q[c].future) {
        assert(t == q.remove(c));
        assert(t.take(c) =~= q.take(c));
        assert(t.skip(c) =~= q.skip(c + 1));
        assert(q.skip(c).skip(1) =~= q.skip(c + 1));
        assert(q.skip(c)[0] == q[c]);
        assert(pass_result(q.skip(c)) == pass_result(q.skip(c + 1)));
        if m == 1 {
            assert(c == t.len());
            if t.len() == 0 {
                assert(i == c && c == 0);
            } else {
                assert(i == 0);
            }
            assert(run_pass(t, i, 0) == (t, i));
            assert(t =~= q.take(c) + pass_result(q.skip(c)));
        } else {
            assert(i == c);
            lemma_full_pass_window(t, c, (m - 1) as nat);
        }
    } else {
        let stepped = AsyncTask { future: future_step(q[c].future), waker_set: true };
        assert(t == q.update(c, stepped));
        assert(i == (c + 1) % len);
        assert(q.skip(c)[0] == q[c]);
        assert(q.skip(c).skip(1) =~= q.skip(c + 1));
        assert(pass_result(q.skip(c)) == seq![stepped] + pass_result(q.skip(c + 1)));
        if m == 1 {
            assert(c + 1 == len);
            assert(i == 0);
            assert(run_pass(t, i, 0) == (t, i));
            assert(t =~= q.take(c) + (seq![stepped] + pass_result(q.skip(c + 1))));
        } else {
            assert((c + 1) % len == c + 1) by (nonlinear_arith)
                requires
                    0 <= c + 1 < len,
            ;
            lemma_full_pass_window(t, c + 1, (m - 1) as nat);
            assert(t.take(c + 1) =~= q.take(c) + seq![stepped]);
            assert(t.skip(c + 1) =~= q.skip(c + 1));
            assert(q.take(c) + (seq![stepped] + pass_result(q.skip(c + 1))) =~= t.take(c + 1)
                + pass_result(t.skip(c + 1)));
        }
    }
}

/// How many more polls until this future completes.
pub open spec fn polls_to_done(f: TaskFuture) -> int {
    match f {
        TaskFuture::Yielding(y) => if y.yielded {
            1
        } else {
            2
        },
        TaskFuture::CountDown { remaining } => if remaining <= 1 {
            1
        } else {
            remaining as int
        },
        TaskFuture::Done => 1,
    }
}

/// One pass takes every surviving task one poll closer to completion.
proof fn lemma_pass_result_budget(s: Seq<AsyncTask>, k: nat)
    requires
        k >= 1,
        forall|j: int| 0 <= j < s.len() ==> polls_to_done((#[trigger] s[j]).future) <= k,
    ensures
        forall|j: int|
            0 <= j < pass_result(s).len() ==> polls_to_done(
                (#[trigger] pass_result(s)[j]).future,
            ) <= k - 1,
    decreases s.len(),
{
    if s.len() > 0 {
        assert(forall|j: int|
            0 <= j < s.skip(1).len() ==> polls_to_done((#[trigger] s.skip(1)[j]).future) <= k);
        lemma_pass_result_budget(s.skip(1), k);
        if !future_ready(s[0].future) {
            assert(polls_to_done(future_step(s[0].future)) <= k - 1);
        }
    }
}

/// Repeated passes, each over the tasks that remain.
pub open spec fn run_polls(tasks: Seq<AsyncTask>, idx: int, p: nat) -> (Seq<AsyncTask>, int)
    decreases p,
{
    if p == 0 {
        (tasks, idx)
    } else {
        let (t, i) = run_pass(tasks, idx, tasks.len());
        run_polls(t, i, (p - 1) as nat)
    }
}

/// Any finite set of spawned tasks is polled to completion in a bounded
/// number of passes: once every task's poll budget is at most `k`, `k`
/// passes from the head of the queue drain it.
pub proof fn lemma_bounded_completion(tasks: Seq<AsyncTask>, k: nat)
    requires
        forall|j: int| 0 <= j < tasks.len() ==> polls_to_done((#[trigger] tasks[j]).future) <= k,
    ensures
        run_polls(tasks, 0, k).0.len() == 0,
    decreases k,
{
    if k == 0 {
        if tasks.len() > 0 {
            assert(polls_to_done(tasks[0].future) >= 1);
            assert(false);
        }
    } else {
        lemma_full_pass(tasks);
        lemma_pass_result_budget(tasks, k);
        lemma_bounded_completion(pass_result(tasks), (k - 1) as nat);
        assert(run_polls(tasks, 0, k) == run_polls(pass_result(tasks), 0, (k - 1) as nat));
    }
}

} // verus!
