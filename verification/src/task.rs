//! Tasks and the round-robin scheduler.
use vstd::prelude::*;
use std::collections::VecDeque;

verus! {

/// The life-cycle state of a task.
#[derive(Debug, Clone, Copy, PartialEq, Eq, Structural)]
pub enum TaskState {
    Ready,
    Running,
    Blocked,
    Terminated,
}

/// A task: its identifier and state.
pub struct Task {
    pub id: u64,
    pub state: TaskState,
}

/// The source of task identifiers: each new task takes the next one,
/// wrapping around after `u64::MAX`.
pub struct TaskIds {
    next: u64,
}

impl TaskIds {
    /// Identifiers start at 0.
    pub fn new() -> (r: TaskIds)
        ensures
            r.peek() == 0,
    {
        TaskIds { next: 0 }
    }

    /// The identifier the next task gets.
    pub closed spec fn peek(&self) -> u64 {
        self.next
    }
}

/// The identifier after `id`, wrapping around.
pub open spec fn next_id(id: u64) -> u64 {
    if id == u64::MAX {
        0
    } else {
        (id + 1) as u64
    }
}

impl Task {
    /// A ready task with the next identifier.
    pub fn new(ids: &mut TaskIds) -> (r: Task)
        ensures
            r.id == old(ids).peek(),
            r.state == TaskState::Ready,
            final(ids).peek() == next_id(old(ids).peek()),
    {
        let id = ids.next;
        ids.next = ids.next.wrapping_add(1);
        Task { id, state: TaskState::Ready }
    }
}


/// Tasks waiting for their turn, in order, and the task that runs now.
pub struct Scheduler {
    tasks: VecDeque<Task>,
    current: Option<Task>,
}

/// The abstract state of a scheduler.
pub struct SchedulerView {
    pub queue: Seq<Task>,
    pub current: Option<Task>,
}

impl View for Scheduler {
    type V = SchedulerView;

    closed spec fn view(&self) -> SchedulerView {
        SchedulerView { queue: self.tasks@, current: self.current }
    }
}

/// One round-robin step: the task at the front of the queue runs next, and
/// the task that ran goes to the back of the queue unless it terminated.
/// With an empty queue nothing changes.
pub open spec fn schedule_spec(v: SchedulerView) -> SchedulerView {
    if v.queue.len() > 0 {
        let rest = v.queue.drop_first();
        SchedulerView {
            queue: match v.current {
                Some(prev) => if prev.state != TaskState::Terminated {
                    rest.push(prev)
                } else {
                    rest
                },
                None => rest,
            },
            current: Some(v.queue[0]),
        }
    } else {
        v
    }
}

/// Every task the scheduler holds: the queue, then the current task.
pub open spec fn all_tasks(v: SchedulerView) -> Seq<Task> {
    match v.current {
        Some(t) => v.queue.push(t),
        None => v.queue,
    }
}

/// A step lets go of the running task: there is a next task, and the
/// running one has terminated.
pub open spec fn drops_current(v: SchedulerView) -> bool {
    &&& v.queue.len() > 0
    &&& match v.current {
        Some(prev) => prev.state == TaskState::Terminated,
        None => false,
    }
}

impl Scheduler {
    /// No tasks and nothing running.
    pub fn new() -> (r: Scheduler)
        ensures
            r@.queue == Seq::<Task>::empty(),
            r@.current is None,
    {
        Scheduler { tasks: VecDeque::new(), current: None }
    }

    /// Adds `task` at the back of the queue.
    pub fn spawn(&mut self, task: Task)
        ensures
            final(self)@.queue == old(self)@.queue.push(task),
            final(self)@.current == old(self)@.current,
    {
        self.tasks.push_back(task);
    }

    /// Switches to the next task in round-robin order and returns the task
    /// that runs now, if any.
    pub fn schedule(&mut self) -> (r: Option<&Task>)
        ensures
            final(self)@ == schedule_spec(old(self)@),
            r is Some <==> final(self)@.current is Some,
            r matches Some(t) ==> *t == final(self)@.current->0,
    {
        if let Some(next) = self.tasks.pop_front() {
            if let Some(prev) = self.current.take() {
                if prev.state != TaskState::Terminated {
                    self.tasks.push_back(prev);
                }
            }
            self.current = Some(next);
        }
        self.current.as_ref()
    }
}

/// Scheduling loses no task but one that terminated: the tasks held after a
/// step are those held before, less the task that ran if it had terminated.
pub proof fn law_schedule_keeps_tasks(v: SchedulerView)
    ensures
        drops_current(v) ==> all_tasks(schedule_spec(v)).to_multiset() == all_tasks(
            v,
        ).to_multiset().remove(v.current->0),
        !drops_current(v) ==> all_tasks(schedule_spec(v)).to_multiset() == all_tasks(
            v,
        ).to_multiset(),
{
    broadcast use vstd::multiset::group_multiset_axioms;
    broadcast use vstd::seq_lib::group_to_multiset_ensures;

    if v.queue.len() > 0 {
        let q = v.queue;
        let rest = q.drop_first();
        assert(q =~= seq![q[0]] + rest);
        vstd::seq_lib::lemma_multiset_commutative(seq![q[0]], rest);
        assert(rest.push(q[0]) =~= rest + seq![q[0]]);
        vstd::seq_lib::lemma_multiset_commutative(rest, seq![q[0]]);
        match v.current {
            Some(prev) => {
                assert(q.to_multiset() =~= rest.to_multiset().insert(q[0]));
                if prev.state == TaskState::Terminated {
                    assert(q.push(prev).to_multiset().remove(prev) =~= q.to_multiset());
                } else {
                    assert(rest.push(prev).push(q[0]).to_multiset() =~= q.push(prev).to_multiset());
                }
            },
            None => {},
        }
    }
}

/// Nothing to start yet: the kernel runs on its own until the first task is
/// spawned.
pub fn init() {
}

/// A task spawned into an empty scheduler runs at the next step.
pub proof fn law_spawn_then_schedule(t: Task)
    ensures
        schedule_spec(SchedulerView { queue: seq![t], current: None }).current == Some(t),
        schedule_spec(SchedulerView { queue: seq![t], current: None }).queue.len() == 0,
{
}


/// The scheduler after `n` round-robin steps from `v`.
pub open spec fn run_steps(v: SchedulerView, n: nat) -> SchedulerView
    decreases n,
{
    if n == 0 {
        v
    } else {
        schedule_spec(run_steps(v, (n - 1) as nat))
    }
}

/// The running task as a sequence: itself, or nothing.
pub open spec fn running(v: SchedulerView) -> Seq<Task> {
    match v.current {
        Some(t) => seq![t],
        None => seq![],
    }
}

/// No task the scheduler holds has terminated.
pub open spec fn none_terminated(v: SchedulerView) -> bool {
    &&& forall|i: int| 0 <= i < v.queue.len() ==> (#[trigger] v.queue[i]).state != TaskState::Terminated
    &&& v.current matches Some(t) ==> t.state != TaskState::Terminated
}

/// A step takes the front task to run and puts the task that ran at the
/// back: with a running task that has not terminated, the queue becomes the
/// old queue without its first task followed by that running task, and
/// every other task keeps its order; a terminated task is let go. With an
/// empty queue a step changes nothing.
pub proof fn law_schedule_rotates(v: SchedulerView)
    ensures
        v.queue.len() == 0 ==> schedule_spec(v) == v,
        v.queue.len() > 0 ==> schedule_spec(v).current == Some(v.queue[0]),
        forall|i: int|
            0 <= i < v.queue.len() - 1 ==> #[trigger] schedule_spec(v).queue[i] == v.queue[i + 1],
        v.queue.len() > 0 && v.current is Some && v.current->0.state != TaskState::Terminated
            ==> schedule_spec(v).queue == v.queue.subrange(1, v.queue.len() as int) + seq![
            v.current->0,
        ],
        v.queue.len() > 0 && v.current is Some && v.current->0.state == TaskState::Terminated
            ==> schedule_spec(v).queue == v.queue.subrange(1, v.queue.len() as int),
        v.queue.len() > 0 && v.current is None ==> schedule_spec(v).queue == v.queue.subrange(
            1,
            v.queue.len() as int,
        ),
{
    let q = v.queue;
    if q.len() > 0 {
        match v.current {
            Some(t) => {
                if t.state != TaskState::Terminated {
                    assert(q.drop_first().push(t) =~= q.subrange(1, q.len() as int) + seq![t]);
                } else {
                    assert(q.drop_first() =~= q.subrange(1, q.len() as int));
                }
            },
            None => {
                assert(q.drop_first() =~= q.subrange(1, q.len() as int));
            },
        }
    }
}

/// The state after `j` steps, while the first `j` queued tasks take their
/// turns: the rest of the queue, then the task that ran at the start, then
/// those that ran since, with task `j - 1` running.
proof fn lemma_run_steps(v: SchedulerView, j: nat)
    requires
        none_terminated(v),
        1 <= j <= v.queue.len(),
    ensures
        run_steps(v, j).queue == v.queue.skip(j as int) + running(v) + v.queue.take(j - 1),
        run_steps(v, j).current == Some(v.queue[j - 1]),
    decreases j,
{
    let q = v.queue;
    if j == 1 {
        assert(run_steps(v, 0) == v);
        match v.current {
            Some(t) => {
                assert(q.drop_first().push(t) =~= q.skip(1) + running(v) + q.take(0));
            },
            None => {
                assert(q.drop_first() =~= q.skip(1) + running(v) + q.take(0));
            },
        }
    } else {
        lemma_run_steps(v, (j - 1) as nat);
        let s = run_steps(v, (j - 1) as nat);
        assert(s.queue[0] == q[j - 1]);
        assert(q[j - 2].state != TaskState::Terminated);
        assert(s.queue.drop_first().push(q[j - 2]) =~= q.skip(j as int) + running(v) + q.take(
            j - 1,
        ));
    }
}

/// Round robin is fair: while no task terminates, the task at position `k`
/// of the queue runs after exactly `k + 1` steps, so every queued task gets
/// its turn within as many steps as the queue is long.
pub proof fn law_round_robin_fair(v: SchedulerView, k: int)
    requires
        none_terminated(v),
        0 <= k < v.queue.len(),
    ensures
        run_steps(v, (k + 1) as nat).current == Some(v.queue[k]),
{
    lemma_run_steps(v, (k + 1) as nat);
}

} // verus!
