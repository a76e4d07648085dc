//! The executor's admission gate: a fixed number of permits bounds how many
//! tasks a worker judges at once.
use crate::judge::{JudgeLoad, JudgeTask, FULL_USAGE};
use vstd::prelude::*;

verus! {

/// Largest number of tasks a worker judges at once.
pub const MAX_CONCURRENT_TASKS: u32 = 64;

/// Permits for concurrent tasks; `running` of them are held.
pub struct AdmissionGate {
    capacity: u32,
    running: u32,
}

/// The number of held permits after one request for a permit.
pub open spec fn acquire_step(capacity: nat, running: nat) -> nat {
    if running < capacity {
        running + 1
    } else {
        running
    }
}

/// The number of held permits after `k` requests, none released, from an idle gate.
pub open spec fn held_after(capacity: nat, k: nat) -> nat
    decreases k,
{
    if k == 0 {
        0
    } else {
        acquire_step(capacity, held_after(capacity, (k - 1) as nat))
    }
}

impl AdmissionGate {
    pub closed spec fn capacity_spec(&self) -> nat {
        self.capacity as nat
    }

    pub closed spec fn running_spec(&self) -> nat {
        self.running as nat
    }

    pub closed spec fn wf(&self) -> bool {
        self.running <= self.capacity
    }

    /// An idle gate with `capacity` permits.
    pub fn new(capacity: u32) -> (r: AdmissionGate)
        ensures
            r.wf(),
            r.capacity_spec() == capacity,
            r.running_spec() == 0,
    {
        AdmissionGate { capacity, running: 0 }
    }

    /// Takes a permit if one is free.
    pub fn try_acquire(&mut self) -> (r: bool)
        requires
            old(self).wf(),
        ensures
            final(self).wf(),
            final(self).capacity_spec() == old(self).capacity_spec(),
            r == (old(self).running_spec() < old(self).capacity_spec()),
            final(self).running_spec() == acquire_step(
                old(self).capacity_spec(),
                old(self).running_spec(),
            ),
    {
        if self.running < self.capacity {
            self.running = self.running + 1;
            true
        } else {
            false
        }
    }

    /// Gives a held permit back.
    pub fn release(&mut self)
        requires
            old(self).wf(),
            old(self).running_spec() > 0,
        ensures
            final(self).wf(),
            final(self).capacity_spec() == old(self).capacity_spec(),
            final(self).running_spec() == old(self).running_spec() - 1,
    {
        self.running = self.running - 1;
    }

    /// The number of tasks holding a permit.
    pub fn running_tasks(&self) -> (r: u32)
        ensures
            r == self.running_spec(),
    {
        self.running
    }

    /// The number of permits.
    pub fn capacity(&self) -> (r: u32)
        ensures
            r == self.capacity_spec(),
    {
        self.capacity
    }

    /// The load to report: the held permits, with the measured usages capped
    /// at full scale.
    pub fn load_snapshot(&self, cpu_usage: u32, memory_usage: u32) -> (r: JudgeLoad)
        ensures
            r.wf(),
            r.running_tasks == self.running_spec(),
            r.cpu_usage == if cpu_usage <= FULL_USAGE {
                cpu_usage
            } else {
                FULL_USAGE
            },
            r.memory_usage == if memory_usage <= FULL_USAGE {
                memory_usage
            } else {
                FULL_USAGE
            },
    {
        JudgeLoad {
            running_tasks: self.running,
            cpu_usage: if cpu_usage <= FULL_USAGE {
                cpu_usage
            } else {
                FULL_USAGE
            },
            memory_usage: if memory_usage <= FULL_USAGE {
                memory_usage
            } else {
                FULL_USAGE
            },
        }
    }
}

/// Concurrency ceiling: of `k` requests made to an idle gate with no permit
/// released, `min(k, capacity)` are admitted, so never more than `capacity`
/// tasks hold a permit, and every request past the `capacity`-th is refused
/// until a permit is released.
pub proof fn lemma_admission_ceiling(capacity: nat, k: nat)
    ensures
        held_after(capacity, k) == if k <= capacity {
            k
        } else {
            capacity
        },
        held_after(capacity, k) <= capacity,
        k > capacity ==> !(held_after(capacity, (k - 1) as nat) < capacity),
    decreases k,
{
    if k > 0 {
        lemma_admission_ceiling(capacity, (k - 1) as nat);
    }
}

/// A released permit admits the next request at once.
pub proof fn lemma_release_admits(capacity: nat, running: nat)
    requires
        0 < running <= capacity,
    ensures
        acquire_step(capacity, (running - 1) as nat) == running,
{
}

/// The tasks of a worker: each holds a permit from the moment it starts until
/// it finishes, and tasks that find no free permit wait in arrival order.
pub struct TaskScheduler {
    gate: AdmissionGate,
    waiting: Vec<JudgeTask>,
}

impl TaskScheduler {
    pub closed spec fn capacity_spec(&self) -> nat {
        self.gate.capacity_spec()
    }

    /// The number of tasks being judged, each holding a permit.
    pub closed spec fn running_spec(&self) -> nat {
        self.gate.running_spec()
    }

    /// The tasks waiting for a permit, oldest first.
    pub closed spec fn waiting_spec(&self) -> Seq<JudgeTask> {
        self.waiting@
    }

    pub closed spec fn wf(&self) -> bool {
        &&& self.gate.wf()
        &&& self.waiting@.len() > 0 ==> self.gate.running_spec() == self.gate.capacity_spec()
    }

    /// An idle scheduler with `capacity` permits.
    pub fn new(capacity: u32) -> (r: TaskScheduler)
        ensures
            r.wf(),
            r.capacity_spec() == capacity,
            r.running_spec() == 0,
            r.waiting_spec().len() == 0,
    {
        TaskScheduler { gate: AdmissionGate::new(capacity), waiting: Vec::new() }
    }

    /// A task arrives: it is returned, to start now, if a permit is free;
    /// otherwise it waits.
    pub fn submit(&mut self, task: JudgeTask) -> (r: Option<JudgeTask>)
        requires
            old(self).wf(),
        ensures
            final(self).wf(),
            final(self).capacity_spec() == old(self).capacity_spec(),
            old(self).running_spec() < old(self).capacity_spec() ==> r == Some(task)
                && final(self).running_spec() == old(self).running_spec() + 1
                && final(self).waiting_spec() == old(self).waiting_spec(),
            old(self).running_spec() >= old(self).capacity_spec() ==> r is None
                && final(self).running_spec() == old(self).running_spec()
                && final(self).waiting_spec() == old(self).waiting_spec().push(task),
    {
        if self.gate.try_acquire() {
            Some(task)
        } else {
            self.waiting.push(task);
            None
        }
    }

    /// A task finished: its permit goes to the oldest waiting task, which is
    /// returned to start now, or is released if none waits.
    pub fn finish(&mut self) -> (r: Option<JudgeTask>)
        requires
            old(self).wf(),
            old(self).running_spec() > 0,
        ensures
            final(self).wf(),
            final(self).capacity_spec() == old(self).capacity_spec(),
            old(self).waiting_spec().len() == 0 ==> r is None && final(self).running_spec()
                == old(self).running_spec() - 1 && final(self).waiting_spec().len() == 0,
            old(self).waiting_spec().len() > 0 ==> r == Some(old(self).waiting_spec()[0])
                && final(self).running_spec() == old(self).running_spec()
                && final(self).waiting_spec() == old(self).waiting_spec().drop_first(),
    {
        if self.waiting.len() == 0 {
            self.gate.release();
            None
        } else {
            let next = self.waiting.remove(0);
            assert(self.waiting@ =~= old(self).waiting@.drop_first());
            Some(next)
        }
    }

    /// The number of tasks being judged.
    pub fn running_tasks(&self) -> (r: u32)
        requires
            self.wf(),
        ensures
            r == self.running_spec(),
    {
        self.gate.running_tasks()
    }

    /// The load to report: the tasks being judged, with the measured usages
    /// capped at full scale.
    pub fn load_snapshot(&self, cpu_usage: u32, memory_usage: u32) -> (r: JudgeLoad)
        ensures
            r.wf(),
            r.running_tasks == self.running_spec(),
            r.cpu_usage == if cpu_usage <= FULL_USAGE {
                cpu_usage
            } else {
                FULL_USAGE
            },
            r.memory_usage == if memory_usage <= FULL_USAGE {
                memory_usage
            } else {
                FULL_USAGE
            },
    {
        self.gate.load_snapshot(cpu_usage, memory_usage)
    }

    /// Concurrency ceiling: in every state, at most `capacity` tasks are being
    /// judged, and a task waits only while every permit is held.
    pub proof fn lemma_ceiling(&self)
        requires
            self.wf(),
        ensures
            self.running_spec() <= self.capacity_spec(),
            self.waiting_spec().len() > 0 ==> self.running_spec() == self.capacity_spec(),
    {
    }
}

/// The `capacity + 1`-th task submitted to an idle scheduler, with none
/// finished, waits: the first `capacity` start and fill every permit.
pub proof fn lemma_one_past_capacity_waits(capacity: nat, k: nat)
    requires
        k <= capacity,
    ensures
        held_after(capacity, k) == k,
        held_after(capacity, capacity) == capacity,
        !(held_after(capacity, capacity) < capacity),
{
    lemma_admission_ceiling(capacity, k);
    lemma_admission_ceiling(capacity, capacity);
}

} // verus!
