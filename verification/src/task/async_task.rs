use vstd::prelude::*;
use crate::task::TaskId;

verus! {

/// A wait that ends at a point of the uptime, in milliseconds.
#[derive(Debug, Clone, Copy, PartialEq, Eq, Structural)]
pub struct TimeoutFuture {
    pub timeout: u64,
}

impl TimeoutFuture {
    /// A wait of `duration` from `now`.
    pub fn new(now: u64, duration: u64) -> (res: Self)
        requires
            now + duration <= u64::MAX,
        ensures
            res.timeout == now + duration,
    {
        TimeoutFuture { timeout: now + duration }
    }

    /// Whether the wait is over at `now`.
    pub fn is_ready(&self, now: u64) -> (res: bool)
        ensures
            res == (self.timeout <= now),
    {
        self.timeout <= now
    }
}

/// How often a task is polled: high every round, normal every second
/// round, low every fourth.
#[derive(Debug, Clone, Copy, PartialEq, Eq, Structural)]
pub enum Priority {
    High,
    Normal,
    Low,
}

pub open spec fn priority_index(p: Priority) -> int {
    match p {
        Priority::High => 0,
        Priority::Normal => 1,
        Priority::Low => 2,
    }
}

/// Whether the queue of priority `p` is polled in round `count`.
pub open spec fn polled_in(p: Priority, count: int) -> bool {
    match p {
        Priority::High => true,
        Priority::Normal => count % 2 == 0,
        Priority::Low => count % 4 == 0,
    }
}

/// The queues of waiting tasks, one per priority (by task id), whether
/// polling has begun, and the number of the current round.
#[derive(Debug)]
pub struct Executor {
    pub task_queues: Vec<Vec<TaskId>>,
    pub is_ready: bool,
    pub poll_count: usize,
}

impl Executor {
    pub open spec fn wf(&self) -> bool {
        self.task_queues@.len() == 3
    }

    pub fn new() -> (res: Self)
        ensures
            res.wf(),
            forall|i: int| 0 <= i < 3 ==> res.task_queues@[i]@.len() == 0,
            !res.is_ready,
            res.poll_count == 0,
    {
        let mut task_queues: Vec<Vec<TaskId>> = Vec::new();
        task_queues.push(Vec::new());
        task_queues.push(Vec::new());
        task_queues.push(Vec::new());
        Executor { task_queues, is_ready: false, poll_count: 0 }
    }

    /// Polling begins, from round 0.
    pub fn ready(&mut self)
        ensures
            final(self).is_ready,
            final(self).poll_count == 0,
            final(self).task_queues@ == old(self).task_queues@,
    {
        self.is_ready = true;
        self.poll_count = 0;
    }

    /// Queues a task at the back of its priority's queue.
    pub fn spawn(&mut self, id: TaskId, priority: Priority)
        requires
            old(self).wf(),
        ensures
            final(self).wf(),
            final(self).is_ready == old(self).is_ready,
            final(self).poll_count == old(self).poll_count,
            forall|i: int| 0 <= i < 3 ==> #[trigger] final(self).task_queues@[i]@ == if i == priority_index(priority) {
                old(self).task_queues@[i]@.push(id)
            } else {
                old(self).task_queues@[i]@
            },
    {
        let k: usize = match priority {
            Priority::High => 0,
            Priority::Normal => 1,
            Priority::Low => 2,
        };
        let mut q = self.task_queues.remove(k);
        q.push(id);
        self.task_queues.insert(k, q);
        assert forall|i: int| 0 <= i < 3 implies #[trigger] self.task_queues@[i]@ == if i == k {
            old(self).task_queues@[i]@.push(id)
        } else {
            old(self).task_queues@[i]@
        } by {}
    }

    /// Starts a round: once polling has begun, the round number goes up
    /// (wrapping) and the task at the front of each queue polled in that
    /// round is taken out, to be polled now, high priority first. Before
    /// polling begins nothing happens.
    pub fn poll(&mut self) -> (res: Vec<(Priority, TaskId)>)
        requires
            old(self).wf(),
        ensures
            final(self).wf(),
            final(self).is_ready == old(self).is_ready,
            !old(self).is_ready ==> res@.len() == 0 && final(self).poll_count == old(self).poll_count
                && final(self).task_queues@ == old(self).task_queues@,
            old(self).is_ready ==> ({
                let c = (old(self).poll_count + 1) % (usize::MAX + 1);
                let takes = |p: Priority|
                    polled_in(p, c) && old(self).task_queues@[priority_index(p)]@.len() > 0;
                &&& final(self).poll_count == c
                &&& forall|i: int|
                    0 <= i < 3 ==> #[trigger] final(self).task_queues@[i]@ == if takes(
                        if i == 0 { Priority::High } else if i == 1 { Priority::Normal } else { Priority::Low },
                    ) {
                        old(self).task_queues@[i]@.drop_first()
                    } else {
                        old(self).task_queues@[i]@
                    }
                &&& res@ == (if takes(Priority::High) {
                    seq![(Priority::High, old(self).task_queues@[0]@[0])]
                } else {
                    Seq::empty()
                }) + (if takes(Priority::Normal) {
                    seq![(Priority::Normal, old(self).task_queues@[1]@[0])]
                } else {
                    Seq::empty()
                }) + (if takes(Priority::Low) {
                    seq![(Priority::Low, old(self).task_queues@[2]@[0])]
                } else {
                    Seq::empty()
                })
            }),
    {
        let mut res: Vec<(Priority, TaskId)> = Vec::new();
        if !self.is_ready {
            return res;
        }
        self.poll_count = self.poll_count.wrapping_add(1);
        let c = self.poll_count;
        let ghost q0 = self.task_queues@;
        if self.task_queues[0].len() > 0 {
            let mut q = self.task_queues.remove(0);
            let id = q.remove(0);
            self.task_queues.insert(0, q);
            res.push((Priority::High, id));
        }
        if c % 2 == 0 && self.task_queues[1].len() > 0 {
            let mut q = self.task_queues.remove(1);
            let id = q.remove(0);
            self.task_queues.insert(1, q);
            res.push((Priority::Normal, id));
        }
        if c % 4 == 0 && self.task_queues[2].len() > 0 {
            let mut q = self.task_queues.remove(2);
            let id = q.remove(0);
            self.task_queues.insert(2, q);
            res.push((Priority::Low, id));
        }
        proof {
            assert forall|i: int| 0 <= i < 3 implies #[trigger] self.task_queues@[i]@ == if polled_in(
                if i == 0 { Priority::High } else if i == 1 { Priority::Normal } else { Priority::Low },
                c as int,
            ) && q0[i]@.len() > 0 {
                q0[i]@.drop_first()
            } else {
                q0[i]@
            } by {}
        }
        res
    }

    /// A polled task that is not finished goes to the back of its queue;
    /// a finished one is dropped.
    pub fn poll_done(&mut self, priority: Priority, id: TaskId, finished: bool)
        requires
            old(self).wf(),
        ensures
            final(self).wf(),
            final(self).is_ready == old(self).is_ready,
            final(self).poll_count == old(self).poll_count,
            forall|i: int| 0 <= i < 3 ==> #[trigger] final(self).task_queues@[i]@ == if i == priority_index(priority)
                && !finished {
                old(self).task_queues@[i]@.push(id)
            } else {
                old(self).task_queues@[i]@
            },
    {
        if !finished {
            self.spawn(id, priority);
        }
    }
}

} // verus!
