use vstd::prelude::*;
use std::collections::BTreeMap;
use crate::error::Error;
use crate::task::{TaskId, TaskSnapshot, TaskState};

verus! {

broadcast use {vstd::std_specs::btree::group_btree_axioms, vstd::laws_cmp::group_laws_cmp};

/// What the scheduler keeps of a task: its id, name and state, the child
/// it waits for, its parent and its children.
#[derive(Debug)]
pub struct SchedTask {
    pub id: TaskId,
    pub name: String,
    pub state: TaskState,
    pub waiting_for: Option<TaskId>,
    pub parent: Option<TaskId>,
    pub children: Vec<TaskId>,
}

/// The ids of a sequence of tasks, in order.
pub open spec fn ids_of(s: Seq<SchedTask>) -> Seq<TaskId> {
    s.map_values(|t: SchedTask| t.id)
}

/// The first task in `s` with id `id`, from index `i` on.
pub open spec fn index_of(s: Seq<SchedTask>, id: TaskId, i: int) -> Option<int>
    decreases s.len() - i,
{
    if i < 0 || i >= s.len() {
        None
    } else if s[i].id == id {
        Some(i)
    } else {
        index_of(s, id, i + 1)
    }
}

proof fn lemma_index_of(s: Seq<SchedTask>, id: TaskId, i: int)
    requires
        0 <= i,
    ensures
        index_of(s, id, i) matches Some(k) ==> i <= k < s.len() && s[k].id == id,
        index_of(s, id, i) is None ==> forall|k: int| i <= k < s.len() ==> s[k].id != id,
    decreases s.len() - i,
{
    if i < s.len() && s[i].id != id {
        lemma_index_of(s, id, i + 1);
    }
}

/// What a task is apart from its family: id, name, state and the child it
/// waits for.
pub open spec fn shape(t: SchedTask) -> (TaskId, Seq<char>, TaskState, Option<TaskId>) {
    (t.id, t.name@, t.state, t.waiting_for)
}

pub open spec fn shapes(s: Seq<SchedTask>) -> Seq<(TaskId, Seq<char>, TaskState, Option<TaskId>)> {
    s.map_values(|t: SchedTask| shape(t))
}

/// The first task in `s` waiting for `id`.
pub open spec fn waiter_of(s: Seq<SchedTask>, id: TaskId, i: int) -> Option<int>
    decreases s.len() - i,
{
    if i < 0 || i >= s.len() {
        None
    } else if s[i].waiting_for == Some(id) {
        Some(i)
    } else {
        waiter_of(s, id, i + 1)
    }
}

proof fn lemma_waiter_of(s: Seq<SchedTask>, id: TaskId, i: int)
    requires
        0 <= i,
    ensures
        waiter_of(s, id, i) matches Some(k) ==> i <= k < s.len() && s[k].waiting_for == Some(id),
    decreases s.len() - i,
{
    if i < s.len() && s[i].waiting_for != Some(id) {
        lemma_waiter_of(s, id, i + 1);
    }
}

/// The tasks: those ready to run in the order they will run, the one
/// running, those that exited since the last switch, those sleeping, and
/// the exit codes not yet collected.
#[derive(Debug)]
pub struct TaskScheduler {
    pub ready_queue: Vec<SchedTask>,
    pub current_task: Option<SchedTask>,
    pub exited_tasks: Vec<SchedTask>,
    pub sleeping_tasks: Vec<SchedTask>,
    pub exit_codes: BTreeMap<usize, i32>,
}

/// The task that `find_task` finds: the running task, else the first ready
/// one, else the first sleeping one with that id.
pub open spec fn found_task(s: &TaskScheduler, id: TaskId) -> Option<SchedTask> {
    let current_hit = match s.current_task {
        Some(t) => t.id == id,
        None => false,
    };
    if current_hit {
        s.current_task
    } else if index_of(s.ready_queue@, id, 0) is Some {
        Some(s.ready_queue@[index_of(s.ready_queue@, id, 0).unwrap()])
    } else if index_of(s.sleeping_tasks@, id, 0) is Some {
        Some(s.sleeping_tasks@[index_of(s.sleeping_tasks@, id, 0).unwrap()])
    } else {
        None
    }
}

impl TaskScheduler {
    pub fn new() -> (res: Self)
        ensures
            res.ready_queue@.len() == 0,
            res.current_task is None,
            res.exited_tasks@.len() == 0,
            res.sleeping_tasks@.len() == 0,
            res.exit_codes@ == Map::<usize, i32>::empty(),
    {
        TaskScheduler {
            ready_queue: Vec::new(),
            current_task: None,
            exited_tasks: Vec::new(),
            sleeping_tasks: Vec::new(),
            exit_codes: BTreeMap::new(),
        }
    }

    /// Puts a task at the back of the ready queue.
    pub fn spawn(&mut self, task: SchedTask)
        ensures
            final(self).ready_queue@ == old(self).ready_queue@.push(task),
            final(self).current_task == old(self).current_task,
            final(self).exited_tasks@ == old(self).exited_tasks@,
            final(self).sleeping_tasks@ == old(self).sleeping_tasks@,
            final(self).exit_codes@ == old(self).exit_codes@,
    {
        self.ready_queue.push(task);
    }

    /// The id of the running task.
    pub fn current_task_id(&self) -> (res: Option<TaskId>)
        ensures
            match self.current_task {
                Some(t) => res == Some(t.id),
                None => res is None,
            },
    {
        match &self.current_task {
            Some(t) => Some(t.id),
            None => None,
        }
    }

    /// Switches from the running task to the first ready one, which runs
    /// next while the other goes to the back of the queue, ready. Gives the
    /// ids of the two, or nothing when no task is running or none is ready.
    pub fn pick_next_task(&mut self) -> (res: Option<(TaskId, TaskId)>)
        ensures
            final(self).exited_tasks@ == old(self).exited_tasks@,
            final(self).sleeping_tasks@ == old(self).sleeping_tasks@,
            final(self).exit_codes@ == old(self).exit_codes@,
            (old(self).current_task is None || old(self).ready_queue@.len() == 0) ==> res is None
                && final(self).ready_queue@ == old(self).ready_queue@ && final(self).current_task
                == old(self).current_task,
            (old(self).current_task is Some && old(self).ready_queue@.len() > 0) ==> ({
                let prev = old(self).current_task.unwrap();
                let next = old(self).ready_queue@[0];
                let q = final(self).ready_queue@;
                &&& res == Some((prev.id, next.id))
                &&& final(self).current_task matches Some(c) && c == SchedTask { state: TaskState::Running, ..next }
                &&& q.drop_last() == old(self).ready_queue@.drop_first()
                &&& q.len() == old(self).ready_queue@.len()
                &&& q.last() == SchedTask { state: TaskState::Ready, ..prev }
            }),
    {
        let mut prev_task = match self.current_task.take() {
            Some(t) => t,
            None => return None,
        };
        if self.ready_queue.len() > 0 {
            let ghost q0 = self.ready_queue@;
            let mut next_task = self.ready_queue.remove(0);
            prev_task.state = TaskState::Ready;
            next_task.state = TaskState::Running;
            let prev_id = prev_task.id;
            let next_id = next_task.id;
            self.ready_queue.push(prev_task);
            self.current_task = Some(next_task);
            assert(self.ready_queue@.drop_last() =~= q0.drop_first());
            Some((prev_id, next_id))
        } else {
            self.current_task = Some(prev_task);
            None
        }
    }

    /// Puts the running task to sleep until `child_id` exits, and runs the
    /// first ready task. There must be a running task and a ready one.
    pub fn sleep_current_waiting_for(&mut self, child_id: TaskId) -> (res: (TaskId, TaskId))
        requires
            old(self).current_task is Some,
            old(self).ready_queue@.len() > 0,
        ensures
            ({
                let prev = old(self).current_task.unwrap();
                let next = old(self).ready_queue@[0];
                &&& res == (prev.id, next.id)
                &&& final(self).sleeping_tasks@ == old(self).sleeping_tasks@.push(
                    SchedTask { state: TaskState::Sleeping, waiting_for: Some(child_id), ..prev },
                )
                &&& final(self).ready_queue@ == old(self).ready_queue@.drop_first()
                &&& final(self).current_task matches Some(c) && c == SchedTask { state: TaskState::Running, ..next }
            }),
            final(self).exited_tasks@ == old(self).exited_tasks@,
            final(self).exit_codes@ == old(self).exit_codes@,
    {
        let mut current = match self.current_task.take() {
            Some(t) => t,
            None => {
                proof {
                    assert(false);
                }
                return (child_id, child_id);
            },
        };
        current.waiting_for = Some(child_id);
        current.state = TaskState::Sleeping;
        let prev_id = current.id;
        self.sleeping_tasks.push(current);
        let mut next_task = self.ready_queue.remove(0);
        next_task.state = TaskState::Running;
        let next_id = next_task.id;
        self.current_task = Some(next_task);
        (prev_id, next_id)
    }

    /// Sleeps until `child_id` exits, unless it already has (its exit code
    /// is waiting to be collected).
    pub fn try_sleep_current_waiting_for(&mut self, child_id: TaskId) -> (res: Option<(TaskId, TaskId)>)
        requires
            !old(self).exit_codes@.contains_key(child_id.0) ==> old(self).current_task is Some
                && old(self).ready_queue@.len() > 0,
        ensures
            old(self).exit_codes@.contains_key(child_id.0) ==> res is None && final(self).ready_queue@ == old(
                self,
            ).ready_queue@ && final(self).sleeping_tasks@ == old(self).sleeping_tasks@ && final(self).current_task
                == old(self).current_task,
            !old(self).exit_codes@.contains_key(child_id.0) ==> ({
                let prev = old(self).current_task.unwrap();
                let next = old(self).ready_queue@[0];
                &&& res == Some((prev.id, next.id))
                &&& final(self).sleeping_tasks@ == old(self).sleeping_tasks@.push(
                    SchedTask { state: TaskState::Sleeping, waiting_for: Some(child_id), ..prev },
                )
                &&& final(self).ready_queue@ == old(self).ready_queue@.drop_first()
                &&& final(self).current_task matches Some(c) && c == SchedTask { state: TaskState::Running, ..next }
            }),
            final(self).exited_tasks@ == old(self).exited_tasks@,
            final(self).exit_codes@ == old(self).exit_codes@,
    {
        if self.exit_codes.contains_key(&child_id.0) {
            return None;
        }
        Some(self.sleep_current_waiting_for(child_id))
    }

    /// Takes the exit code of a task that exited, once.
    pub fn take_exit_code(&mut self, id: TaskId) -> (res: Option<i32>)
        ensures
            final(self).exit_codes@ == old(self).exit_codes@.remove(id.0),
            old(self).exit_codes@.contains_key(id.0) ==> res == Some(old(self).exit_codes@[id.0]),
            !old(self).exit_codes@.contains_key(id.0) ==> res is None,
            final(self).ready_queue@ == old(self).ready_queue@,
            final(self).current_task == old(self).current_task,
            final(self).exited_tasks@ == old(self).exited_tasks@,
            final(self).sleeping_tasks@ == old(self).sleeping_tasks@,
    {
        self.exit_codes.remove(&id.0)
    }

    /// The ids of the ready tasks in queue order, then the running task's,
    /// then the sleeping tasks'.
    pub fn task_ids(&self) -> (res: Vec<TaskId>)
        ensures
            res@ == ids_of(self.ready_queue@) + (match self.current_task {
                Some(t) => seq![t.id],
                None => Seq::empty(),
            }) + ids_of(self.sleeping_tasks@),
    {
        let mut ids: Vec<TaskId> = Vec::new();
        let mut i: usize = 0;
        while i < self.ready_queue.len()
            invariant
                i <= self.ready_queue@.len(),
                ids@ == ids_of(self.ready_queue@.take(i as int)),
            decreases self.ready_queue@.len() - i,
        {
            ids.push(self.ready_queue[i].id);
            i = i + 1;
            assert(ids@ =~= ids_of(self.ready_queue@.take(i as int)));
        }
        assert(self.ready_queue@.take(i as int) =~= self.ready_queue@);
        let ghost mid = ids@;
        match &self.current_task {
            Some(t) => ids.push(t.id),
            None => {},
        }
        let ghost mid2 = ids@;
        let mut i: usize = 0;
        while i < self.sleeping_tasks.len()
            invariant
                i <= self.sleeping_tasks@.len(),
                ids@ == mid2 + ids_of(self.sleeping_tasks@.take(i as int)),
            decreases self.sleeping_tasks@.len() - i,
        {
            ids.push(self.sleeping_tasks[i].id);
            i = i + 1;
            assert(ids@ =~= mid2 + ids_of(self.sleeping_tasks@.take(i as int)));
        }
        assert(self.sleeping_tasks@.take(i as int) =~= self.sleeping_tasks@);
        assert(ids@ =~= ids_of(self.ready_queue@) + (match self.current_task {
            Some(t) => seq![t.id],
            None => Seq::empty(),
        }) + ids_of(self.sleeping_tasks@));
        ids
    }

    /// What is shown of the task `find_task` finds.
    pub fn task_snapshot(&self, id: TaskId) -> (res: Option<TaskSnapshot>)
        ensures
            match found_task(self, id) {
                Some(t) => res matches Some(snap) && snap.id == t.id && snap.name@ == t.name@ && snap.state
                    == t.state && snap.parent == t.parent,
                None => res is None,
            },
    {
        match &self.current_task {
            Some(t) => {
                if t.id == id {
                    return Some(TaskSnapshot { id: t.id, name: t.name.clone(), state: t.state, parent: t.parent });
                }
            },
            None => {},
        }
        proof {
            lemma_index_of(self.ready_queue@, id, 0);
            lemma_index_of(self.sleeping_tasks@, id, 0);
        }
        match position(&self.ready_queue, id) {
            Some(k) => {
                let t = &self.ready_queue[k];
                return Some(TaskSnapshot { id: t.id, name: t.name.clone(), state: t.state, parent: t.parent });
            },
            None => {},
        }
        match position(&self.sleeping_tasks, id) {
            Some(k) => {
                let t = &self.sleeping_tasks[k];
                Some(TaskSnapshot { id: t.id, name: t.name.clone(), state: t.state, parent: t.parent })
            },
            None => None,
        }
    }

    /// Adds `child_id` to the children of the running task.
    pub fn add_child_to_current(&mut self, child_id: TaskId) -> (res: Result<(), Error>)
        ensures
            final(self).ready_queue@ == old(self).ready_queue@,
            final(self).exited_tasks@ == old(self).exited_tasks@,
            final(self).sleeping_tasks@ == old(self).sleeping_tasks@,
            final(self).exit_codes@ == old(self).exit_codes@,
            match old(self).current_task {
                None => res == Err::<(), Error>(Error::NotInitialized) && final(self).current_task is None,
                Some(t) => res is Ok && (final(self).current_task matches Some(c) && shape(c) == shape(t)
                    && c.parent == t.parent && c.children@ == t.children@.push(child_id)),
            },
    {
        match self.current_task.take() {
            Some(mut t) => {
                t.children.push(child_id);
                self.current_task = Some(t);
                Ok(())
            },
            None => Err(Error::NotInitialized),
        }
    }

    /// Starts a child of the running task: it is queued and recorded among
    /// the running task's children.
    pub fn spawn_child(&mut self, task: SchedTask) -> (res: Result<TaskId, Error>)
        ensures
            final(self).ready_queue@ == old(self).ready_queue@.push(task),
            final(self).exited_tasks@ == old(self).exited_tasks@,
            final(self).sleeping_tasks@ == old(self).sleeping_tasks@,
            final(self).exit_codes@ == old(self).exit_codes@,
            match old(self).current_task {
                None => res == Err::<TaskId, Error>(Error::NotInitialized) && final(self).current_task is None,
                Some(t) => res == Ok::<TaskId, Error>(task.id) && (final(self).current_task matches Some(c) && shape(c)
                    == shape(t) && c.parent == t.parent && c.children@ == t.children@.push(task.id)),
            },
    {
        let id = task.id;
        self.spawn(task);
        match self.add_child_to_current(id) {
            Ok(()) => Ok(id),
            Err(e) => Err(e),
        }
    }

    /// The task with id `id` among the ready, then the sleeping tasks, by
    /// where it is.
    fn locate(&self, id: TaskId) -> (res: Option<(bool, usize)>)
        ensures
            res matches Some((true, k)) ==> index_of(self.ready_queue@, id, 0) == Some(k as int),
            res matches Some((false, k)) ==> index_of(self.ready_queue@, id, 0) is None && index_of(
                self.sleeping_tasks@,
                id,
                0,
            ) == Some(k as int),
            res is None ==> index_of(self.ready_queue@, id, 0) is None && index_of(self.sleeping_tasks@, id, 0) is None,
    {
        match position(&self.ready_queue, id) {
            Some(k) => Some((true, k)),
            None => match position(&self.sleeping_tasks, id) {
                Some(k) => Some((false, k)),
                None => None,
            },
        }
    }

    /// Ends the running task with `exit_code`: it leaves its parent's
    /// children, its children pass to its parent (or to the kernel task),
    /// its exit code is kept, a task sleeping until it exits wakes at the
    /// front of the ready queue, and the first ready task runs. Gives the
    /// ids of the exited and the next task, and the tasks that exited before.
    pub fn pick_next_task_on_exit(&mut self, exit_code: i32) -> (res: (TaskId, TaskId, Vec<SchedTask>))
        requires
            old(self).current_task is Some,
            old(self).ready_queue@.len() > 0 || waiter_of(
                old(self).sleeping_tasks@,
                old(self).current_task.unwrap().id,
                0,
            ) is Some,
        ensures
            ({
                let cur = old(self).current_task.unwrap();
                let id = cur.id;
                let w = waiter_of(old(self).sleeping_tasks@, id, 0);
                let woken = match w {
                    Some(k) => seq![(old(self).sleeping_tasks@[k].id, old(self).sleeping_tasks@[k].name@, TaskState::Ready, None::<TaskId>)],
                    None => Seq::empty(),
                };
                let ready = woken + shapes(old(self).ready_queue@);
                let ex = final(self).exited_tasks@[0];
                &&& res.0 == id
                &&& res.2@ == old(self).exited_tasks@
                &&& final(self).exit_codes@ == old(self).exit_codes@.insert(id.0, exit_code)
                &&& final(self).exited_tasks@.len() == 1
                &&& shape(ex) == (id, cur.name@, TaskState::Exited(exit_code), cur.waiting_for)
                &&& ex.parent == cur.parent && ex.children@.len() == 0
                &&& shapes(final(self).sleeping_tasks@) == match w {
                    Some(k) => shapes(old(self).sleeping_tasks@).remove(k),
                    None => shapes(old(self).sleeping_tasks@),
                }
                &&& final(self).current_task matches Some(c) && shape(c) == (ready[0].0, ready[0].1, TaskState::Running, ready[0].3)
                &&& res.1 == ready[0].0
                &&& shapes(final(self).ready_queue@) == ready.drop_first()
            }),
    {
        let mut current = match self.current_task.take() {
            Some(t) => t,
            None => {
                proof {
                    assert(false);
                }
                return (TaskId(0), TaskId(0), Vec::new());
            },
        };
        let ghost ready0 = self.ready_queue@;
        let ghost sleep0 = self.sleeping_tasks@;
        let exiting_id = current.id;
        current.state = TaskState::Exited(exit_code);
        match current.parent {
            Some(parent_id) => {
                match self.locate(parent_id) {
                    Some((in_ready, k)) => {
                        proof {
                            lemma_index_of(self.ready_queue@, parent_id, 0);
                            lemma_index_of(self.sleeping_tasks@, parent_id, 0);
                        }
                        if in_ready {
                            let mut p = self.ready_queue.remove(k);
                            remove_child(&mut p.children, exiting_id);
                            self.ready_queue.insert(k, p);
                        } else {
                            let mut p = self.sleeping_tasks.remove(k);
                            remove_child(&mut p.children, exiting_id);
                            self.sleeping_tasks.insert(k, p);
                        }
                        assert(shapes(self.ready_queue@) =~= shapes(ready0));
                        assert(shapes(self.sleeping_tasks@) =~= shapes(sleep0));
                    },
                    None => {},
                }
            },
            None => {},
        }
        let new_parent_id = match current.parent {
            Some(p) => p,
            None => TaskId::kernel(),
        };
        let mut children: Vec<TaskId> = Vec::new();
        core::mem::swap(&mut children, &mut current.children);
        let mut i: usize = 0;
        while i < children.len()
            invariant
                i <= children@.len(),
                shapes(self.ready_queue@) == shapes(ready0),
                shapes(self.sleeping_tasks@) == shapes(sleep0),
                self.exited_tasks@ == old(self).exited_tasks@,
                self.exit_codes@ == old(self).exit_codes@,
            decreases children@.len() - i,
        {
            let child_id = children[i];
            match self.locate(child_id) {
                Some((in_ready, k)) => {
                    proof {
                        lemma_index_of(self.ready_queue@, child_id, 0);
                        lemma_index_of(self.sleeping_tasks@, child_id, 0);
                    }
                    let ghost r = self.ready_queue@;
                    let ghost sl = self.sleeping_tasks@;
                    if in_ready {
                        let mut c = self.ready_queue.remove(k);
                        c.parent = Some(new_parent_id);
                        self.ready_queue.insert(k, c);
                    } else {
                        let mut c = self.sleeping_tasks.remove(k);
                        c.parent = Some(new_parent_id);
                        self.sleeping_tasks.insert(k, c);
                    }
                    assert(shapes(self.ready_queue@) =~= shapes(r));
                    assert(shapes(self.sleeping_tasks@) =~= shapes(sl));
                },
                None => {},
            }
            match self.locate(new_parent_id) {
                Some((in_ready, k)) => {
                    proof {
                        lemma_index_of(self.ready_queue@, new_parent_id, 0);
                        lemma_index_of(self.sleeping_tasks@, new_parent_id, 0);
                    }
                    let ghost r = self.ready_queue@;
                    let ghost sl = self.sleeping_tasks@;
                    if in_ready {
                        let mut p = self.ready_queue.remove(k);
                        p.children.push(child_id);
                        self.ready_queue.insert(k, p);
                    } else {
                        let mut p = self.sleeping_tasks.remove(k);
                        p.children.push(child_id);
                        self.sleeping_tasks.insert(k, p);
                    }
                    assert(shapes(self.ready_queue@) =~= shapes(r));
                    assert(shapes(self.sleeping_tasks@) =~= shapes(sl));
                },
                None => {},
            }
            i = i + 1;
        }
        let mut old_exited: Vec<SchedTask> = Vec::new();
        core::mem::swap(&mut old_exited, &mut self.exited_tasks);
        self.exited_tasks.push(current);
        self.exit_codes.insert(exiting_id.0, exit_code);
        let ghost ready1 = self.ready_queue@;
        let ghost sleep1 = self.sleeping_tasks@;
        let mut w: Option<usize> = None;
        let mut j: usize = 0;
        while j < self.sleeping_tasks.len() && w.is_none()
            invariant
                j <= self.sleeping_tasks@.len(),
                self.sleeping_tasks@ == sleep1,
                w is None ==> waiter_of(sleep1, exiting_id, 0) == waiter_of(sleep1, exiting_id, j as int),
                w matches Some(k) ==> waiter_of(sleep1, exiting_id, 0) == Some(k as int) && k < sleep1.len(),
            decreases sleep1.len() - j, if w is None { 1int } else { 0int },
        {
            if self.sleeping_tasks[j].waiting_for == Some(exiting_id) {
                w = Some(j);
            } else {
                j = j + 1;
            }
        }
        proof {
            assert(forall|k: int| 0 <= k < sleep1.len() ==> #[trigger] shapes(sleep1)[k] == shapes(sleep0)[k]);
            assert(waiter_of(sleep1, exiting_id, 0) == waiter_of(sleep0, exiting_id, 0)) by {
                lemma_waiter_same(sleep1, sleep0, exiting_id, 0);
            }
        }
        match w {
            Some(k) => {
                let mut waiter = self.sleeping_tasks.remove(k);
                waiter.state = TaskState::Ready;
                waiter.waiting_for = None;
                self.ready_queue.insert(0, waiter);
                assert(shapes(self.sleeping_tasks@) =~= shapes(sleep1).remove(k as int));
                assert(shapes(sleep1)[k as int] == shapes(sleep0)[k as int]);
                assert(shapes(self.ready_queue@) =~= seq![(sleep0[k as int].id, sleep0[k as int].name@, TaskState::Ready, None::<TaskId>)] + shapes(ready1));
            },
            None => {},
        }
        let ghost ready2 = self.ready_queue@;
        let mut next_task = self.ready_queue.remove(0);
        next_task.state = TaskState::Running;
        let next_id = next_task.id;
        self.current_task = Some(next_task);
        proof {
            let woken = match waiter_of(sleep0, exiting_id, 0) {
                Some(k) => seq![(sleep0[k].id, sleep0[k].name@, TaskState::Ready, None::<TaskId>)],
                None => Seq::empty(),
            };
            assert(shapes(ready2) =~= woken + shapes(ready0));
            assert(shapes(self.ready_queue@) =~= shapes(ready2).drop_first());
        }
        (exiting_id, next_id, old_exited)
    }
}

/// Tasks of the same shapes have their waiters at the same places.
proof fn lemma_waiter_same(a: Seq<SchedTask>, b: Seq<SchedTask>, id: TaskId, i: int)
    requires
        shapes(a) == shapes(b),
        0 <= i,
    ensures
        waiter_of(a, id, i) == waiter_of(b, id, i),
    decreases a.len() - i,
{
    assert(a.len() == shapes(a).len());
    assert(b.len() == shapes(b).len());
    if i < a.len() {
        assert(shapes(a)[i] == shapes(b)[i]);
        lemma_waiter_same(a, b, id, i + 1);
    }
}

/// Drops every occurrence of `id` from a list of children.
fn remove_child(children: &mut Vec<TaskId>, id: TaskId)
    ensures
        final(children)@ == old(children)@.filter(|c: TaskId| c != id),
{
    let mut kept: Vec<TaskId> = Vec::new();
    let mut i: usize = 0;
    while i < children.len()
        invariant
            i <= children@.len(),
            children@ == old(children)@,
            kept@ == old(children)@.take(i as int).filter(|c: TaskId| c != id),
        decreases children@.len() - i,
    {
        let c = children[i];
        proof {
            assert(old(children)@.take(i + 1) =~= old(children)@.take(i as int).push(c));
            old(children)@.take(i as int).lemma_filter_push(c, |c: TaskId| c != id);
        }
        if c != id {
            kept.push(c);
        }
        i = i + 1;
    }
    assert(old(children)@.take(i as int) =~= old(children)@);
    *children = kept;
}

/// The first task with id `id` in `s`, by index.
fn position(s: &Vec<SchedTask>, id: TaskId) -> (res: Option<usize>)
    ensures
        res matches Some(k) ==> index_of(s@, id, 0) == Some(k as int),
        res is None ==> index_of(s@, id, 0) is None,
{
    let mut i: usize = 0;
    while i < s.len()
        invariant
            i <= s@.len(),
            index_of(s@, id, 0) == index_of(s@, id, i as int),
        decreases s@.len() - i,
    {
        if s[i].id == id {
            return Some(i);
        }
        i = i + 1;
    }
    None
}

} // verus!
