use lib::task::async_task::{Executor, Priority, TimeoutFuture};
use lib::task::scheduler::{SchedTask, TaskScheduler};
use lib::task::{pages_needed, TaskId, TaskState};

fn task(next: &mut usize, name: &str) -> SchedTask {
    SchedTask {
        id: TaskId::new(next),
        name: String::from(name),
        state: TaskState::default(),
        waiting_for: None,
        parent: None,
        children: Vec::new(),
    }
}

#[test]
fn test_multitask_scheduler_round_robin() {
    let mut next_id: usize = 1;
    let mut sched = TaskScheduler::new();
    let kernel_task = task(&mut next_id, "kernel");
    let kernel_id = kernel_task.id;
    sched.current_task = Some(kernel_task);

    let t1 = task(&mut next_id, "t1");
    let t1_id = t1.id;
    sched.spawn(t1);
    let t2 = task(&mut next_id, "t2");
    let t2_id = t2.id;
    sched.spawn(t2);

    let (prev, next) = sched.pick_next_task().expect("Sched 1 failed");
    assert_ne!(prev, next);
    assert_eq!(next, t1_id);

    let (prev, next) = sched.pick_next_task().expect("Sched 2 failed");
    assert_eq!(prev, t1_id);
    assert_eq!(next, t2_id);

    let (prev, next) = sched.pick_next_task().expect("Sched 3 failed");
    assert_eq!(prev, t2_id);
    assert_ne!(next, t1_id);
    assert_ne!(next, t2_id);
    assert_eq!(next, kernel_id);
}

#[test]
fn test_multitask_scheduler_exit() {
    let mut next_id: usize = 1;
    let mut sched = TaskScheduler::new();
    sched.current_task = Some(task(&mut next_id, "kernel"));
    let t1 = task(&mut next_id, "t1");
    let t1_id = t1.id;
    sched.spawn(t1);

    sched.pick_next_task();
    assert_eq!(sched.current_task_id(), Some(t1_id));

    let (prev, next, _stale) = sched.pick_next_task_on_exit(123);
    assert_eq!(prev, t1_id);
    assert!(sched.ready_queue.iter().all(|t| t.id != t1_id));
    let exited = sched.exited_tasks.last().unwrap();
    assert_eq!(exited.id, t1_id);
    assert_eq!(exited.state, TaskState::Exited(123));
    assert_ne!(next, t1_id);
    assert_eq!(sched.take_exit_code(t1_id), Some(123));
    assert_eq!(sched.take_exit_code(t1_id), None);
}

#[test]
fn nothing_to_switch_to() {
    let mut next_id: usize = 1;
    let mut sched = TaskScheduler::new();
    assert!(sched.pick_next_task().is_none());
    sched.current_task = Some(task(&mut next_id, "only"));
    assert!(sched.pick_next_task().is_none());
    assert_eq!(sched.current_task_id(), Some(TaskId::from_usize(1)));
}

#[test]
fn parent_waits_for_child_and_wakes_on_its_exit() {
    let mut next_id: usize = 1;
    let mut sched = TaskScheduler::new();
    let parent = task(&mut next_id, "shell");
    let parent_id = parent.id;
    sched.current_task = Some(parent);
    let child = task(&mut next_id, "ls");
    let child_id = sched.spawn_child(child).unwrap();
    assert_eq!(sched.current_task.as_ref().unwrap().children, vec![child_id]);

    let (prev, next) = sched.sleep_current_waiting_for(child_id);
    assert_eq!(prev, parent_id);
    assert_eq!(next, child_id);
    assert_eq!(sched.sleeping_tasks.len(), 1);
    assert_eq!(sched.sleeping_tasks[0].state, TaskState::Sleeping);

    let (exited, woken, _) = sched.pick_next_task_on_exit(0);
    assert_eq!(exited, child_id);
    assert_eq!(woken, parent_id);
    assert!(sched.sleeping_tasks.is_empty());
    assert_eq!(sched.current_task.as_ref().unwrap().state, TaskState::Running);
    assert_eq!(sched.take_exit_code(child_id), Some(0));
}

#[test]
fn spawn_child_without_running_task_fails() {
    let mut next_id: usize = 1;
    let mut sched = TaskScheduler::new();
    let res = sched.spawn_child(task(&mut next_id, "orphan"));
    assert!(matches!(res, Err(lib::error::Error::NotInitialized)));
    assert_eq!(sched.ready_queue.len(), 1);
}

#[test]
fn snapshots_list_every_task() {
    let mut next_id: usize = 1;
    let mut sched = TaskScheduler::new();
    sched.current_task = Some(task(&mut next_id, "init"));
    let t = task(&mut next_id, "worker");
    let t_id = t.id;
    sched.spawn(t);
    let ids = sched.task_ids();
    assert_eq!(ids, vec![t_id, TaskId::from_usize(1)]);
    let snap = sched.task_snapshot(t_id).unwrap();
    assert_eq!(snap.name, "worker");
    assert_eq!(snap.state, TaskState::Ready);
    assert!(sched.task_snapshot(TaskId::from_usize(99)).is_none());
}

#[test]
fn task_state_text() {
    assert_eq!(TaskState::Running.to_string(), "Running");
    assert_eq!(TaskState::Ready.to_string(), "Ready");
    assert_eq!(TaskState::Sleeping.to_string(), "Sleeping");
    assert_eq!(TaskState::Exited(0).to_string(), "Exited(0)");
    assert_eq!(TaskState::Exited(-17).to_string(), "Exited(-17)");
    assert_eq!(TaskState::Exited(i32::MIN).to_string(), "Exited(-2147483648)");
    assert_eq!(TaskState::default(), TaskState::Ready);
}

#[test]
fn task_ids_count_up() {
    let mut next: usize = 5;
    let a = TaskId::new(&mut next);
    let b = TaskId::new(&mut next);
    assert_eq!(a.get(), 5);
    assert_eq!(b.get(), 6);
    assert_eq!(next, 7);
}

#[test]
fn pages_needed_for_segments() {
    assert_eq!(pages_needed(0x1000, 0), 0);
    assert_eq!(pages_needed(0x1000, 1), 1);
    assert_eq!(pages_needed(0x1000, 0x1000), 1);
    assert_eq!(pages_needed(0x1fff, 2), 2);
    assert_eq!(pages_needed(0x400000, 0x2001), 3);
}

#[test]
fn timeout_future_is_ready_at_its_deadline() {
    let t = TimeoutFuture::new(100, 50);
    assert_eq!(t.timeout, 150);
    assert!(!t.is_ready(149));
    assert!(t.is_ready(150));
    assert!(t.is_ready(1000));
}

#[test]
fn executor_polls_by_priority() {
    let mut ex = Executor::new();
    ex.spawn(TaskId::from_usize(1), Priority::High);
    ex.spawn(TaskId::from_usize(2), Priority::Normal);
    ex.spawn(TaskId::from_usize(3), Priority::Low);
    ex.spawn(TaskId::from_usize(4), Priority::High);
    // nothing is polled before the executor is ready
    assert!(ex.poll().is_empty());
    ex.ready();
    // round 1: only high priority
    assert_eq!(ex.poll(), vec![(Priority::High, TaskId::from_usize(1))]);
    // round 2: high and normal
    assert_eq!(
        ex.poll(),
        vec![(Priority::High, TaskId::from_usize(4)), (Priority::Normal, TaskId::from_usize(2))]
    );
    // round 3: the high queue is empty
    assert!(ex.poll().is_empty());
    // round 4: low priority too
    assert_eq!(ex.poll(), vec![(Priority::Low, TaskId::from_usize(3))]);
    assert_eq!(ex.poll_count, 4);
}

#[test]
fn unfinished_task_is_queued_again() {
    let mut ex = Executor::new();
    ex.ready();
    ex.spawn(TaskId::from_usize(9), Priority::High);
    let polled = ex.poll();
    assert_eq!(polled, vec![(Priority::High, TaskId::from_usize(9))]);
    ex.poll_done(Priority::High, TaskId::from_usize(9), false);
    assert_eq!(ex.poll(), vec![(Priority::High, TaskId::from_usize(9))]);
    ex.poll_done(Priority::High, TaskId::from_usize(9), true);
    assert!(ex.poll().is_empty());
}
