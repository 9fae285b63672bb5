pub mod async_task;
pub mod scheduler;

use vstd::prelude::*;
use crate::codec::string_push;
use crate::text::{decimal, push_decimal};

verus! {

/// Identifies a task.
#[derive(Debug, Clone, Copy, PartialEq, Eq, Structural)]
pub struct TaskId(pub usize);

impl TaskId {
    /// The kernel's own task.
    pub fn kernel() -> (res: Self)
        ensures
            res.0 == 0,
    {
        TaskId(0)
    }

    /// The next fresh id from a counter.
    pub fn new(next: &mut usize) -> (res: Self)
        requires
            *old(next) < usize::MAX,
        ensures
            res.0 == *old(next),
            *final(next) == *old(next) + 1,
    {
        let id = TaskId(*next);
        *next = *next + 1;
        id
    }

    pub fn from_usize(value: usize) -> (res: Self)
        ensures
            res.0 == value,
    {
        TaskId(value)
    }

    pub fn get(&self) -> (res: usize)
        ensures
            res == self.0,
    {
        self.0
    }
}

/// The state of a task.
#[derive(Debug, Clone, Copy, PartialEq, Eq, Structural)]
pub enum TaskState {
    Running,
    Ready,
    Sleeping,
    Exited(i32),
}

/// The decimal form of a signed value.
pub open spec fn signed_decimal(n: i32) -> Seq<char> {
    if n < 0 {
        seq!['-'] + decimal((-(n as int)) as nat)
    } else {
        decimal(n as nat)
    }
}

/// How a task state is shown: its name, with the exit code of an exited task.
pub open spec fn task_state_text(s: TaskState) -> Seq<char> {
    match s {
        TaskState::Running => seq!['R', 'u', 'n', 'n', 'i', 'n', 'g'],
        TaskState::Ready => seq!['R', 'e', 'a', 'd', 'y'],
        TaskState::Sleeping => seq!['S', 'l', 'e', 'e', 'p', 'i', 'n', 'g'],
        TaskState::Exited(code) => seq!['E', 'x', 'i', 't', 'e', 'd', '('] + signed_decimal(code) + seq![')'],
    }
}

fn push_chars(s: &mut String, cs: &[char])
    ensures
        final(s)@ == old(s)@ + cs@,
{
    let mut i: usize = 0;
    while i < cs.len()
        invariant
            i <= cs@.len(),
            s@ == old(s)@ + cs@.take(i as int),
        decreases cs.len() - i,
    {
        string_push(s, cs[i]);
        i = i + 1;
        assert(s@ =~= old(s)@ + cs@.take(i as int));
    }
    assert(cs@.take(cs@.len() as int) =~= cs@);
}

impl TaskState {
    /// A task starts out ready.
    pub fn default() -> (res: Self)
        ensures
            res == TaskState::Ready,
    {
        TaskState::Ready
    }

    /// The state as text: "Running", "Ready", "Sleeping" or "Exited(code)".
    pub fn to_string(&self) -> (res: String)
        ensures
            res@ == task_state_text(*self),
    {
        let mut s = String::new();
        match self {
            TaskState::Running => {
                let cs: [char; 7] = ['R', 'u', 'n', 'n', 'i', 'n', 'g'];
                push_chars(&mut s, &cs);
            },
            TaskState::Ready => {
                let cs: [char; 5] = ['R', 'e', 'a', 'd', 'y'];
                push_chars(&mut s, &cs);
            },
            TaskState::Sleeping => {
                let cs: [char; 8] = ['S', 'l', 'e', 'e', 'p', 'i', 'n', 'g'];
                push_chars(&mut s, &cs);
            },
            TaskState::Exited(code) => {
                let cs: [char; 7] = ['E', 'x', 'i', 't', 'e', 'd', '('];
                push_chars(&mut s, &cs);
                let ghost before = s@;
                if *code < 0 {
                    string_push(&mut s, '-');
                    let magnitude: u32 = if *code == i32::MIN {
                        0x8000_0000u32
                    } else {
                        (-*code) as u32
                    };
                    push_decimal(&mut s, magnitude as usize);
                } else {
                    push_decimal(&mut s, *code as usize);
                }
                assert(s@ =~= before + signed_decimal(*code));
                string_push(&mut s, ')');
            },
        }
        assert(s@ =~= task_state_text(*self));
        s
    }
}

/// What is shown of a task.
#[derive(Debug)]
pub struct TaskSnapshot {
    pub id: TaskId,
    pub name: String,
    pub state: TaskState,
    pub parent: Option<TaskId>,
}

/// The number of 4 KiB pages that a loadable segment of `mem_size` bytes at
/// the virtual address `virt_addr` spans.
pub fn pages_needed(virt_addr: u64, mem_size: u64) -> (res: usize)
    requires
        mem_size <= u64::MAX - 0x2000,
        (virt_addr % 4096 + mem_size + 4095) / 4096 <= usize::MAX,
    ensures
        res == (virt_addr % 4096 + mem_size + 4095) / 4096,
{
    ((virt_addr % 4096 + mem_size + 4095) / 4096) as usize
}

} // verus!
