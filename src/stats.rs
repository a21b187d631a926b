//! Counts shown under the task list, and the mark drawn before each task.
use vstd::prelude::*;
use crate::editor::push_char;
use crate::task::TaskState;

verus! {

/// The decimal digit `d`.
pub open spec fn digit(d: nat) -> char {
    seq!['0', '1', '2', '3', '4', '5', '6', '7', '8', '9'][d as int]
}

/// The decimal representation of `n`, without sign or leading zeros.
pub open spec fn decimal(n: nat) -> Seq<char>
    decreases n,
{
    if n < 10 {
        seq![digit(n)]
    } else {
        decimal(n / 10).push(digit(n % 10))
    }
}

fn digit_char(d: u32) -> (c: char)
    requires
        d < 10,
    ensures
        c == digit(d as nat),
{
    match d {
        0 => '0',
        1 => '1',
        2 => '2',
        3 => '3',
        4 => '4',
        5 => '5',
        6 => '6',
        7 => '7',
        8 => '8',
        _ => '9',
    }
}

/// Appends the decimal representation of `n` to `s`.
fn push_decimal(s: &mut String, n: u32)
    ensures
        final(s)@ == old(s)@ + decimal(n as nat),
    decreases n,
{
    if n < 10 {
        push_char(s, digit_char(n));
        assert(old(s)@.push(digit(n as nat)) =~= old(s)@ + decimal(n as nat));
    } else {
        push_decimal(s, n / 10);
        push_char(s, digit_char(n % 10));
        assert((old(s)@ + decimal((n / 10) as nat)).push(digit((n % 10) as nat)) =~= old(s)@
            + decimal(n as nat));
    }
}

/// How many tasks were counted, and how many of them are completed or
/// canceled.
pub struct Stats {
    pub tasks: u32,
    pub completed: u32,
    pub canceled: u32,
}

impl Stats {
    pub open spec fn wf(&self) -> bool {
        self.completed + self.canceled <= self.tasks
    }

    pub fn new() -> (s: Stats)
        ensures
            s.wf(),
            s.tasks == 0,
            s.completed == 0,
            s.canceled == 0,
    {
        Stats { tasks: 0, completed: 0, canceled: 0 }
    }

    /// Counts one more task in state `state`.
    pub fn add_task(&mut self, state: &TaskState)
        requires
            old(self).wf(),
            old(self).tasks < u32::MAX,
        ensures
            final(self).wf(),
            final(self).tasks == old(self).tasks + 1,
            final(self).completed == old(self).completed + if *state == TaskState::Completed {
                1int
            } else {
                0int
            },
            final(self).canceled == old(self).canceled + if *state == TaskState::Canceled {
                1int
            } else {
                0int
            },
    {
        self.tasks = self.tasks + 1;
        match state {
            TaskState::Completed => self.completed = self.completed + 1,
            TaskState::Canceled => self.canceled = self.canceled + 1,
            _ => {},
        }
    }

    /// The line " Tasks: T - Completed: C - Canceled: X ".
    pub fn get_string(&self) -> (r: String)
        ensures
            r@ == " Tasks: "@ + decimal(self.tasks as nat) + " - Completed: "@ + decimal(
                self.completed as nat,
            ) + " - Canceled: "@ + decimal(self.canceled as nat) + " "@,
    {
        let mut r = " Tasks: ".to_owned();
        push_decimal(&mut r, self.tasks);
        r.append(" - Completed: ");
        push_decimal(&mut r, self.completed);
        r.append(" - Canceled: ");
        push_decimal(&mut r, self.canceled);
        r.append(" ");
        r
    }
}

/// The mark drawn before a task in state `state`.
pub fn get_checkbox(state: &TaskState) -> (r: String)
    ensures
        r@ == match *state {
            TaskState::Todo => "󰄰 "@,
            TaskState::Canceled => "󰍶 "@,
            TaskState::Completed => "󰗠 "@,
        },
{
    match state {
        TaskState::Todo => "󰄰 ".to_owned(),
        TaskState::Canceled => "󰍶 ".to_owned(),
        TaskState::Completed => "󰗠 ".to_owned(),
    }
}

} // verus!
