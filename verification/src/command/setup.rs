//! What the new process does between `fork` and `execve`.
//!
//! Nothing here allocates or unwinds: after `fork` in a process that may have had threads, only
//! async-signal-safe calls are defined. It is a handful of numbers and what to call next.

use vstd::prelude::*;

verus! {

/// The status of a child that could not become the program.
pub const NOT_RUN: i32 = 127;

/// What the child calls next. Each call's return value goes to [`Setup::step`].
#[derive(Copy, Clone, PartialEq, Eq, Structural, Debug)]
pub enum ChildCall {
    /// Put itself in a process group of its own, so that killing it kills what it started.
    SetGroup,
    /// Copy this descriptor to the lowest free one from 3 up, close-on-exec.
    Lift(i32),
    /// Open `/dev/null` for reading.
    OpenNull,
    /// Make the second descriptor a copy of the first.
    Dup2(i32, i32),
    /// Close this descriptor.
    Close(i32),
    /// Become the candidate of this index.
    Exec(usize),
    /// Exit at once with this status.
    Exit(i32),
}

/// Where the child stands, with the write ends of its two pipes.
#[derive(Copy, Clone, PartialEq, Eq, Structural, Debug)]
pub enum Setup {
    /// About to leave the parent's process group.
    Group { out: i32, err: i32 },
    /// About to move the first pipe clear of the standard descriptors.
    LiftOut { out: i32, err: i32 },
    /// About to move the second one.
    LiftErr { out: i32, err: i32 },
    /// About to open the empty input.
    Null { out: i32, err: i32 },
    /// About to make it standard input.
    Stdin { null: i32, out: i32, err: i32 },
    /// About to close the descriptor it came on.
    CloseNull { null: i32, out: i32, err: i32 },
    /// About to make the first pipe standard output.
    Stdout { out: i32, err: i32 },
    /// About to make the second pipe standard error.
    Stderr { err: i32 },
    /// About to become a candidate.
    Exec { index: usize },
    /// Out of candidates, or unable to get that far.
    Exit,
}

/// With both pipes where they are to stay, if they could be got there.
pub open spec fn lifted(out: i32, err: i32) -> Setup {
    if out < 0 || err < 0 {
        Setup::Exit
    } else {
        Setup::Null { out, err }
    }
}

/// With the first pipe where it is to stay. The second one moves unless it is clear already.
pub open spec fn lift_err(out: i32, err: i32) -> Setup {
    if err > 2 {
        lifted(out, err)
    } else {
        Setup::LiftErr { out, err }
    }
}

/// The first pipe moves unless it is clear already.
pub open spec fn lift_out(out: i32, err: i32) -> Setup {
    if out > 2 {
        lift_err(out, err)
    } else {
        Setup::LiftOut { out, err }
    }
}

impl Setup {
    /// What the child calls next, with this many candidates.
    pub open spec fn call_of(self, tries: usize) -> ChildCall {
        match self {
            Setup::Group { .. } => ChildCall::SetGroup,
            Setup::LiftOut { out, .. } => ChildCall::Lift(out),
            Setup::LiftErr { err, .. } => ChildCall::Lift(err),
            Setup::Null { .. } => ChildCall::OpenNull,
            Setup::Stdin { null, .. } => ChildCall::Dup2(null, 0),
            Setup::CloseNull { null, .. } => ChildCall::Close(null),
            Setup::Stdout { out, .. } => ChildCall::Dup2(out, 1),
            Setup::Stderr { err } => ChildCall::Dup2(err, 2),
            Setup::Exec { index } => if index < tries {
                ChildCall::Exec(index)
            } else {
                ChildCall::Exit(NOT_RUN)
            },
            Setup::Exit => ChildCall::Exit(NOT_RUN),
        }
    }

    /// Where the child stands once that call has returned. A failure on the way ends it, except
    /// that of leaving the process group and that of closing.
    pub open spec fn after(self, returned: i32, tries: usize) -> Setup {
        match self {
            Setup::Group { out, err } => lift_out(out, err),
            Setup::LiftOut { err, .. } => lift_err(returned, err),
            Setup::LiftErr { out, .. } => lifted(out, returned),
            Setup::Null { out, err } => if returned < 0 {
                Setup::Exit
            } else {
                Setup::Stdin { null: returned, out, err }
            },
            Setup::Stdin { null, out, err } => if returned < 0 {
                Setup::Exit
            } else {
                Setup::CloseNull { null, out, err }
            },
            Setup::CloseNull { out, err, .. } => Setup::Stdout { out, err },
            Setup::Stdout { err, .. } => if returned < 0 {
                Setup::Exit
            } else {
                Setup::Stderr { err }
            },
            Setup::Stderr { .. } => if returned < 0 {
                Setup::Exit
            } else {
                Setup::Exec { index: 0 }
            },
            Setup::Exec { index } => if index < tries {
                Setup::Exec { index: (index + 1) as usize }
            } else {
                Setup::Exit
            },
            Setup::Exit => Setup::Exit,
        }
    }

    /// Begin, with the write ends of the two pipes.
    pub fn new(out: i32, err: i32) -> (r: Setup)
        ensures
            r == (Setup::Group { out, err }),
    {
        Setup::Group { out, err }
    }

    /// What the child calls next, with this many candidates.
    pub fn call(&self, tries: usize) -> (r: ChildCall)
        ensures
            r == self.call_of(tries),
    {
        match *self {
            Setup::Group { .. } => ChildCall::SetGroup,
            Setup::LiftOut { out, .. } => ChildCall::Lift(out),
            Setup::LiftErr { err, .. } => ChildCall::Lift(err),
            Setup::Null { .. } => ChildCall::OpenNull,
            Setup::Stdin { null, .. } => ChildCall::Dup2(null, 0),
            Setup::CloseNull { null, .. } => ChildCall::Close(null),
            Setup::Stdout { out, .. } => ChildCall::Dup2(out, 1),
            Setup::Stderr { err } => ChildCall::Dup2(err, 2),
            Setup::Exec { index } => if index < tries {
                ChildCall::Exec(index)
            } else {
                ChildCall::Exit(NOT_RUN)
            },
            Setup::Exit => ChildCall::Exit(NOT_RUN),
        }
    }

    /// Take what that call returned.
    pub fn step(&mut self, returned: i32, tries: usize)
        ensures
            *final(self) == old(self).after(returned, tries),
    {
        *self = match *self {
            Setup::Group { out, err } => above_stdio(out, err),
            Setup::LiftOut { err, .. } => then_err(returned, err),
            Setup::LiftErr { out, .. } => then_null(out, returned),
            Setup::Null { out, err } => if returned < 0 {
                Setup::Exit
            } else {
                Setup::Stdin { null: returned, out, err }
            },
            Setup::Stdin { null, out, err } => if returned < 0 {
                Setup::Exit
            } else {
                Setup::CloseNull { null, out, err }
            },
            Setup::CloseNull { out, err, .. } => Setup::Stdout { out, err },
            Setup::Stdout { err, .. } => if returned < 0 {
                Setup::Exit
            } else {
                Setup::Stderr { err }
            },
            Setup::Stderr { .. } => if returned < 0 {
                Setup::Exit
            } else {
                Setup::Exec { index: 0 }
            },
            Setup::Exec { index } => if index < tries {
                Setup::Exec { index: index + 1 }
            } else {
                Setup::Exit
            },
            Setup::Exit => Setup::Exit,
        };
    }
}

/// Move the pipe ends clear of 0, 1 and 2 before anything is copied onto those.
///
/// Otherwise the shuffle eats itself, in two ways that need only the parent to have closed its own
/// stdout: an end that already is 1 is copied onto itself and then closed, and two ends that come
/// back crossed overwrite one another.
fn above_stdio(out: i32, err: i32) -> (r: Setup)
    ensures
        r == lift_out(out, err),
{
    if out > 2 {
        then_err(out, err)
    } else {
        Setup::LiftOut { out, err }
    }
}

fn then_err(out: i32, err: i32) -> (r: Setup)
    ensures
        r == lift_err(out, err),
{
    if err > 2 {
        then_null(out, err)
    } else {
        Setup::LiftErr { out, err }
    }
}

fn then_null(out: i32, err: i32) -> (r: Setup)
    ensures
        r == lifted(out, err),
{
    if out < 0 || err < 0 {
        Setup::Exit
    } else {
        Setup::Null { out, err }
    }
}

// ---------------------------------------------------------------------------------------------
// What the descriptors are once the program runs.
// ---------------------------------------------------------------------------------------------

/// What an open descriptor refers to.
pub enum Target {
    /// The empty input.
    Null,
    /// Anything else, by a number of its own.
    Other(int),
}

/// What the descriptors refer to after a call that returned `returned`.
pub open spec fn descriptors_after(
    table: Map<i32, Target>,
    call: ChildCall,
    returned: i32,
) -> Map<i32, Target> {
    match call {
        ChildCall::Lift(fd) => table.insert(returned, table[fd]),
        ChildCall::OpenNull => table.insert(returned, Target::Null),
        ChildCall::Dup2(from, to) => table.insert(to, table[from]),
        ChildCall::Close(fd) => table.remove(fd),
        _ => table,
    }
}

/// Whether a successful call may return `returned`: copying from 3 up and opening give a
/// descriptor that was free.
pub open spec fn may_return(table: Map<i32, Target>, call: ChildCall, returned: i32) -> bool {
    match call {
        ChildCall::Lift(_) => returned >= 3 && !table.dom().contains(returned),
        ChildCall::OpenNull => returned >= 0 && !table.dom().contains(returned),
        ChildCall::Dup2(_, to) => returned == to,
        _ => true,
    }
}

/// The child and its descriptors.
#[verifier::ext_equal]
pub struct Progress {
    pub at: Setup,
    pub table: Map<i32, Target>,
}

/// The child and its descriptors after one more call.
pub open spec fn proceed(p: Progress, returned: i32, tries: usize) -> Progress {
    Progress {
        at: p.at.after(returned, tries),
        table: descriptors_after(p.table, p.at.call_of(tries), returned),
    }
}

/// Whether the child is on its way to the descriptors it should end up with: what is still to be
/// copied is where the state says it is, and what has been copied is in place.
pub open spec fn on_the_way(p: Progress, out: Target, err: Target) -> bool {
    let t = p.table;
    match p.at {
        Setup::Group { out: o, err: e } => {
            &&& t.dom().contains(0)
            &&& t.dom().contains(o) && t.dom().contains(e)
            &&& t[o] == out && t[e] == err
        },
        Setup::LiftOut { out: o, err: e } => {
            &&& t.dom().contains(0)
            &&& t.dom().contains(o) && t.dom().contains(e)
            &&& t[o] == out && t[e] == err
        },
        Setup::LiftErr { out: o, err: e } => {
            &&& t.dom().contains(0)
            &&& o > 2 && t.dom().contains(o) && t.dom().contains(e)
            &&& t[o] == out && t[e] == err
        },
        Setup::Null { out: o, err: e } => {
            &&& t.dom().contains(0)
            &&& o > 2 && e > 2 && t.dom().contains(o) && t.dom().contains(e)
            &&& t[o] == out && t[e] == err
        },
        Setup::Stdin { null, out: o, err: e } => {
            &&& null > 0 && null != o && null != e
            &&& o > 2 && e > 2
            &&& t[null] == Target::Null && t[o] == out && t[e] == err
        },
        Setup::CloseNull { null, out: o, err: e } => {
            &&& null > 0 && null != o && null != e
            &&& o > 2 && e > 2
            &&& t.dom().contains(0) && t[0] == Target::Null
            &&& t[o] == out && t[e] == err
        },
        Setup::Stdout { out: o, err: e } => {
            &&& o > 2 && e > 2
            &&& t.dom().contains(0) && t[0] == Target::Null
            &&& t[o] == out && t[e] == err
        },
        Setup::Stderr { err: e } => {
            &&& e > 2
            &&& t.dom().contains(0) && t[0] == Target::Null
            &&& t.dom().contains(1) && t[1] == out
            &&& t[e] == err
        },
        Setup::Exec { .. } => set_up(t, out, err),
        Setup::Exit => true,
    }
}

/// Whether standard input is empty and standard output and error are the two pipes.
pub open spec fn set_up(t: Map<i32, Target>, out: Target, err: Target) -> bool {
    &&& t.dom().contains(0) && t[0] == Target::Null
    &&& t.dom().contains(1) && t[1] == out
    &&& t.dom().contains(2) && t[2] == err
}

/// Every candidate is run with an empty standard input and with standard output and error on the
/// two pipes, wherever the pipes' ends were to begin with, crossed or on the standard descriptors
/// themselves: it starts on the way there and every successful call stays on the way. Descriptor 0
/// has to be open to begin with, or the empty input may land on it and be closed again.
pub proof fn the_program_gets_its_pipes(
    p: Progress,
    returned: i32,
    tries: usize,
    out: Target,
    err: Target,
)
    requires
        may_return(p.table, p.at.call_of(tries), returned),
    ensures
        on_the_way(p, out, err) ==> on_the_way(proceed(p, returned, tries), out, err),
        p.at is Exec && on_the_way(p, out, err) ==> set_up(p.table, out, err),
{
}

/// A call that fails where it matters leads to an exit, not to a program with the wrong output.
pub proof fn a_failure_exits(at: Setup, returned: i32, tries: usize)
    requires
        returned < 0,
        match at.call_of(tries) {
            ChildCall::OpenNull => true,
            ChildCall::Dup2(_, _) => true,
            _ => false,
        },
    ensures
        at.after(returned, tries).call_of(tries) == ChildCall::Exit(NOT_RUN),
{
}

/// A pipe that cannot be moved leads to an exit.
pub proof fn an_unmoved_pipe_exits(out: i32, err: i32, tries: usize)
    requires
        out < 0 || err < 0,
    ensures
        lifted(out, err).call_of(tries) == ChildCall::Exit(NOT_RUN),
{
}

/// Every candidate is tried in order, and only when the last one has failed does the child exit.
pub proof fn candidates_are_tried_in_order(index: usize, returned: i32, tries: usize)
    requires
        index < tries,
    ensures
        (Setup::Exec { index }).call_of(tries) == ChildCall::Exec(index),
        (Setup::Exec { index }).after(returned, tries) == (Setup::Exec {
            index: (index + 1) as usize,
        }),
        (Setup::Exec { index: tries }).call_of(tries) == ChildCall::Exit(NOT_RUN),
{
}

/// Where every call succeeds the child gets to its first candidate, and on the way there it makes
/// exactly the calls it needs: its own group, a move for each pipe that is not clear of the
/// standard descriptors, the empty input onto 0, and the pipes onto 1 and 2.
pub proof fn the_child_gets_there(
    out: i32,
    err: i32,
    group: i32,
    new_out: i32,
    new_err: i32,
    null: i32,
    dup0: i32,
    close: i32,
    dup1: i32,
    dup2: i32,
    tries: usize,
)
    requires
        new_out > 2,
        new_err > 2,
        null >= 0,
        dup0 >= 0,
        dup1 >= 0,
        dup2 >= 0,
    ensures
        ({
            let s0 = Setup::Group { out, err };
            let s1 = s0.after(group, tries);
            let s2 = if out > 2 {
                s1
            } else {
                s1.after(new_out, tries)
            };
            let s3 = if err > 2 {
                s2
            } else {
                s2.after(new_err, tries)
            };
            let s4 = s3.after(null, tries);
            let s5 = s4.after(dup0, tries);
            let s6 = s5.after(close, tries);
            let s7 = s6.after(dup1, tries);
            let s8 = s7.after(dup2, tries);
            let first = if out > 2 {
                out
            } else {
                new_out
            };
            let second = if err > 2 {
                err
            } else {
                new_err
            };
            &&& s0.call_of(tries) == ChildCall::SetGroup
            &&& out <= 2 ==> s1.call_of(tries) == ChildCall::Lift(out)
            &&& err <= 2 ==> s2.call_of(tries) == ChildCall::Lift(err)
            &&& s3.call_of(tries) == ChildCall::OpenNull
            &&& s4.call_of(tries) == ChildCall::Dup2(null, 0)
            &&& s5.call_of(tries) == ChildCall::Close(null)
            &&& s6.call_of(tries) == ChildCall::Dup2(first, 1)
            &&& s7.call_of(tries) == ChildCall::Dup2(second, 2)
            &&& s8 == (Setup::Exec { index: 0 })
        }),
{
}

/// A move that fails ends in an exit with the status of a program that could not be run, and so
/// does running out of candidates.
pub proof fn what_cannot_run_exits(out: i32, err: i32, moved: i32, tries: usize)
    requires
        moved < 0,
    ensures
        (Setup::LiftErr { out, err }).after(moved, tries).call_of(tries) == ChildCall::Exit(127),
        err > 2 ==> (Setup::LiftOut { out, err }).after(moved, tries).call_of(tries)
            == ChildCall::Exit(127),
        err <= 2 ==> (Setup::LiftOut { out, err }).after(moved, tries).after(out, tries).call_of(
            tries,
        ) == ChildCall::Exit(127),
        (Setup::Exec { index: tries }).call_of(tries) == ChildCall::Exit(127),
        Setup::Exit.call_of(tries) == ChildCall::Exit(127),
{
}

} // verus!
