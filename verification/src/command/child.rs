//! A running program and its two pipes.
//!
//! Both pipes are read at once, with `poll`: draining stdout to end of file and then stderr
//! deadlocks whenever the program fills the stderr buffer first.

use vstd::prelude::*;
use vstd::slice::slice_subrange;

use crate::bytes;
use crate::command::setup::Setup;
use crate::command::Output;
use crate::sys;
use crate::time::Duration;
use crate::Errno;

verus! {

/// A pipe from the program.
pub struct Pipe {
    read: i32,
    write: i32,
    /// Set once the far end is gone and this descriptor has nothing more to say.
    done: bool,
    got: Vec<u8>,
}

/// A pipe from the program, as far as it makes a difference.
#[verifier::ext_equal]
pub struct PipeView {
    /// The end that is read here.
    pub read: i32,
    /// The end the program writes to, or -1 once it is closed here.
    pub write: i32,
    /// Whether nothing more will come.
    pub done: bool,
    /// What has come so far.
    pub got: Seq<u8>,
}

impl View for Pipe {
    type V = PipeView;

    closed spec fn view(&self) -> PipeView {
        PipeView { read: self.read, write: self.write, done: self.done, got: self.got@ }
    }
}

impl PipeView {
    /// The pipe after one `read` of what is there now.
    pub open spec fn after_read(self, n: int, errno: Errno, chunk: Seq<u8>) -> PipeView {
        if n > 0 {
            PipeView { got: self.got + chunk.take(n), ..self }
        } else if n == 0 {
            PipeView { done: true, ..self }
        } else if errno.0 == sys::EINTR || errno.0 == sys::EAGAIN || errno.0 == sys::EWOULDBLOCK {
            self
        } else {
            PipeView { done: true, ..self }
        }
    }
}

/// Whether to read again: after bytes, which may not be all that is there, and after a signal.
pub open spec fn reads_on(n: int, errno: Errno) -> bool {
    n > 0 || (n < 0 && errno.0 == sys::EINTR)
}

impl Pipe {
    /// The pipe that was made, if it was.
    pub fn new(made: i32, read: i32, write: i32) -> (r: Option<Pipe>)
        ensures
            match r {
                Some(p) => made == 0 && p@ == (PipeView {
                    read,
                    write,
                    done: false,
                    got: Seq::empty(),
                }),
                None => made != 0,
            },
    {
        if made != 0 {
            return None;
        }
        let p = Pipe { read, write, done: false, got: Vec::new() };
        assert(p@.got =~= Seq::empty());
        Some(p)
    }

    /// The end that is read here.
    pub fn read_end(&self) -> (r: i32)
        ensures
            r == self@.read,
    {
        self.read
    }

    /// The end the program writes to.
    pub fn write_end(&self) -> (r: i32)
        ensures
            r == self@.write,
    {
        self.write
    }

    /// Give up the write end. What is returned is to be closed, unless that has been done.
    pub fn close_write(&mut self) -> (r: Option<i32>)
        ensures
            r == (if old(self)@.write >= 0 {
                Some(old(self)@.write)
            } else {
                None::<i32>
            }),
            final(self)@ == (if old(self)@.write >= 0 {
                PipeView { write: (-1) as i32, ..old(self)@ }
            } else {
                old(self)@
            }),
    {
        if self.write >= 0 {
            let fd: i32 = self.write;
            self.write = -1;
            return Some(fd);
        }
        None
    }

    /// Take the answer of one `read` of what is there now. `true` to read again.
    pub fn take_ready(&mut self, n: isize, errno: Errno, chunk: &[u8]) -> (again: bool)
        requires
            n <= chunk@.len(),
        ensures
            final(self)@ == old(self)@.after_read(n as int, errno, chunk@),
            again == reads_on(n as int, errno),
            again <==> n > 0 || (n < 0 && errno.0 == sys::EINTR),
            final(self)@.got == old(self)@.got + chunk@.take(
                if n > 0 {
                    n as int
                } else {
                    0
                },
            ),
            final(self)@.done <==> old(self)@.done || n == 0 || (n < 0 && errno.0 != sys::EINTR
                && errno.0 != sys::EAGAIN && errno.0 != sys::EWOULDBLOCK),
            final(self)@.read == old(self)@.read && final(self)@.write == old(self)@.write,
    {
        if n > 0 {
            let arrived = slice_subrange(chunk, 0, n as usize);
            assert(arrived@ =~= chunk@.take(n as int));
            bytes::extend(&mut self.got, arrived);
            return true;
        }
        if n == 0 {
            self.done = true;
            return false;
        }
        if errno.interrupted() {
            return true;
        }
        // Nothing left for now, which is not end of file.
        if !errno.would_block() {
            self.done = true;
        }
        false
    }
}

/// A running child and its two pipes.
///
/// The parts a caller needs to impose its own policy: read what is there, ask whether it has
/// exited, kill it, wait for it. A deadline is one such policy and is not one of these, because
/// what counts as too long is the caller's question.
pub struct Child {
    pid: i32,
    out: Pipe,
    err: Pipe,
    /// Kept once it has been waited on, because `waitpid` answers only once.
    status: Option<i32>,
}

/// A running child, as far as it makes a difference.
#[verifier::ext_equal]
pub struct ChildView {
    pub pid: i32,
    pub out: PipeView,
    pub err: PipeView,
    pub status: Option<i32>,
}

impl View for Child {
    type V = ChildView;

    closed spec fn view(&self) -> ChildView {
        ChildView { pid: self.pid, out: self.out@, err: self.err@, status: self.status }
    }
}

/// What a `fork` came to.
pub enum Forked {
    /// There is no new process.
    Failed,
    /// This is the new process.
    Child(Setup),
    /// This is the old process. The write ends are to be closed here, or the reads never see the
    /// end of file.
    Parent(Child, Option<i32>, Option<i32>),
}

/// What a `fork` with both pipes open came to.
pub fn forked(pid: i32, out: Pipe, err: Pipe) -> (r: Forked)
    ensures
        match r {
            Forked::Failed => pid < 0,
            Forked::Child(setup) => pid == 0 && setup == (Setup::Group {
                out: out@.write,
                err: err@.write,
            }),
            Forked::Parent(child, close_out, close_err) => {
                &&& pid > 0
                &&& child@.pid == pid
                &&& child@.status is None
                &&& child@.out == (PipeView { write: child@.out.write, ..out@ })
                &&& child@.err == (PipeView { write: child@.err.write, ..err@ })
                &&& child@.out.write < 0 && child@.err.write < 0
                &&& close_out == (if out@.write >= 0 {
                    Some(out@.write)
                } else {
                    None::<i32>
                })
                &&& close_err == (if err@.write >= 0 {
                    Some(err@.write)
                } else {
                    None::<i32>
                })
            },
        },
{
    if pid < 0 {
        return Forked::Failed;
    }
    if pid == 0 {
        return Forked::Child(Setup::new(out.write_end(), err.write_end()));
    }
    let mut out = out;
    let mut err = err;
    let close_out = out.close_write();
    let close_err = err.close_write();
    Forked::Parent(Child { pid, out, err, status: None }, close_out, close_err)
}

/// What to `poll` for.
#[derive(Copy, Clone, PartialEq, Eq, Structural, Debug)]
pub struct Watch {
    /// The stdout pipe, unless it has reached its end.
    pub out: Option<i32>,
    /// The stderr pipe, unless it has reached its end.
    pub err: Option<i32>,
    /// How many milliseconds to wait, or -1 for as long as it takes.
    pub timeout: i32,
}

/// What a poll's wait is in milliseconds: rounded up, never down, so that the timeout has passed
/// when the wait is over, as far as so many milliseconds can be told.
pub open spec fn poll_timeout(timeout: Option<int>) -> int {
    match timeout {
        None => -1,
        Some(nanos) => {
            let ms = if nanos % 1_000_000 == 0 {
                nanos / 1_000_000
            } else {
                nanos / 1_000_000 + 1
            };
            if ms > i32::MAX {
                i32::MAX as int
            } else {
                ms
            }
        },
    }
}

/// Which pipes a poll found something on.
#[derive(Copy, Clone, PartialEq, Eq, Structural, Debug)]
pub struct Ready {
    pub out: bool,
    pub err: bool,
}

/// What waiting for the child came to.
#[derive(Copy, Clone, PartialEq, Eq, Structural, Debug)]
pub enum WaitStep {
    /// A signal arrived first; wait again.
    Again,
    /// It is still running.
    Running,
    /// It exited with this code.
    Exited(i32),
}

impl ChildView {
    /// The child after a poll. One that failed, other than by a signal, ends both pipes.
    pub open spec fn after_poll(self, ready: int, errno: Errno) -> ChildView {
        if ready < 0 && errno.0 != sys::EINTR {
            ChildView {
                out: PipeView { done: true, ..self.out },
                err: PipeView { done: true, ..self.err },
                ..self
            }
        } else {
            self
        }
    }

    /// What waiting comes to, from what `waitpid` returned.
    pub open spec fn waited(self, r: int, errno: Errno, status: i32) -> WaitStep {
        match self.status {
            Some(code) => WaitStep::Exited(code),
            None => if r == 0 {
                WaitStep::Running
            } else if r < 0 && errno.0 == sys::EINTR {
                WaitStep::Again
            } else if r < 0 {
                WaitStep::Exited((-1) as i32)
            } else {
                WaitStep::Exited(exit_code_of(status))
            },
        }
    }

    /// The child once that is known.
    pub open spec fn after_wait(self, r: int, errno: Errno, status: i32) -> ChildView {
        match self.waited(r, errno, status) {
            WaitStep::Exited(code) => ChildView { status: Some(code), ..self },
            _ => self,
        }
    }
}

/// A signal to send.
#[derive(Copy, Clone, PartialEq, Eq, Structural, Debug)]
pub struct Signal {
    /// The process, or the process group when negative.
    pub pid: i32,
    /// The signal.
    pub signal: i32,
}

impl Child {
    /// Processes are numbered from 1.
    #[verifier::type_invariant]
    spec fn well_formed(self) -> bool {
        self.pid > 0
    }

    /// Whether both pipes have reached end of file.
    ///
    /// Not the same as having exited. A program can close its output and keep running, which is
    /// why a caller with a deadline still has to watch the clock after this turns true.
    pub fn drained(&self) -> (r: bool)
        ensures
            r == (self@.out.done && self@.err.done),
    {
        self.out.done && self.err.done
    }

    /// What to wait for until either pipe has something or `timeout` passes. Nothing, once both
    /// pipes have reached their end.
    ///
    /// Only the pipes still open: a descriptor at end of file is ready every time it is asked
    /// about, so leaving a finished one in makes the wait return instantly and the caller spin
    /// until the other one closes.
    pub fn read_ready(&self, timeout: Option<Duration>) -> (r: Option<Watch>)
        ensures
            match r {
                None => self@.out.done && self@.err.done,
                Some(w) => {
                    &&& !(self@.out.done && self@.err.done)
                    &&& w.out == (if self@.out.done {
                        None::<i32>
                    } else {
                        Some(self@.out.read)
                    })
                    &&& w.err == (if self@.err.done {
                        None::<i32>
                    } else {
                        Some(self@.err.read)
                    })
                    &&& w.timeout == poll_timeout(
                        match timeout {
                            None => None,
                            Some(t) => Some(t@),
                        },
                    )
                },
            },
    {
        if self.out.done && self.err.done {
            return None;
        }
        let out = if self.out.done {
            None
        } else {
            Some(self.out.read)
        };
        let err = if self.err.done {
            None
        } else {
            Some(self.err.read)
        };
        let ms: i32 = match timeout {
            None => -1,
            Some(t) => {
                // Rounded down, a short wait would be none at all, and the caller would spin.
                let whole: u128 = t.as_millis();
                let some_left = t.subsec_nanos() % 1_000_000 != 0;
                if whole >= i32::MAX as u128 {
                    i32::MAX
                } else if some_left {
                    whole as i32 + 1
                } else {
                    whole as i32
                }
            },
        };
        Some(Watch { out, err, timeout: ms })
    }

    /// Take what `poll` returned, and whether it found something on each pipe it watched. What is
    /// returned is to be read from until there is no more for now.
    pub fn polled(&mut self, ready: i32, errno: Errno, out: bool, err: bool) -> (r: Ready)
        ensures
            r == (Ready {
                out: ready > 0 && out && !old(self)@.out.done,
                err: ready > 0 && err && !old(self)@.err.done,
            }),
            final(self)@ == old(self)@.after_poll(ready as int, errno),
            final(self)@.out.done <==> old(self)@.out.done || (ready < 0 && errno.0 != sys::EINTR),
            final(self)@.err.done <==> old(self)@.err.done || (ready < 0 && errno.0 != sys::EINTR),
            final(self)@.out.got == old(self)@.out.got && final(self)@.err.got == old(
                self,
            )@.err.got,
            final(self)@.status == old(self)@.status,
    {
        proof {
            use_type_invariant(&*self);
        }
        if ready == 0 {
            return Ready { out: false, err: false };
        }
        if ready < 0 {
            if errno.interrupted() {
                return Ready { out: false, err: false };
            }
            // The pipes are finished rather than the caller left to spin: nothing becomes
            // readable after a `poll` that failed for a reason other than a signal.
            self.out.done = true;
            self.err.done = true;
            return Ready { out: false, err: false };
        }
        Ready { out: out && !self.out.done, err: err && !self.err.done }
    }

    /// Take the answer of one `read` of the stdout pipe. `true` to read again.
    pub fn take_out(&mut self, n: isize, errno: Errno, chunk: &[u8]) -> (again: bool)
        requires
            n <= chunk@.len(),
        ensures
            final(self)@ == (ChildView {
                out: old(self)@.out.after_read(n as int, errno, chunk@),
                ..old(self)@
            }),
            again == reads_on(n as int, errno),
            again <==> n > 0 || (n < 0 && errno.0 == sys::EINTR),
            final(self)@.out.got == old(self)@.out.got + chunk@.take(
                if n > 0 {
                    n as int
                } else {
                    0
                },
            ),
            final(self)@.out.done <==> old(self)@.out.done || n == 0 || (n < 0 && errno.0 != sys::EINTR
                && errno.0 != sys::EAGAIN && errno.0 != sys::EWOULDBLOCK),
    {
        proof {
            use_type_invariant(&*self);
        }
        let mut pipe = Pipe { read: -1, write: -1, done: false, got: Vec::new() };
        std::mem::swap(&mut pipe, &mut self.out);
        let again = pipe.take_ready(n, errno, chunk);
        self.out = pipe;
        again
    }

    /// Take the answer of one `read` of the stderr pipe. `true` to read again.
    pub fn take_err(&mut self, n: isize, errno: Errno, chunk: &[u8]) -> (again: bool)
        requires
            n <= chunk@.len(),
        ensures
            final(self)@ == (ChildView {
                err: old(self)@.err.after_read(n as int, errno, chunk@),
                ..old(self)@
            }),
            again == reads_on(n as int, errno),
            again <==> n > 0 || (n < 0 && errno.0 == sys::EINTR),
            final(self)@.err.got == old(self)@.err.got + chunk@.take(
                if n > 0 {
                    n as int
                } else {
                    0
                },
            ),
            final(self)@.err.done <==> old(self)@.err.done || n == 0 || (n < 0 && errno.0 != sys::EINTR
                && errno.0 != sys::EAGAIN && errno.0 != sys::EWOULDBLOCK),
    {
        proof {
            use_type_invariant(&*self);
        }
        let mut pipe = Pipe { read: -1, write: -1, done: false, got: Vec::new() };
        std::mem::swap(&mut pipe, &mut self.err);
        let again = pipe.take_ready(n, errno, chunk);
        self.err = pipe;
        again
    }

    /// The process to wait for, unless its exit code is known already.
    pub fn waits_for(&self) -> (r: Result<i32, i32>)
        ensures
            match self@.status {
                Some(code) => r matches Ok(c) && c == code,
                None => r matches Err(pid) && pid == self@.pid,
            },
    {
        match self.status {
            Some(code) => Ok(code),
            None => Err(self.pid),
        }
    }

    /// Take what `waitpid` returned, the `errno` it left and the status it wrote.
    ///
    /// The exit code is kept because it can only be asked for once: a child that has been waited
    /// for is gone from the process table, and asking again fails instead of repeating the answer.
    /// A failure means that there is nothing to wait for, and -1 is kept so the caller stops
    /// asking.
    fn collect(&mut self, r: i32, errno: Errno, status: i32) -> (step: WaitStep)
        ensures
            step == old(self)@.waited(r as int, errno, status),
            final(self)@ == old(self)@.after_wait(r as int, errno, status),
    {
        proof {
            use_type_invariant(&*self);
        }
        match self.status {
            Some(code) => {
                return WaitStep::Exited(code);
            },
            None => {},
        }
        if r == 0 {
            return WaitStep::Running;
        }
        if r < 0 && errno.interrupted() {
            return WaitStep::Again;
        }
        let code: i32 = if r < 0 {
            -1
        } else {
            exit_code(status)
        };
        self.status = Some(code);
        WaitStep::Exited(code)
    }

    /// Take what `waitpid` answered when it was asked not to wait.
    pub fn try_wait(&mut self, r: i32, errno: Errno, status: i32) -> (step: WaitStep)
        ensures
            step is Running <==> old(self)@.status is None && r == 0,
            step is Again <==> old(self)@.status is None && r < 0 && errno.0 == sys::EINTR,
            step matches WaitStep::Exited(code) ==> final(self)@.status == Some(code),
            old(self)@.status matches Some(code) ==> step == WaitStep::Exited(code),
            old(self)@.status is None && r > 0 ==> step == WaitStep::Exited(exit_code_of(status)),
            old(self)@.status is None && r < 0 && errno.0 != sys::EINTR ==> step
                == WaitStep::Exited((-1) as i32),
            !(step is Exited) ==> final(self)@.status is None,
            step == old(self)@.waited(r as int, errno, status),
            final(self)@ == old(self)@.after_wait(r as int, errno, status),
    {
        self.collect(r, errno, status)
    }

    /// Take what `waitpid` answered when it was asked to wait. The exit code, or nothing when it
    /// has to be asked again.
    pub fn wait(&mut self, r: i32, errno: Errno, status: i32) -> (code: Option<i32>)
        ensures
            code is None <==> old(self)@.status is None && r < 0 && errno.0 == sys::EINTR,
            old(self)@.status matches Some(known) ==> code == Some(known),
            old(self)@.status is None && r > 0 ==> code == Some(exit_code_of(status)),
            old(self)@.status is None && r < 0 && errno.0 != sys::EINTR ==> code == Some(
                (-1) as i32,
            ),
            r != 0 && code is Some ==> final(self)@.status == code,
            code == (match old(self)@.waited(r as int, errno, status) {
                WaitStep::Again => None,
                WaitStep::Running => Some((-1) as i32),
                WaitStep::Exited(c) => Some(c),
            }),
            final(self)@ == old(self)@.after_wait(r as int, errno, status),
    {
        match self.collect(r, errno, status) {
            WaitStep::Again => None,
            WaitStep::Running => Some(-1),
            WaitStep::Exited(c) => Some(c),
        }
    }

    /// Ask the child and everything it started to stop.
    ///
    /// The half to try first: a program that receives this removes its lock file and its
    /// half-written output, and one that is killed cannot.
    pub fn terminate(&self) -> (r: [Signal; 2])
        ensures
            r@ == self@.signals(sys::SIGTERM),
            r@[0] == (Signal { pid: (-self@.pid) as i32, signal: sys::SIGTERM }),
            r@[1] == (Signal { pid: self@.pid, signal: sys::SIGTERM }),
    {
        self.signal(sys::end_signals().term)
    }

    /// Kill the child and everything it started, which cannot be caught.
    pub fn kill(&self) -> (r: [Signal; 2])
        ensures
            r@ == self@.signals(sys::SIGKILL),
            r@[0] == (Signal { pid: (-self@.pid) as i32, signal: sys::SIGKILL }),
            r@[1] == (Signal { pid: self@.pid, signal: sys::SIGKILL }),
    {
        self.signal(sys::end_signals().kill)
    }

    /// Signal the child's process group, and the child itself in case it has none.
    ///
    /// Signalling the child alone leaves its own children running with nobody waiting on them.
    fn signal(&self, signal: i32) -> (r: [Signal; 2])
        ensures
            r@ == self@.signals(signal),
    {
        proof {
            use_type_invariant(self);
        }
        let r = [Signal { pid: -self.pid, signal }, Signal { pid: self.pid, signal }];
        assert(r@ =~= self@.signals(signal));
        r
    }

    /// What has arrived on stdout so far, for a caller that needs it before the child is done.
    pub fn stdout_so_far(&self) -> (r: &[u8])
        ensures
            r@ == self@.out.got,
    {
        self.out.got.as_slice()
    }

    /// What it said, with the code the caller got from waiting.
    pub fn into_output(self, code: i32) -> (r: Output)
        ensures
            r.code == code,
            r.stdout@ == self@.out.got,
            r.stderr@ == self@.err.got,
    {
        Output { code, stdout: self.out.got, stderr: self.err.got }
    }
}

impl ChildView {
    /// The signals that reach a child and everything it started.
    pub open spec fn signals(self, signal: i32) -> Seq<Signal> {
        seq![Signal { pid: (-self.pid) as i32, signal }, Signal { pid: self.pid, signal }]
    }
}

/// The exit code in a wait status: the low byte of the exit status for a program that exited, and
/// 128 and the signal's number for one that was killed.
pub open spec fn exit_code_of(status: i32) -> i32 {
    if status & 0x7f == 0 {
        (status >> 8) & 0xff
    } else {
        (128 + (status & 0x7f)) as i32
    }
}

/// The exit code in a wait status.
pub fn exit_code(status: i32) -> (r: i32)
    ensures
        r == exit_code_of(status),
        0 <= r <= 255,
{
    assert(0 <= status & 0x7f <= 127) by (bit_vector);
    assert(0 <= (status >> 8) & 0xff <= 255) by (bit_vector);
    if status & 0x7f == 0 {
        (status >> 8) & 0xff
    } else {
        128 + (status & 0x7f)
    }
}

/// The seven low bits of a status are the signal that ended the program, or zero where it exited,
/// and then its second byte is the code.
pub proof fn a_status_is_taken_apart(status: i32)
    requires
        0 <= status,
    ensures
        status % 128 == 0 ==> exit_code_of(status) == (status / 256) % 256,
        status % 128 != 0 ==> exit_code_of(status) == 128 + status % 128,
{
    assert(status & 0x7f == status % 128 && (status >> 8) & 0xff == (status / 256) % 256)
        by (bit_vector)
        requires
            0 <= status,
    ;
}

/// A program that exits with a code is reported with that code.
pub proof fn an_exit_is_reported(code: i32)
    requires
        0 <= code <= 255,
    ensures
        exit_code_of(code << 8) == code,
{
    assert((code << 8) & 0x7f == 0 && ((code << 8) >> 8) & 0xff == code) by (bit_vector)
        requires
            0 <= code <= 255,
    ;
}

/// A program that a signal killed is reported as 128 and the signal, whether or not it left a core.
pub proof fn a_signal_is_reported(signal: i32)
    requires
        0 < signal < 127,
    ensures
        exit_code_of(signal) == 128 + signal,
        exit_code_of(signal | 0x80) == 128 + signal,
{
    assert(signal & 0x7f == signal && (signal | 0x80) & 0x7f == signal) by (bit_vector)
        requires
            0 < signal < 127,
    ;
}

/// The exit code that was given once is given every time, whatever the kernel says by then.
pub proof fn the_exit_code_is_kept(
    child: ChildView,
    r: int,
    errno: Errno,
    status: i32,
    later: int,
    later_errno: Errno,
    later_status: i32,
)
    requires
        child.waited(r, errno, status) is Exited,
    ensures
        child.after_wait(r, errno, status).waited(later, later_errno, later_status) == child.waited(
            r,
            errno,
            status,
        ),
        child.after_wait(r, errno, status).after_wait(later, later_errno, later_status)
            == child.after_wait(r, errno, status),
{
}

/// What has been read stays read, in the order it came, and a pipe that is finished stays so.
pub proof fn nothing_read_is_lost(pipe: PipeView, n: int, errno: Errno, chunk: Seq<u8>)
    requires
        n <= chunk.len(),
    ensures
        pipe.got.is_prefix_of(pipe.after_read(n, errno, chunk).got),
        pipe.done ==> pipe.after_read(n, errno, chunk).done,
{
}

/// What is done to a running child.
pub enum Step {
    /// Both pipes are polled.
    Poll(int, Errno),
    /// The stdout pipe is read.
    ReadOut(int, Errno, Seq<u8>),
    /// The stderr pipe is read.
    ReadErr(int, Errno, Seq<u8>),
    /// It is waited for.
    Wait(int, Errno, i32),
}

impl ChildView {
    /// The child after one step.
    pub open spec fn step(self, s: Step) -> ChildView {
        match s {
            Step::Poll(ready, errno) => self.after_poll(ready, errno),
            Step::ReadOut(n, errno, chunk) => ChildView {
                out: self.out.after_read(n, errno, chunk),
                ..self
            },
            Step::ReadErr(n, errno, chunk) => ChildView {
                err: self.err.after_read(n, errno, chunk),
                ..self
            },
            Step::Wait(r, errno, status) => self.after_wait(r, errno, status),
        }
    }
}

/// The child after any number of steps, in any order.
pub open spec fn run(c: ChildView, steps: Seq<Step>) -> ChildView
    decreases steps.len(),
{
    if steps.len() == 0 {
        c
    } else {
        run(c, steps.drop_last()).step(steps.last())
    }
}

/// Everything that was read from the stdout pipe, in order.
pub open spec fn out_bytes(steps: Seq<Step>) -> Seq<u8>
    decreases steps.len(),
{
    if steps.len() == 0 {
        Seq::empty()
    } else {
        match steps.last() {
            Step::ReadOut(n, _, chunk) => if n > 0 {
                out_bytes(steps.drop_last()) + chunk.take(n)
            } else {
                out_bytes(steps.drop_last())
            },
            _ => out_bytes(steps.drop_last()),
        }
    }
}

/// Everything that was read from the stderr pipe, in order.
pub open spec fn err_bytes(steps: Seq<Step>) -> Seq<u8>
    decreases steps.len(),
{
    if steps.len() == 0 {
        Seq::empty()
    } else {
        match steps.last() {
            Step::ReadErr(n, _, chunk) => if n > 0 {
                err_bytes(steps.drop_last()) + chunk.take(n)
            } else {
                err_bytes(steps.drop_last())
            },
            _ => err_bytes(steps.drop_last()),
        }
    }
}

/// The exit code the first answer of `waitpid` gave that was one.
pub open spec fn first_exit(steps: Seq<Step>) -> Option<i32>
    decreases steps.len(),
{
    if steps.len() == 0 {
        None
    } else {
        match first_exit(steps.drop_last()) {
            Some(code) => Some(code),
            None => match steps.last() {
                Step::Wait(r, errno, status) => if r == 0 || (r < 0 && errno.0 == sys::EINTR) {
                    None
                } else if r < 0 {
                    Some((-1) as i32)
                } else {
                    Some(exit_code_of(status))
                },
                _ => None,
            },
        }
    }
}

/// Whether no poll failed and no read failed, other than that it was interrupted or that there was
/// nothing for now.
pub open spec fn nothing_failed(steps: Seq<Step>) -> bool {
    forall|k: int|
        0 <= k < steps.len() ==> match #[trigger] steps[k] {
            Step::Poll(ready, errno) => ready >= 0 || errno.0 == sys::EINTR,
            Step::ReadOut(n, errno, _) => n >= 0 || errno.0 == sys::EINTR || errno.0 == sys::EAGAIN
                || errno.0 == sys::EWOULDBLOCK,
            Step::ReadErr(n, errno, _) => n >= 0 || errno.0 == sys::EINTR || errno.0 == sys::EAGAIN
                || errno.0 == sys::EWOULDBLOCK,
            Step::Wait(_, _, _) => true,
        }
}

/// Whether the stdout pipe was read to its end.
pub open spec fn out_ended(steps: Seq<Step>) -> bool {
    exists|k: int| 0 <= k < steps.len() && (#[trigger] steps[k] matches Step::ReadOut(n, _, _) && n == 0)
}

/// Whether the stderr pipe was read to its end.
pub open spec fn err_ended(steps: Seq<Step>) -> bool {
    exists|k: int| 0 <= k < steps.len() && (#[trigger] steps[k] matches Step::ReadErr(n, _, _) && n == 0)
}

/// However the reads of the two pipes and the waits fall, what is held of each stream is what was
/// read from it, whole and in order, and the exit code is the first that was told.
proof fn lemma_run(c: ChildView, steps: Seq<Step>)
    ensures
        run(c, steps).out.got == c.out.got + out_bytes(steps),
        run(c, steps).err.got == c.err.got + err_bytes(steps),
        run(c, steps).status == (match c.status {
            Some(code) => Some(code),
            None => first_exit(steps),
        }),
        nothing_failed(steps) && !c.out.done && run(c, steps).out.done ==> out_ended(steps),
        nothing_failed(steps) && !c.err.done && run(c, steps).err.done ==> err_ended(steps),
    decreases steps.len(),
{
    if steps.len() == 0 {
        assert(c.out.got + out_bytes(steps) =~= c.out.got);
        assert(c.err.got + err_bytes(steps) =~= c.err.got);
    } else {
        let front = steps.drop_last();
        let n = steps.len() - 1;
        lemma_run(c, front);
        assert(run(c, steps).out.got =~= c.out.got + out_bytes(steps));
        assert(run(c, steps).err.got =~= c.err.got + err_bytes(steps));
        if nothing_failed(steps) {
            assert forall|k: int| 0 <= k < front.len() implies match #[trigger] front[k] {
                Step::Poll(ready, errno) => ready >= 0 || errno.0 == sys::EINTR,
                Step::ReadOut(m, errno, _) => m >= 0 || errno.0 == sys::EINTR || errno.0 == sys::EAGAIN
                    || errno.0 == sys::EWOULDBLOCK,
                Step::ReadErr(m, errno, _) => m >= 0 || errno.0 == sys::EINTR || errno.0 == sys::EAGAIN
                    || errno.0 == sys::EWOULDBLOCK,
                Step::Wait(_, _, _) => true,
            } by {
                assert(front[k] == steps[k]);
            }
            assert(nothing_failed(front));
            assert(steps[n] == steps.last());
            if out_ended(front) {
                let k = choose|k: int|
                    0 <= k < front.len() && (#[trigger] front[k] matches Step::ReadOut(m, _, _) && m
                        == 0);
                assert(steps[k] == front[k]);
            }
            if err_ended(front) {
                let k = choose|k: int|
                    0 <= k < front.len() && (#[trigger] front[k] matches Step::ReadErr(m, _, _) && m
                        == 0);
                assert(steps[k] == front[k]);
            }
        }
    }
}

/// What a program that was run to completion left behind: over any number of polls, reads and
/// waits, in any order, each stream is held whole, everything that was read from its pipe, in
/// order, and the code is the one it exited with. Where nothing failed, both pipes were read to
/// their end.
pub proof fn the_output_is_whole(c: ChildView, steps: Seq<Step>, code: i32)
    requires
        c.out.got.len() == 0,
        c.err.got.len() == 0,
        c.status is None,
        run(c, steps).status == Some(code),
    ensures
        run(c, steps).out.got == out_bytes(steps),
        run(c, steps).err.got == err_bytes(steps),
        first_exit(steps) == Some(code),
        nothing_failed(steps) && !c.out.done && run(c, steps).out.done ==> out_ended(steps),
        nothing_failed(steps) && !c.err.done && run(c, steps).err.done ==> err_ended(steps),
{
    lemma_run(c, steps);
    assert(c.out.got + out_bytes(steps) =~= out_bytes(steps));
    assert(c.err.got + err_bytes(steps) =~= err_bytes(steps));
}

/// A timeout is never turned into a busy wait, nor into an endless one.
pub proof fn a_wait_is_a_wait(nanos: int)
    requires
        nanos > 0,
    ensures
        1 <= poll_timeout(Some(nanos)) <= i32::MAX,
{
}

/// A wait is not over before its timeout has passed, and lasts less than a millisecond longer,
/// where so many milliseconds can be told.
pub proof fn a_timeout_passes(nanos: int)
    requires
        0 <= nanos <= i32::MAX * 1_000_000,
    ensures
        nanos <= poll_timeout(Some(nanos)) * 1_000_000 < nanos + 1_000_000,
{
}

/// Without a timeout the wait is for as long as it takes, and one that is too long to be told in
/// milliseconds is as long as can be.
pub proof fn the_longest_waits(nanos: int)
    ensures
        poll_timeout(None) == -1,
        nanos > i32::MAX * 1_000_000 ==> poll_timeout(Some(nanos)) == i32::MAX,
{
}

/// A pipe whose end has been read is finished, and so is one that failed; one that was interrupted
/// or has nothing for now is not.
pub proof fn a_pipe_ends_where_it_ends(pipe: PipeView, n: int, errno: Errno, chunk: Seq<u8>)
    requires
        !pipe.done,
    ensures
        n == 0 ==> pipe.after_read(n, errno, chunk).done,
        n > 0 ==> !pipe.after_read(n, errno, chunk).done,
        n < 0 ==> (pipe.after_read(n, errno, chunk).done <==> errno.0 != sys::EINTR && errno.0
            != sys::EAGAIN && errno.0 != sys::EWOULDBLOCK),
{
}

} // verus!
