//! Threads and what they keep to themselves.
//!
//! What a lock or a thread is made of belongs to the operating system. What is decided around one
//! is here: how a value comes to be computed once, what a thread finds when it first touches a
//! value of its own, how a value that is installed for a while is put back, and what the answers
//! of the calls mean.

use vstd::prelude::*;
use vstd::utf8;

use crate::sys;
use crate::Errno;

pub mod local;
pub mod once;
pub mod start;

pub use crate::thread::local::{LocalKey, ScopedKey, ThreadLocal};
pub use crate::thread::once::{LazyLock, Once, OnceLock};
pub use crate::thread::start::{Kind, Start};

verus! {

// ---------------------------------------------------------------------------------------------
// Starting threads and waiting for them.
// ---------------------------------------------------------------------------------------------

/// Start a thread with `stack_bytes` of stack, detached.
///
/// Detached, because nothing joins: a joinable thread nobody joins is a leak of the thread's own
/// bookkeeping.
pub fn spawn_detached(stack_bytes: usize) -> (r: Start)
    ensures
        r.kind() == start::Kind::Detached(stack_bytes),
        r.named() is None,
        r.stage() == start::first(start::Kind::Detached(stack_bytes)),
{
    Start::new(Kind::Detached(stack_bytes))
}

/// Start a thread with the default stack, to be joined.
pub fn spawn() -> (r: Start)
    ensures
        r.kind() == start::Kind::Joinable(0),
        r.named() is None,
        r.stage() == start::first(start::Kind::Joinable(0)),
{
    Builder::new().spawn()
}

/// Whether a lock that was tried was free, from what `pthread_mutex_trylock` returned.
pub fn try_lock(returned: i32) -> (r: bool)
    ensures
        r == (returned == 0),
{
    returned == 0
}

/// An opaque identifier for a thread.
#[derive(Copy, Clone, PartialEq, Eq, Structural, Hash, Debug)]
pub struct ThreadId(u64);

impl ThreadId {
    /// The number.
    pub closed spec fn number(self) -> u64 {
        self.0
    }

    /// The identifier as a number, for a profiler that wants to record it.
    pub fn as_u64(self) -> (r: u64)
        ensures
            r == self.number(),
    {
        self.0
    }
}

/// The calling thread's identifier, from its handle.
///
/// A pointer-sized handle rather than a small integer, which is fine: the identifier is compared
/// for equality and printed, never used as a dense index.
pub fn current_id(handle: usize) -> (r: ThreadId)
    ensures
        r.number() == handle,
{
    ThreadId(handle as u64)
}

/// How a thread is configured before it starts.
pub struct Builder {
    stack_bytes: usize,
    name: Option<String>,
}

impl Builder {
    /// The size of the stack, or 0 for the platform's default.
    pub closed spec fn stack(&self) -> usize {
        self.stack_bytes
    }

    /// The thread's name.
    pub closed spec fn named(&self) -> Option<Seq<char>> {
        match self.name {
            Some(s) => Some(s@),
            None => None,
        }
    }

    /// A builder with the platform's default stack.
    pub fn new() -> (r: Builder)
        ensures
            r.stack() == 0,
            r.named() is None,
    {
        Builder { stack_bytes: 0, name: None }
    }

    /// Ask for a stack of this size.
    pub fn stack_size(self, bytes: usize) -> (r: Builder)
        ensures
            r.stack() == bytes,
            r.named() == self.named(),
    {
        let mut out = self;
        out.stack_bytes = bytes;
        out
    }

    /// Name the thread, for a debugger and for crash reports.
    pub fn name(self, name: String) -> (r: Builder)
        ensures
            r.stack() == self.stack(),
            r.named() == Some(name@),
    {
        let mut out = self;
        out.name = Some(name);
        out
    }

    /// Start it, with the name it was given.
    pub fn spawn(self) -> (r: Start)
        ensures
            r.kind() == start::Kind::Joinable(self.stack()),
            match self.named() {
                Some(n) => r.named() == Some(utf8::encode_utf8(n)),
                None => r.named() is None,
            },
            r.stage() == start::first(start::Kind::Joinable(self.stack())),
    {
        match self.name {
            Some(n) => Start::with_name(
                self.stack_bytes,
                vstd::slice::slice_to_vec(n.as_str().as_bytes()),
            ),
            None => Start::new(Kind::Joinable(self.stack_bytes)),
        }
    }
}

impl Default for Builder {
    fn default() -> (r: Builder)
        ensures
            r.stack() == 0,
            r.named() is None,
    {
        Builder::new()
    }
}

/// A thread that can be waited for, and its result collected.
#[derive(Debug, PartialEq, Eq, Structural)]
pub struct JoinHandle {
    thread: usize,
}

impl JoinHandle {
    /// The thread.
    pub closed spec fn thread(&self) -> usize {
        self.thread
    }

    /// The handle of a thread that runs, or why it does not, once that is known.
    pub fn new(start: &Start) -> (r: Option<Result<JoinHandle, Errno>>)
        ensures
            match start.stage() {
                start::Stage::Started { thread } => r matches Some(Ok(h)) && h.thread() == thread,
                start::Stage::Failed { errno } => r matches Some(Err(e)) && e == errno,
                _ => r is None,
            },
    {
        match start.outcome() {
            Some(Ok(thread)) => Some(Ok(JoinHandle { thread })),
            Some(Err(e)) => Some(Err(e)),
            None => None,
        }
    }

    /// The thread to wait for.
    pub fn raw(&self) -> (r: usize)
        ensures
            r == self.thread(),
    {
        self.thread
    }

    /// The thread's result, from what `pthread_join` returned and what the thread left behind.
    ///
    /// A failure means the join itself failed: the thread was already detached or joined. A thread
    /// that left nothing behind is an error too.
    pub fn join<T>(self, returned: i32, left: Option<T>) -> (r: Result<T, Errno>)
        ensures
            match r {
                Ok(v) => returned == 0 && left == Some(v),
                Err(e) => if returned != 0 {
                    e == Errno(returned)
                } else {
                    left is None && e == Errno(sys::EINVAL)
                },
            },
    {
        if returned != 0 {
            return Err(Errno(returned));
        }
        match left {
            Some(v) => Ok(v),
            None => Err(Errno(sys::errnos().einval)),
        }
    }
}

/// The threads started in a scope.
///
/// They may borrow from outside the scope because every one of them is joined before the scope
/// ends, so nothing they captured can be dropped while they run.
pub struct Scope {
    handles: Vec<usize>,
}

impl Scope {
    /// The threads that were started, in order.
    pub closed spec fn started(&self) -> Seq<usize> {
        self.handles@
    }

    /// No thread yet.
    pub fn new() -> (r: Scope)
        ensures
            r.started() == Seq::<usize>::empty(),
    {
        Scope { handles: Vec::new() }
    }

    /// Start a thread that may borrow from outside the scope.
    pub fn spawn(&self) -> (r: Start)
        ensures
            r.kind() == start::Kind::Scoped,
            r.named() is None,
            r.stage() == start::first(start::Kind::Scoped),
    {
        Start::new(Kind::Scoped)
    }

    /// Take what a start came to. A thread that never started is not waited for: there is no way to
    /// report that without making every call handle a machine that is out of threads.
    pub fn add_started(&mut self, start: &Start)
        ensures
            final(self).started() == (match start.stage() {
                start::Stage::Started { thread } => old(self).started().push(thread),
                _ => old(self).started(),
            }),
    {
        match start.outcome() {
            Some(Ok(thread)) => {
                self.handles.push(thread);
            },
            _ => {},
        }
    }

    /// The threads to join before the scope ends: every one that was started.
    pub fn to_join(self) -> (r: Vec<usize>)
        ensures
            r@ == self.started(),
    {
        self.handles
    }
}

/// How many threads wait on a condition variable.
///
/// `pthread_cond_signal` cannot tell whether it woke anybody, so the count is kept beside it, under
/// the lock the waiters wait with.
#[derive(Debug, Clone, Copy, PartialEq, Eq, Structural)]
pub struct Condvar {
    waiters: usize,
}

impl Condvar {
    /// How many threads wait.
    pub closed spec fn waiting(&self) -> nat {
        self.waiters as nat
    }

    /// Nobody waits.
    pub fn new() -> (r: Condvar)
        ensures
            r.waiting() == 0,
    {
        Condvar { waiters: 0 }
    }

    /// One more thread waits. It is counted while the lock is held, which is what makes the answer
    /// of a notification exact for whoever holds the same lock.
    pub fn wait(&mut self)
        requires
            old(self).waiting() < usize::MAX,
        ensures
            final(self).waiting() == old(self).waiting() + 1,
    {
        self.waiters = self.waiters + 1;
    }

    /// One thread waits no more.
    pub fn woken(&mut self)
        requires
            old(self).waiting() > 0,
        ensures
            final(self).waiting() == old(self).waiting() - 1,
    {
        self.waiters = self.waiters - 1;
    }

    /// Whether there is a waiter to wake.
    pub fn notify_one(&self) -> (r: bool)
        ensures
            r == (self.waiting() > 0),
    {
        self.waiters > 0
    }

    /// How many waiters there are to wake.
    pub fn notify_all(&self) -> (r: usize)
        ensures
            r == self.waiting(),
    {
        self.waiters
    }
}

} // verus!
