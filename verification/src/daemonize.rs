//! Going into the background, and not lying about when.
//!
//! The steps, in order: fork so the parent can return, `setsid` so the child leads a new session
//! with no controlling terminal, fork again so the daemon is not a session leader and can never
//! acquire one, change to `/` so a directory cannot be held busy, set the file mode mask so modes
//! do not depend on whoever started it, claim a locked pid file so a second daemon refuses instead
//! of both believing they own it, and turn the standard streams to `/dev/null`.
//!
//! # The race, and why the pipe is not decoration
//!
//! A fork returning says nothing about whether the daemon is serving. So a pipe is opened before
//! the first fork and inherited across both. The parent blocks reading it and exits only when one
//! of two things happens:
//!
//! * **a byte arrives** - the daemon said so, having done everything a client waits for. The
//!   parent exits 0.
//! * **the pipe closes with nothing on it** - the daemon exited before that point. Every copy of
//!   the write end is gone, and the parent exits nonzero.
//!
//! The standard step this deliberately does **not** do is closing every other descriptor. The pipe
//! has to survive both forks, and closing it is exactly what would make the parent hang. Only 0, 1
//! and 2 are redirected.

use vstd::prelude::*;

use crate::checked;
use crate::sys;
use crate::text;
use crate::Errno;

verus! {

/// The file mode mask of a daemon.
pub const DAEMON_UMASK: u32 = 0o027;

/// The mode a pid file is created with.
pub const PID_FILE_MODE: u32 = 0o644;

/// What tells the parent that the daemon is serving.
pub const READY_BYTE: u8 = 1;

/// The daemon's end of the readiness pipe.
///
/// Closing it without the byte is what tells the parent the start-up failed.
#[derive(Debug, PartialEq, Eq, Structural)]
pub struct Ready {
    write_fd: i32,
}

impl Ready {
    /// The descriptor.
    pub closed spec fn descriptor(&self) -> i32 {
        self.write_fd
    }

    /// Tell the parent this process is serving, and let it exit: the descriptor to write the byte
    /// to and then close. A failed write is of no interest, because there is nobody to tell.
    pub fn signal(self) -> (r: (i32, u8))
        ensures
            r == (self.descriptor(), READY_BYTE),
            r.1 == 1,
    {
        (self.write_fd, READY_BYTE)
    }
}

/// What this process is, after asking to go into the background.
#[derive(Debug, PartialEq, Eq, Structural)]
pub enum Started {
    /// Not asked to. Carry on, on the terminal that started this.
    Foreground,
    /// This is the daemon. Signal when serving.
    Daemon(Ready),
}

/// How this can fail, as the step that failed.
///
/// Named steps rather than one `Errno`, because they are fixed differently: a pid file that is
/// locked means another daemon is running and the fix is to stop it, while a fork that failed
/// means the machine is out of processes.
#[derive(Debug, Clone, Copy, PartialEq, Eq, Structural)]
pub enum DaemonizeError {
    Pipe(Errno),
    Fork(Errno),
    SetSid(Errno),
    Chdir(Errno),
    DevNull(Errno),
    /// The pid file exists and another process holds its lock.
    PidFileLocked,
    PidFile(Errno),
}

impl DaemonizeError {
    /// The error as text, given the text of its errno.
    pub fn to_text(&self, errno: &str) -> (r: String)
        ensures
            r@ == (match *self {
                DaemonizeError::Pipe(_) => "could not open the readiness pipe: "@ + errno@,
                DaemonizeError::Fork(_) => "could not fork: "@ + errno@,
                DaemonizeError::SetSid(_) => "could not start a new session: "@ + errno@,
                DaemonizeError::Chdir(_) => "could not change to /: "@ + errno@,
                DaemonizeError::DevNull(_) => "could not redirect to /dev/null: "@ + errno@,
                DaemonizeError::PidFileLocked =>
                    "another server holds the pid file; stop it first"@,
                DaemonizeError::PidFile(_) => "could not write the pid file: "@ + errno@,
            }),
    {
        let step = match self {
            DaemonizeError::Pipe(_) => "could not open the readiness pipe: ",
            DaemonizeError::Fork(_) => "could not fork: ",
            DaemonizeError::SetSid(_) => "could not start a new session: ",
            DaemonizeError::Chdir(_) => "could not change to /: ",
            DaemonizeError::DevNull(_) => "could not redirect to /dev/null: ",
            DaemonizeError::PidFileLocked => {
                return "another server holds the pid file; stop it first".to_owned();
            },
            DaemonizeError::PidFile(_) => "could not write the pid file: ",
        };
        let mut out = step.to_owned();
        out.append(errno);
        out
    }
}

/// `fork`, as the two answers a caller here acts on. Failing is the third, and is the `Err`.
#[derive(Debug, Clone, Copy, PartialEq, Eq, Structural)]
pub enum Forked {
    Parent,
    Child,
}

/// What `fork` returned.
pub fn fork(returned: i32, errno: Errno) -> (r: Result<Forked, DaemonizeError>)
    ensures
        r == (if returned == -1 {
            Err::<Forked, DaemonizeError>(DaemonizeError::Fork(errno))
        } else if returned == 0 {
            Ok::<Forked, DaemonizeError>(Forked::Child)
        } else {
            Ok::<Forked, DaemonizeError>(Forked::Parent)
        }),
{
    if returned == -1 {
        Err(DaemonizeError::Fork(errno))
    } else if returned == 0 {
        Ok(Forked::Child)
    } else {
        Ok(Forked::Parent)
    }
}

/// The next call.
#[derive(Debug, Clone, Copy, PartialEq, Eq, Structural)]
pub enum Call {
    /// Open the readiness pipe.
    Pipe,
    /// Fork.
    Fork,
    /// Close this descriptor.
    Close(i32),
    /// Read one byte from this descriptor.
    ReadByte(i32),
    /// Exit with this status.
    Exit(i32),
    /// Start a new session.
    SetSid,
    /// Change to `/`.
    ChangeToRoot,
    /// Set the file mode mask.
    SetMask(u32),
    /// Open the pid file with these flags and this mode.
    OpenPidFile(i32, u32),
    /// Lock this descriptor, without waiting.
    Lock(i32),
    /// Truncate this file to nothing.
    Truncate(i32),
    /// Write this process's number to this file.
    WritePid(i32),
    /// Open `/dev/null` with these flags.
    OpenNull(i32),
    /// Make the second descriptor a copy of the first.
    Dup2(i32, i32),
    /// Nothing: this is the daemon, holding the write end.
    Serve(i32),
    /// Nothing: it failed.
    Fail(DaemonizeError),
}

/// Where going into the background stands.
#[derive(Debug, Clone, Copy, PartialEq, Eq, Structural)]
pub enum Stage {
    Pipe,
    FirstFork { read: i32, write: i32 },
    /// The parent gives up its write end, or the read below could never see the end.
    ParentCloses { read: i32, write: i32 },
    ParentWaits { read: i32 },
    ParentDone { read: i32, status: i32 },
    Exit { status: i32 },
    /// The child gives up its read end.
    ChildCloses { read: i32, write: i32 },
    Session { write: i32 },
    SecondFork { write: i32 },
    Root { write: i32 },
    Mask { write: i32 },
    PidOpen { write: i32 },
    PidLock { write: i32, fd: i32 },
    /// The pid file could not be locked, and is closed again.
    PidRefused { fd: i32, error: DaemonizeError },
    PidTruncate { write: i32, fd: i32 },
    PidWrite { write: i32, fd: i32 },
    Null { write: i32 },
    Redirect { write: i32, null: i32, to: i32 },
    NullClose { write: i32, null: i32 },
    Serve { write: i32 },
    Fail { error: DaemonizeError },
}

/// What a call came to: its return value and the `errno` it left, and the descriptors of the pipe.
#[derive(Debug, Clone, Copy, PartialEq, Eq, Structural)]
pub struct Answer {
    pub returned: i32,
    pub errno: Errno,
    pub read_fd: i32,
    pub write_fd: i32,
}

/// What it means that the pid file could not be locked: that another process holds the lock, when
/// the call would have had to wait for it.
pub open spec fn unlocked(errno: Errno) -> DaemonizeError {
    if errno.0 == sys::EWOULDBLOCK {
        DaemonizeError::PidFileLocked
    } else {
        DaemonizeError::PidFile(errno)
    }
}

/// What it means that the pid file could not be locked.
fn lock_failure(errno: Errno) -> (r: DaemonizeError)
    ensures
        r == unlocked(errno),
{
    if errno.0 == sys::errnos().ewouldblock {
        DaemonizeError::PidFileLocked
    } else {
        DaemonizeError::PidFile(errno)
    }
}

/// On after the file mode mask is set: to the pid file, if there is one.
pub open spec fn after_mask(write: i32, pid_file: bool) -> Stage {
    if pid_file {
        Stage::PidOpen { write }
    } else {
        Stage::Null { write }
    }
}

impl Stage {
    /// The next call.
    pub open spec fn call_of(self) -> Call {
        match self {
            Stage::Pipe => Call::Pipe,
            Stage::FirstFork { .. } => Call::Fork,
            Stage::ParentCloses { write, .. } => Call::Close(write),
            Stage::ParentWaits { read } => Call::ReadByte(read),
            Stage::ParentDone { read, .. } => Call::Close(read),
            Stage::Exit { status } => Call::Exit(status),
            Stage::ChildCloses { read, .. } => Call::Close(read),
            Stage::Session { .. } => Call::SetSid,
            Stage::SecondFork { .. } => Call::Fork,
            Stage::Root { .. } => Call::ChangeToRoot,
            Stage::Mask { .. } => Call::SetMask(DAEMON_UMASK),
            Stage::PidOpen { .. } => Call::OpenPidFile(
                sys::O_WRONLY | sys::O_CREAT,
                PID_FILE_MODE,
            ),
            Stage::PidLock { fd, .. } => Call::Lock(fd),
            Stage::PidRefused { fd, .. } => Call::Close(fd),
            Stage::PidTruncate { fd, .. } => Call::Truncate(fd),
            Stage::PidWrite { fd, .. } => Call::WritePid(fd),
            Stage::Null { .. } => Call::OpenNull(sys::O_RDWR),
            Stage::Redirect { null, to, .. } => Call::Dup2(null, to),
            Stage::NullClose { null, .. } => Call::Close(null),
            Stage::Serve { write } => Call::Serve(write),
            Stage::Fail { error } => Call::Fail(error),
        }
    }

    /// Where it stands once that call has returned.
    pub open spec fn after(self, a: Answer, pid_file: bool) -> Stage {
        let failed = a.returned == -1;
        match self {
            Stage::Pipe => if failed {
                Stage::Fail { error: DaemonizeError::Pipe(a.errno) }
            } else {
                Stage::FirstFork { read: a.read_fd, write: a.write_fd }
            },
            Stage::FirstFork { read, write } => if failed {
                Stage::Fail { error: DaemonizeError::Fork(a.errno) }
            } else if a.returned == 0 {
                Stage::ChildCloses { read, write }
            } else {
                Stage::ParentCloses { read, write }
            },
            Stage::ParentCloses { read, .. } => Stage::ParentWaits { read },
            Stage::ParentWaits { read } => Stage::ParentDone {
                read,
                status: if a.returned == 1 {
                    0
                } else {
                    1
                },
            },
            Stage::ParentDone { status, .. } => Stage::Exit { status },
            Stage::ChildCloses { write, .. } => Stage::Session { write },
            Stage::Session { write } => if failed {
                Stage::Fail { error: DaemonizeError::SetSid(a.errno) }
            } else {
                Stage::SecondFork { write }
            },
            Stage::SecondFork { write } => if failed {
                Stage::Fail { error: DaemonizeError::Fork(a.errno) }
            } else if a.returned == 0 {
                Stage::Root { write }
            } else {
                Stage::Exit { status: 0 }
            },
            Stage::Root { write } => if failed {
                Stage::Fail { error: DaemonizeError::Chdir(a.errno) }
            } else {
                Stage::Mask { write }
            },
            Stage::Mask { write } => after_mask(write, pid_file),
            Stage::PidOpen { write } => if failed {
                Stage::Fail { error: DaemonizeError::PidFile(a.errno) }
            } else {
                Stage::PidLock { write, fd: a.returned }
            },
            Stage::PidLock { write, fd } => if failed {
                Stage::PidRefused { fd, error: unlocked(a.errno) }
            } else {
                Stage::PidTruncate { write, fd }
            },
            Stage::PidRefused { error, .. } => Stage::Fail { error },
            Stage::PidTruncate { write, fd } => if failed {
                Stage::Fail { error: DaemonizeError::PidFile(a.errno) }
            } else {
                Stage::PidWrite { write, fd }
            },
            Stage::PidWrite { write, .. } => if a.returned < 0 {
                Stage::Fail { error: DaemonizeError::PidFile(a.errno) }
            } else {
                Stage::Null { write }
            },
            Stage::Null { write } => if failed {
                Stage::Fail { error: DaemonizeError::DevNull(a.errno) }
            } else {
                Stage::Redirect { write, null: a.returned, to: 0 }
            },
            Stage::Redirect { write, null, to } => if failed {
                Stage::Fail { error: DaemonizeError::DevNull(a.errno) }
            } else if to < 2 {
                Stage::Redirect { write, null, to: (to + 1) as i32 }
            } else if null > 2 {
                Stage::NullClose { write, null }
            } else {
                Stage::Serve { write }
            },
            Stage::NullClose { write, .. } => Stage::Serve { write },
            Stage::Exit { .. } => self,
            Stage::Serve { .. } => self,
            Stage::Fail { .. } => self,
        }
    }
}

/// Going into the background, with the parent held until the daemon says it is serving.
///
/// The parent exits 0 once the byte arrives, or nonzero when the pipe closes first. Only the daemon
/// goes on, holding the [`Ready`] it must signal.
///
/// Only the calling thread survives a fork, so this comes before any thread is started.
#[derive(Debug, Clone, Copy, PartialEq, Eq, Structural)]
pub struct Daemonize {
    pid_file: bool,
    stage: Stage,
}

/// Start going into the background, with or without a pid file.
pub fn daemonize(pid_file: bool) -> (r: Daemonize)
    ensures
        r.stage() == Stage::Pipe,
        r.has_pid_file() == pid_file,
{
    Daemonize { pid_file, stage: Stage::Pipe }
}

impl Daemonize {
    /// Where it stands.
    pub closed spec fn stage(&self) -> Stage {
        self.stage
    }

    /// Whether there is a pid file.
    pub closed spec fn has_pid_file(&self) -> bool {
        self.pid_file
    }

    /// The next call.
    pub fn call(&self) -> (r: Call)
        ensures
            r == self.stage().call_of(),
    {
        let f = sys::open_flags();
        match self.stage {
            Stage::Pipe => Call::Pipe,
            Stage::FirstFork { .. } => Call::Fork,
            Stage::ParentCloses { write, .. } => Call::Close(write),
            Stage::ParentWaits { read } => Call::ReadByte(read),
            Stage::ParentDone { read, .. } => Call::Close(read),
            Stage::Exit { status } => Call::Exit(status),
            Stage::ChildCloses { read, .. } => Call::Close(read),
            Stage::Session { .. } => Call::SetSid,
            Stage::SecondFork { .. } => Call::Fork,
            Stage::Root { .. } => Call::ChangeToRoot,
            Stage::Mask { .. } => Call::SetMask(DAEMON_UMASK),
            Stage::PidOpen { .. } => Call::OpenPidFile(f.wronly | f.creat, PID_FILE_MODE),
            Stage::PidLock { fd, .. } => Call::Lock(fd),
            Stage::PidRefused { fd, .. } => Call::Close(fd),
            Stage::PidTruncate { fd, .. } => Call::Truncate(fd),
            Stage::PidWrite { fd, .. } => Call::WritePid(fd),
            Stage::Null { .. } => Call::OpenNull(f.rdwr),
            Stage::Redirect { null, to, .. } => Call::Dup2(null, to),
            Stage::NullClose { null, .. } => Call::Close(null),
            Stage::Serve { write } => Call::Serve(write),
            Stage::Fail { error } => Call::Fail(error),
        }
    }

    /// What this process is, once it is the daemon.
    pub fn started(&self) -> (r: Option<Started>)
        ensures
            match self.stage() {
                Stage::Serve { write } => r matches Some(Started::Daemon(ready))
                    && ready.descriptor() == write,
                _ => r is None,
            },
    {
        match self.stage {
            Stage::Serve { write } => Some(Started::Daemon(Ready { write_fd: write })),
            _ => None,
        }
    }

    /// Take what the call came to.
    pub fn step(&mut self, a: Answer)
        ensures
            final(self).stage() == old(self).stage().after(a, old(self).has_pid_file()),
            final(self).has_pid_file() == old(self).has_pid_file(),
    {
        let result = checked(a.returned, a.errno);
        self.stage = match self.stage {
            Stage::Pipe => match result {
                Err(e) => Stage::Fail { error: DaemonizeError::Pipe(e) },
                Ok(_) => Stage::FirstFork { read: a.read_fd, write: a.write_fd },
            },
            Stage::FirstFork { read, write } => match fork(a.returned, a.errno) {
                Err(error) => Stage::Fail { error },
                Ok(Forked::Child) => Stage::ChildCloses { read, write },
                Ok(Forked::Parent) => Stage::ParentCloses { read, write },
            },
            Stage::ParentCloses { read, .. } => Stage::ParentWaits { read },
            Stage::ParentWaits { read } => Stage::ParentDone {
                read,
                status: if a.returned == 1 {
                    0
                } else {
                    1
                },
            },
            Stage::ParentDone { status, .. } => Stage::Exit { status },
            Stage::ChildCloses { write, .. } => Stage::Session { write },
            Stage::Session { write } => match result {
                Err(e) => Stage::Fail { error: DaemonizeError::SetSid(e) },
                Ok(_) => Stage::SecondFork { write },
            },
            Stage::SecondFork { write } => match fork(a.returned, a.errno) {
                Err(error) => Stage::Fail { error },
                Ok(Forked::Child) => Stage::Root { write },
                Ok(Forked::Parent) => Stage::Exit { status: 0 },
            },
            Stage::Root { write } => match result {
                Err(e) => Stage::Fail { error: DaemonizeError::Chdir(e) },
                Ok(_) => Stage::Mask { write },
            },
            Stage::Mask { write } => if self.pid_file {
                Stage::PidOpen { write }
            } else {
                Stage::Null { write }
            },
            Stage::PidOpen { write } => match result {
                Err(e) => Stage::Fail { error: DaemonizeError::PidFile(e) },
                Ok(fd) => Stage::PidLock { write, fd },
            },
            Stage::PidLock { write, fd } => match result {
                Err(e) => Stage::PidRefused { fd, error: lock_failure(e) },
                Ok(_) => Stage::PidTruncate { write, fd },
            },
            Stage::PidRefused { error, .. } => Stage::Fail { error },
            Stage::PidTruncate { write, fd } => match result {
                Err(e) => Stage::Fail { error: DaemonizeError::PidFile(e) },
                Ok(_) => Stage::PidWrite { write, fd },
            },
            Stage::PidWrite { write, .. } => if a.returned < 0 {
                Stage::Fail { error: DaemonizeError::PidFile(a.errno) }
            } else {
                Stage::Null { write }
            },
            Stage::Null { write } => match result {
                Err(e) => Stage::Fail { error: DaemonizeError::DevNull(e) },
                Ok(null) => Stage::Redirect { write, null, to: 0 },
            },
            Stage::Redirect { write, null, to } => match result {
                Err(e) => Stage::Fail { error: DaemonizeError::DevNull(e) },
                Ok(_) => if to < 2 {
                    Stage::Redirect { write, null, to: to + 1 }
                } else if null > 2 {
                    Stage::NullClose { write, null }
                } else {
                    Stage::Serve { write }
                },
            },
            Stage::NullClose { write, .. } => Stage::Serve { write },
            Stage::Exit { status } => Stage::Exit { status },
            Stage::Serve { write } => Stage::Serve { write },
            Stage::Fail { error } => Stage::Fail { error },
        };
    }
}

/// A pid as decimal bytes, without allocating: they are what `buf` holds from the returned index
/// on. A negative one is written as zero.
pub fn format_pid(pid: i32, buf: &mut [u8; 24]) -> (start: usize)
    ensures
        start < 24,
        final(buf)@.skip(start as int) == text::decimal_bytes(
            if pid < 0 {
                0nat
            } else {
                pid as nat
            },
        ),
        final(buf)@.take(start as int) == old(buf)@.take(start as int),
{
    let whole: u64 = if pid < 0 {
        0
    } else {
        pid as u64
    };
    let ghost before = buf@;
    assert(before.len() == 24);
    let mut n: u64 = whole;
    let mut i: usize = 24;
    if n == 0 {
        i = 23;
        buf[i] = 48;
        assert(buf@.skip(23) =~= text::decimal_bytes(0));
        assert(buf@.take(23) =~= before.take(23));
        return i;
    }
    let ghost digits = text::decimal_bytes(whole as nat);
    proof {
        lemma_digits(whole);
        assert(buf@.skip(24) =~= Seq::<u8>::empty());
        assert(digits =~= text::decimal_bytes(n as nat) + buf@.skip(24));
    }
    while n > 0
        invariant
            digits == text::decimal_bytes(whole as nat),
            digits.len() <= 10,
            before.len() == 24,
            i <= 24,
            n > 0 ==> digits == text::decimal_bytes(n as nat) + buf@.skip(i as int),
            n == 0 ==> digits == buf@.skip(i as int) && i < 24,
            n > 0 || i < 24,
            buf@.take(i as int) == before.take(i as int),
        decreases n,
    {
        let ghost tail = buf@.skip(i as int);
        let ghost last = (48 + n % 10) as u8;
        assert(text::decimal_bytes(n as nat).len() > 0);
        let ghost head = before.take(i as int);
        let ghost now = buf@;
        i = i - 1;
        buf[i] = 48 + (n % 10) as u8;
        proof {
            assert(buf@.skip(i as int) =~= seq![last] + tail);
            assert(buf@.take(i as int) =~= before.take(i as int)) by {
                assert forall|j: int| 0 <= j < i implies buf@[j] == before[j] by {
                    assert(head[j] == before[j]);
                    assert(now.take(i + 1)[j] == now[j]);
                }
            }
            if n < 10 {
                assert(text::decimal_bytes(n as nat) + tail =~= seq![last] + tail);
            } else {
                assert(text::decimal_bytes(n as nat) + tail =~= text::decimal_bytes(
                    (n / 10) as nat,
                ) + (seq![last] + tail));
            }
        }
        n = n / 10;
    }
    i
}

/// Ten digits are enough.
proof fn lemma_digits(n: u64)
    requires
        n < 0x8000_0000,
    ensures
        text::decimal_bytes(n as nat).len() <= 10,
{
    reveal_with_fuel(text::decimal_bytes, 11);
}

// ---------------------------------------------------------------------------------------------
// What comes of it.
// ---------------------------------------------------------------------------------------------

/// The write end of the readiness pipe, in the processes that hold one.
pub open spec fn write_end(s: Stage) -> Option<i32> {
    match s {
        Stage::FirstFork { write, .. } => Some(write),
        Stage::ChildCloses { write, .. } => Some(write),
        Stage::Session { write } => Some(write),
        Stage::SecondFork { write } => Some(write),
        Stage::Root { write } => Some(write),
        Stage::Mask { write } => Some(write),
        Stage::PidOpen { write } => Some(write),
        Stage::PidLock { write, .. } => Some(write),
        Stage::PidTruncate { write, .. } => Some(write),
        Stage::PidWrite { write, .. } => Some(write),
        Stage::Null { write } => Some(write),
        Stage::Redirect { write, .. } => Some(write),
        Stage::NullClose { write, .. } => Some(write),
        Stage::Serve { write } => Some(write),
        _ => None,
    }
}

/// Whether a call takes a descriptor away.
pub open spec fn takes(call: Call, fd: i32) -> bool {
    call == Call::Close(fd) || (call matches Call::Dup2(_, to) && to == fd)
}

/// Whether the descriptors of a stage are as the kernel gives them out: the ends of a pipe differ,
/// what is opened while the write end is open is not the write end, and the write end is not one of
/// the standard descriptors.
pub open spec fn apart(s: Stage) -> bool {
    match write_end(s) {
        Some(w) => w > 2 && match s {
            Stage::FirstFork { read, .. } => read != w,
            Stage::ChildCloses { read, .. } => read != w,
            Stage::Redirect { null, to, .. } => null != w && 0 <= to <= 2,
            Stage::NullClose { null, .. } => null != w,
            _ => true,
        },
        None => true,
    }
}

/// The readiness pipe survives everything the daemon does: its write end is neither closed nor
/// overwritten, and it is the one the daemon serves with. It must not be one of the standard
/// descriptors, which are turned to `/dev/null`.
pub proof fn the_readiness_pipe_survives(s: Stage, a: Answer, pid_file: bool)
    requires
        write_end(s) is Some,
        apart(s),
    ensures
        !takes(s.call_of(), write_end(s)->0),
        write_end(s.after(a, pid_file)) is Some ==> write_end(s.after(a, pid_file)) == write_end(s),
        a.returned != write_end(s)->0 ==> apart(s.after(a, pid_file)),
{
}

/// The parent closes its write end before it waits, and then reports what it read: success exactly
/// when the byte came.
pub proof fn the_parent_reports(read: i32, write: i32, close: Answer, byte: Answer, again: Answer)
    ensures
        ({
            let forked = Stage::ParentCloses { read, write };
            let waiting = forked.after(close, false);
            let done = waiting.after(byte, false);
            let end = done.after(again, false);
            &&& forked.call_of() == Call::Close(write)
            &&& waiting.call_of() == Call::ReadByte(read)
            &&& end.call_of() == Call::Exit(
                if byte.returned == 1 {
                    0
                } else {
                    1
                },
            )
        }),
{
}

/// The daemon is not a session leader: only the child of a second fork, after the new session,
/// goes on.
pub proof fn the_daemon_leads_no_session(s: Stage, a: Answer, pid_file: bool)
    requires
        s.after(a, pid_file) is Root,
    ensures
        s is SecondFork && a.returned == 0,
{
}

/// The second fork comes only after a new session has been started.
pub proof fn the_session_comes_first(s: Stage, a: Answer, pid_file: bool)
    requires
        s.after(a, pid_file) is SecondFork,
    ensures
        s is Session && a.returned != -1,
{
}

/// A pid file is written only under its lock. A lock that another process holds is reported as
/// that, and any other failure to lock as what it is; either way the file is closed first.
pub proof fn a_pid_file_is_claimed(s: Stage, a: Answer, closed: Answer)
    requires
        s is PidLock,
    ensures
        a.returned == -1 ==> s.after(a, true).call_of() == Call::Close(s->PidLock_fd),
        a.returned == -1 && a.errno.0 == sys::EWOULDBLOCK ==> s.after(a, true).after(
            closed,
            true,
        ).call_of() == Call::Fail(DaemonizeError::PidFileLocked),
        a.returned == -1 && a.errno.0 != sys::EWOULDBLOCK ==> s.after(a, true).after(
            closed,
            true,
        ).call_of() == Call::Fail(DaemonizeError::PidFile(a.errno)),
        a.returned != -1 ==> s.after(a, true) is PidTruncate,
        forall|t: Stage, b: Answer|
            #[trigger] t.after(b, true) is PidTruncate ==> t is PidLock && b.returned != -1,
        forall|t: Stage, b: Answer|
            #[trigger] t.after(b, true) is PidWrite ==> t is PidTruncate && b.returned != -1,
{
}

/// A pid file that was locked stays open, and so locked, through everything that follows: it is
/// neither closed nor overwritten. It must not be one of the standard descriptors.
pub proof fn the_lock_is_kept(s: Stage, fd: i32)
    requires
        fd > 2,
        match s {
            Stage::PidTruncate { .. } => true,
            Stage::PidWrite { .. } => true,
            Stage::Null { .. } => true,
            Stage::Redirect { null, to, .. } => null != fd && 0 <= to <= 2,
            Stage::NullClose { null, .. } => null != fd,
            Stage::Serve { .. } => true,
            _ => false,
        },
    ensures
        !takes(s.call_of(), fd),
{
}

/// All three standard streams are turned to `/dev/null` before the daemon serves, in order.
pub proof fn the_streams_are_redirected(write: i32, null: i32, pid_file: bool, a: Answer)
    requires
        a.returned != -1,
    ensures
        ({
            let first = Stage::Redirect { write, null, to: 0 };
            let second = first.after(a, pid_file);
            let third = second.after(a, pid_file);
            let end = third.after(a, pid_file);
            &&& first.call_of() == Call::Dup2(null, 0)
            &&& second.call_of() == Call::Dup2(null, 1)
            &&& third.call_of() == Call::Dup2(null, 2)
            &&& end == if null > 2 {
                Stage::NullClose { write, null }
            } else {
                Stage::Serve { write }
            }
        }),
{
}

/// Where going into the background stands after some answers.
pub open spec fn run(s: Stage, answers: Seq<Answer>, pid_file: bool) -> Stage
    decreases answers.len(),
{
    if answers.len() == 0 {
        s
    } else {
        run(s.after(answers[0], pid_file), answers.drop_first(), pid_file)
    }
}

/// Some answers one after the other.
proof fn lemma_run_step(s: Stage, answers: Seq<Answer>, k: int, pid_file: bool)
    requires
        0 <= k < answers.len(),
    ensures
        run(s, answers.skip(k), pid_file) == run(
            s.after(answers[k], pid_file),
            answers.skip(k + 1),
            pid_file,
        ),
{
    assert(answers.skip(k).drop_first() =~= answers.skip(k + 1));
}

/// When every call succeeds, the child of the child ends up serving, with the write end of the pipe
/// that was opened first.
pub proof fn a_daemon_serves(answers: Seq<Answer>)
    requires
        answers.len() == 12,
        forall|k: int| 0 <= k < 12 ==> (#[trigger] answers[k]).returned != -1,
        answers[1].returned == 0,
        answers[4].returned == 0,
        answers[7].returned > 2,
    ensures
        run(Stage::Pipe, answers, false) == (Stage::Serve { write: answers[0].write_fd }),
{
    let write = answers[0].write_fd;
    let read = answers[0].read_fd;
    let null = answers[7].returned;
    assert(answers.skip(0) =~= answers);
    lemma_run_step(Stage::Pipe, answers, 0, false);
    lemma_run_step(Stage::FirstFork { read, write }, answers, 1, false);
    lemma_run_step(Stage::ChildCloses { read, write }, answers, 2, false);
    lemma_run_step(Stage::Session { write }, answers, 3, false);
    lemma_run_step(Stage::SecondFork { write }, answers, 4, false);
    lemma_run_step(Stage::Root { write }, answers, 5, false);
    lemma_run_step(Stage::Mask { write }, answers, 6, false);
    lemma_run_step(Stage::Null { write }, answers, 7, false);
    lemma_run_step(Stage::Redirect { write, null, to: 0 }, answers, 8, false);
    lemma_run_step(Stage::Redirect { write, null, to: 1 }, answers, 9, false);
    lemma_run_step(Stage::Redirect { write, null, to: 2 }, answers, 10, false);
    lemma_run_step(Stage::NullClose { write, null }, answers, 11, false);
    assert(answers.skip(12) =~= seq![]);
}

/// When every call succeeds, a daemon with a pid file ends up serving too.
pub proof fn a_daemon_with_a_pid_file_serves(answers: Seq<Answer>)
    requires
        answers.len() == 16,
        forall|k: int| 0 <= k < 16 ==> (#[trigger] answers[k]).returned != -1,
        answers[1].returned == 0,
        answers[4].returned == 0,
        answers[10].returned >= 0,
        answers[11].returned > 2,
    ensures
        run(Stage::Pipe, answers, true) == (Stage::Serve { write: answers[0].write_fd }),
{
    let write = answers[0].write_fd;
    let read = answers[0].read_fd;
    let fd = answers[7].returned;
    let null = answers[11].returned;
    assert(answers.skip(0) =~= answers);
    lemma_run_step(Stage::Pipe, answers, 0, true);
    lemma_run_step(Stage::FirstFork { read, write }, answers, 1, true);
    lemma_run_step(Stage::ChildCloses { read, write }, answers, 2, true);
    lemma_run_step(Stage::Session { write }, answers, 3, true);
    lemma_run_step(Stage::SecondFork { write }, answers, 4, true);
    lemma_run_step(Stage::Root { write }, answers, 5, true);
    lemma_run_step(Stage::Mask { write }, answers, 6, true);
    lemma_run_step(Stage::PidOpen { write }, answers, 7, true);
    lemma_run_step(Stage::PidLock { write, fd }, answers, 8, true);
    lemma_run_step(Stage::PidTruncate { write, fd }, answers, 9, true);
    lemma_run_step(Stage::PidWrite { write, fd }, answers, 10, true);
    lemma_run_step(Stage::Null { write }, answers, 11, true);
    lemma_run_step(Stage::Redirect { write, null, to: 0 }, answers, 12, true);
    lemma_run_step(Stage::Redirect { write, null, to: 1 }, answers, 13, true);
    lemma_run_step(Stage::Redirect { write, null, to: 2 }, answers, 14, true);
    lemma_run_step(Stage::NullClose { write, null }, answers, 15, true);
    assert(answers.skip(16) =~= seq![]);
}


/// What each step of a daemon calls: the pipe, both forks and the session, the change to the root,
/// the mask, the pid file with its lock, and `/dev/null`.
pub proof fn each_step_makes_its_call(
    read: i32,
    write: i32,
    fd: i32,
    null: i32,
    to: i32,
    status: i32,
    error: DaemonizeError,
)
    ensures
        Stage::Pipe.call_of() == Call::Pipe,
        (Stage::FirstFork { read, write }).call_of() == Call::Fork,
        (Stage::ParentCloses { read, write }).call_of() == Call::Close(write),
        (Stage::ParentWaits { read }).call_of() == Call::ReadByte(read),
        (Stage::ParentDone { read, status }).call_of() == Call::Close(read),
        (Stage::Exit { status }).call_of() == Call::Exit(status),
        (Stage::ChildCloses { read, write }).call_of() == Call::Close(read),
        (Stage::Session { write }).call_of() == Call::SetSid,
        (Stage::SecondFork { write }).call_of() == Call::Fork,
        (Stage::Root { write }).call_of() == Call::ChangeToRoot,
        (Stage::Mask { write }).call_of() == Call::SetMask(0o027),
        (Stage::PidOpen { write }).call_of() == Call::OpenPidFile(
            sys::O_WRONLY | sys::O_CREAT,
            0o644,
        ),
        (Stage::PidLock { write, fd }).call_of() == Call::Lock(fd),
        (Stage::PidRefused { fd, error }).call_of() == Call::Close(fd),
        (Stage::PidTruncate { write, fd }).call_of() == Call::Truncate(fd),
        (Stage::PidWrite { write, fd }).call_of() == Call::WritePid(fd),
        (Stage::Null { write }).call_of() == Call::OpenNull(sys::O_RDWR),
        (Stage::Redirect { write, null, to }).call_of() == Call::Dup2(null, to),
        (Stage::NullClose { write, null }).call_of() == Call::Close(null),
        (Stage::Serve { write }).call_of() == Call::Serve(write),
        (Stage::Fail { error }).call_of() == Call::Fail(error),
{
}

/// What a step that fails is reported as: each as itself, with the reason that was given.
pub proof fn each_failure_is_its_own(
    read: i32,
    write: i32,
    fd: i32,
    null: i32,
    to: i32,
    a: Answer,
    pid_file: bool,
)
    requires
        a.returned == -1,
    ensures
        Stage::Pipe.after(a, pid_file) == (Stage::Fail { error: DaemonizeError::Pipe(a.errno) }),
        (Stage::FirstFork { read, write }).after(a, pid_file) == (Stage::Fail {
            error: DaemonizeError::Fork(a.errno),
        }),
        (Stage::Session { write }).after(a, pid_file) == (Stage::Fail {
            error: DaemonizeError::SetSid(a.errno),
        }),
        (Stage::SecondFork { write }).after(a, pid_file) == (Stage::Fail {
            error: DaemonizeError::Fork(a.errno),
        }),
        (Stage::Root { write }).after(a, pid_file) == (Stage::Fail {
            error: DaemonizeError::Chdir(a.errno),
        }),
        (Stage::PidOpen { write }).after(a, pid_file) == (Stage::Fail {
            error: DaemonizeError::PidFile(a.errno),
        }),
        (Stage::PidTruncate { write, fd }).after(a, pid_file) == (Stage::Fail {
            error: DaemonizeError::PidFile(a.errno),
        }),
        (Stage::PidWrite { write, fd }).after(a, pid_file) == (Stage::Fail {
            error: DaemonizeError::PidFile(a.errno),
        }),
        (Stage::Null { write }).after(a, pid_file) == (Stage::Fail {
            error: DaemonizeError::DevNull(a.errno),
        }),
        (Stage::Redirect { write, null, to }).after(a, pid_file) == (Stage::Fail {
            error: DaemonizeError::DevNull(a.errno),
        }),
        (Stage::ParentWaits { read }).after(a, pid_file) == (Stage::ParentDone { read, status: 1 }),
{
}

/// What a step that succeeds leads to: which process goes on after a fork, and the next step in
/// its order.
pub proof fn each_success_leads_on(
    read: i32,
    write: i32,
    fd: i32,
    null: i32,
    status: i32,
    error: DaemonizeError,
    a: Answer,
    pid_file: bool,
)
    requires
        a.returned >= 0,
    ensures
        Stage::Pipe.after(a, pid_file) == (Stage::FirstFork { read: a.read_fd, write: a.write_fd }),
        (Stage::FirstFork { read, write }).after(a, pid_file) == (if a.returned == 0 {
            Stage::ChildCloses { read, write }
        } else {
            Stage::ParentCloses { read, write }
        }),
        (Stage::ParentCloses { read, write }).after(a, pid_file) == (Stage::ParentWaits { read }),
        (Stage::ParentWaits { read }).after(a, pid_file) == (Stage::ParentDone {
            read,
            status: if a.returned == 1 {
                0
            } else {
                1
            },
        }),
        (Stage::ParentDone { read, status }).after(a, pid_file) == (Stage::Exit { status }),
        (Stage::ChildCloses { read, write }).after(a, pid_file) == (Stage::Session { write }),
        (Stage::Session { write }).after(a, pid_file) == (Stage::SecondFork { write }),
        (Stage::SecondFork { write }).after(a, pid_file) == (if a.returned == 0 {
            Stage::Root { write }
        } else {
            Stage::Exit { status: 0 }
        }),
        (Stage::Root { write }).after(a, pid_file) == (Stage::Mask { write }),
        (Stage::Mask { write }).after(a, pid_file) == (if pid_file {
            Stage::PidOpen { write }
        } else {
            Stage::Null { write }
        }),
        (Stage::PidOpen { write }).after(a, pid_file) == (Stage::PidLock { write, fd: a.returned }),
        (Stage::PidLock { write, fd }).after(a, pid_file) == (Stage::PidTruncate { write, fd }),
        (Stage::PidTruncate { write, fd }).after(a, pid_file) == (Stage::PidWrite { write, fd }),
        (Stage::PidWrite { write, fd }).after(a, pid_file) == (Stage::Null { write }),
        (Stage::PidRefused { fd, error }).after(a, pid_file) == (Stage::Fail { error }),
        (Stage::Null { write }).after(a, pid_file) == (Stage::Redirect {
            write,
            null: a.returned,
            to: 0,
        }),
        (Stage::NullClose { write, null }).after(a, pid_file) == (Stage::Serve { write }),
{
}

/// The number of a process is written in decimal digits that stand for it, and zero for one that is
/// none.
pub proof fn a_pid_is_written_in_digits(pid: i32)
    requires
        pid >= 0,
    ensures
        text::value_of(text::decimal_bytes(pid as nat)) == pid,
{
    text::digits_read_back(pid as nat);
}


/// What has come to its end stays there: a process that exits, the daemon that serves, and a failure.
pub proof fn the_end_is_the_end(s: Stage, a: Answer, pid_file: bool)
    requires
        s is Exit || s is Serve || s is Fail,
    ensures
        s.after(a, pid_file) == s,
{
}

} // verus!
