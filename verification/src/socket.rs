//! Unix domain sockets, and reading lines off one.
//!
//! # The end of a stream is not an error
//!
//! A line reader says that there is no more when the peer closed cleanly with nothing buffered, and
//! that is the only case where a short read is not a problem. A caller that has been promised a
//! number of lines and gets fewer knows the stream was truncated; a caller reading until the peer
//! stops knows it stopped.

use vstd::prelude::*;
use vstd::slice::slice_subrange;
use vstd::utf8;

use crate::bytes;
use crate::checked;
use crate::lines;
use crate::lines::{LineStep, NEWLINE};
use crate::sys;
use crate::text;
use crate::Errno;

verus! {

/// An open file descriptor.
///
/// Every socket here is one of these, so "was it closed" is a property of ownership rather than of
/// remembering. A descriptor is duplicated rather than copied, because two owners closing one
/// number is how a live connection gets torn down under someone.
#[derive(Debug, PartialEq, Eq, Structural)]
pub struct Fd(i32);

impl Fd {
    /// The number.
    pub closed spec fn number(&self) -> i32 {
        self.0
    }

    /// The descriptor a call returned, or why there is none.
    fn opened(returned: i32, errno: Errno) -> (r: Result<Fd, Errno>)
        ensures
            match r {
                Ok(fd) => returned != -1 && fd.number() == returned,
                Err(e) => returned == -1 && e == errno,
            },
    {
        match checked(returned, errno) {
            Ok(fd) => Ok(Fd(fd)),
            Err(e) => Err(e),
        }
    }

    /// The raw number, for a call that needs it. Does not transfer ownership.
    pub fn raw(&self) -> (r: i32)
        ensures
            r == self.number(),
    {
        self.0
    }

    /// A second descriptor for the same open file, from what `dup` returned.
    pub fn duplicate(&self, returned: i32, errno: Errno) -> (r: Result<Fd, Errno>)
        ensures
            match r {
                Ok(fd) => returned != -1 && fd.number() == returned,
                Err(e) => returned == -1 && e == errno,
            },
    {
        Fd::opened(returned, errno)
    }
}

/// Fill the path of a socket address, or say it will not fit.
///
/// **The length limit is real.** A path that does not fit is silently truncated, which binds a
/// different socket than the caller named, and the failure surfaces later as a client that cannot
/// connect. Refusing here is the difference between a clear error and a mystery. One byte is
/// reserved for the NUL, which the path does not carry.
pub fn address(path: &[u8], sun_path: &mut [u8]) -> (r: Result<(), Errno>)
    ensures
        match r {
            Ok(_) => path@.len() < old(sun_path)@.len() && final(sun_path)@ == path@ + old(
                sun_path,
            )@.skip(path@.len() as int),
            Err(e) => path@.len() >= old(sun_path)@.len() && e == Errno(sys::ENAMETOOLONG)
                && final(sun_path)@ == old(sun_path)@,
        },
{
    if path.len() >= sun_path.len() {
        return Err(Errno(sys::errnos().enametoolong));
    }
    let ghost before = sun_path@;
    let mut i: usize = 0;
    assert(path@.take(0) + before.skip(0) =~= before);
    while i < path.len()
        invariant
            i <= path.len(),
            path.len() < before.len(),
            sun_path@ == path@.take(i as int) + before.skip(i as int),
        decreases path.len() - i,
    {
        sun_path[i] = path[i];
        i = i + 1;
        assert(sun_path@ =~= path@.take(i as int) + before.skip(i as int));
    }
    assert(path@.take(i as int) =~= path@);
    Ok(())
}

/// An address that was filled in names the path it was filled from: it is read back up to its NUL.
pub proof fn an_address_names_its_path(path: Seq<u8>, zeros: Seq<u8>)
    requires
        path.len() < zeros.len(),
        forall|i: int| 0 <= i < zeros.len() ==> zeros[i] == 0,
        !path.contains(0),
    ensures
        bytes::until(path + zeros.skip(path.len() as int), 0) == path,
{
    let all = path + zeros.skip(path.len() as int);
    let n = path.len() as int;
    assert forall|j: int| 0 <= j < n implies all[j] != 0 by {
        assert(path.contains(path[j]));
    }
    assert(all[n] == zeros[n]);
    bytes::lemma_first_is(all, 0, n);
    assert(all.take(n) =~= path);
}

/// The flags of a descriptor with `O_NONBLOCK` set or cleared.
pub open spec fn nonblocking_of(flags: i32, on: bool) -> i32 {
    if on {
        flags | sys::O_NONBLOCK
    } else {
        flags & !sys::O_NONBLOCK
    }
}

/// Setting or clearing `O_NONBLOCK`.
#[derive(Debug, Clone, Copy, PartialEq, Eq, Structural)]
pub enum Nonblocking {
    /// Read the flags.
    GetFlags,
    /// Write these flags.
    SetFlags(i32),
    /// It is done.
    Done,
    /// It failed.
    Failed(Errno),
}

impl Nonblocking {
    /// What comes after what a call returned.
    pub open spec fn after(self, on: bool, returned: i32, errno: Errno) -> Nonblocking {
        match self {
            Nonblocking::GetFlags => if returned == -1 {
                Nonblocking::Failed(errno)
            } else {
                Nonblocking::SetFlags(nonblocking_of(returned, on))
            },
            Nonblocking::SetFlags(_) => if returned == -1 {
                Nonblocking::Failed(errno)
            } else {
                Nonblocking::Done
            },
            _ => self,
        }
    }

    /// Take what a call returned.
    ///
    /// Read, change and write rather than a bare write: overwriting the flags would clear whatever
    /// else the descriptor carries, and on an accepted connection that is not ours to decide.
    pub fn step(&mut self, on: bool, returned: i32, errno: Errno)
        ensures
            *final(self) == old(self).after(on, returned, errno),
    {
        let result = checked(returned, errno);
        *self = match *self {
            Nonblocking::GetFlags => match result {
                Err(e) => Nonblocking::Failed(e),
                Ok(flags) => {
                    let bit: i32 = sys::open_flags().nonblock;
                    Nonblocking::SetFlags(
                        if on {
                            flags | bit
                        } else {
                            flags & !bit
                        },
                    )
                },
            },
            Nonblocking::SetFlags(_) => match result {
                Err(e) => Nonblocking::Failed(e),
                Ok(_) => Nonblocking::Done,
            },
            Nonblocking::Done => Nonblocking::Done,
            Nonblocking::Failed(e) => Nonblocking::Failed(e),
        };
    }
}

/// Setting or clearing `O_NONBLOCK` does that and keeps every other flag.
pub proof fn other_flags_are_kept(flags: i32, on: bool)
    ensures
        nonblocking_of(flags, on) & !sys::O_NONBLOCK == flags & !sys::O_NONBLOCK,
        nonblocking_of(flags, on) & sys::O_NONBLOCK == (if on {
            sys::O_NONBLOCK
        } else {
            0
        }),
{
    assert((flags | 2048i32) & !2048i32 == flags & !2048i32) by (bit_vector);
    assert((flags & !2048i32) & !2048i32 == flags & !2048i32) by (bit_vector);
    assert((flags | 2048i32) & 2048i32 == 2048i32) by (bit_vector);
    assert((flags & !2048i32) & 2048i32 == 0i32) by (bit_vector);
}

/// The flags are read, then written with the bit set or cleared, and then it is done; whichever
/// call fails is the end, with its own reason.
pub proof fn flags_are_read_and_written(on: bool, flags: i32, returned: i32, errno: Errno)
    ensures
        flags != -1 && on ==> Nonblocking::GetFlags.after(on, flags, errno)
            == Nonblocking::SetFlags(flags | sys::O_NONBLOCK),
        flags != -1 && !on ==> Nonblocking::GetFlags.after(on, flags, errno)
            == Nonblocking::SetFlags(flags & !sys::O_NONBLOCK),
        Nonblocking::GetFlags.after(on, (-1) as i32, errno) == Nonblocking::Failed(errno),
        returned != -1 ==> Nonblocking::SetFlags(flags).after(on, returned, errno)
            == Nonblocking::Done,
        Nonblocking::SetFlags(flags).after(on, (-1) as i32, errno) == Nonblocking::Failed(errno),
        Nonblocking::Done.after(on, returned, errno) == Nonblocking::Done,
        Nonblocking::Failed(errno).after(on, returned, Errno(0)) == Nonblocking::Failed(errno),
{
}

// ---------------------------------------------------------------------------------------------
// Listening and connecting.
// ---------------------------------------------------------------------------------------------

/// The next call on the way to a socket.
#[derive(Debug, Clone, Copy, PartialEq, Eq, Structural)]
pub enum SocketCall {
    /// Make a socket.
    Socket,
    /// Bind this descriptor to the address.
    Bind(i32),
    /// Listen on this descriptor, with this backlog.
    Listen(i32, i32),
    /// Connect this descriptor to the address.
    Connect(i32),
    /// Nothing: this descriptor is ready.
    Ready(i32),
    /// Nothing: it failed, and this descriptor, if any, is to be closed.
    Fail(Errno, Option<i32>),
}

/// What a socket is for.
#[derive(Debug, Clone, Copy, PartialEq, Eq, Structural)]
pub enum Purpose {
    /// Listening, with this backlog.
    Listen(i32),
    /// Connecting.
    Connect,
}

/// The name comes after the socket, when the path fits an address.
pub open spec fn named(purpose: Purpose, fits: bool, fd: i32) -> SocketCall {
    if !fits {
        SocketCall::Fail(Errno(sys::ENAMETOOLONG), Some(fd))
    } else {
        match purpose {
            Purpose::Listen(_) => SocketCall::Bind(fd),
            Purpose::Connect => SocketCall::Connect(fd),
        }
    }
}

impl SocketCall {
    /// What comes after what a call returned.
    pub open spec fn after(
        self,
        purpose: Purpose,
        fits: bool,
        returned: i32,
        errno: Errno,
    ) -> SocketCall {
        match self {
            SocketCall::Socket => if returned == -1 {
                SocketCall::Fail(errno, None)
            } else {
                named(purpose, fits, returned)
            },
            SocketCall::Bind(fd) => if returned == -1 {
                SocketCall::Fail(errno, Some(fd))
            } else {
                match purpose {
                    Purpose::Listen(backlog) => SocketCall::Listen(fd, backlog),
                    Purpose::Connect => SocketCall::Ready(fd),
                }
            },
            SocketCall::Listen(fd, _) => if returned == -1 {
                SocketCall::Fail(errno, Some(fd))
            } else {
                SocketCall::Ready(fd)
            },
            SocketCall::Connect(fd) => if returned == -1 {
                SocketCall::Fail(errno, Some(fd))
            } else {
                SocketCall::Ready(fd)
            },
            _ => self,
        }
    }
}

/// A socket on its way to being ready.
#[derive(Debug, Clone, Copy, PartialEq, Eq, Structural)]
pub struct Opening {
    purpose: Purpose,
    fits: bool,
    next: SocketCall,
}

impl Opening {
    /// What it is for.
    pub closed spec fn purpose(&self) -> Purpose {
        self.purpose
    }

    /// Whether the path fits an address.
    pub closed spec fn fits(&self) -> bool {
        self.fits
    }

    /// The next call.
    pub closed spec fn next(&self) -> SocketCall {
        self.next
    }

    /// The next call.
    pub fn call(&self) -> (r: SocketCall)
        ensures
            r == self.next(),
    {
        self.next
    }

    /// Take what the call returned.
    pub fn step(&mut self, returned: i32, errno: Errno)
        ensures
            final(self).next() == old(self).next().after(
                old(self).purpose(),
                old(self).fits(),
                returned,
                errno,
            ),
            final(self).purpose() == old(self).purpose(),
            final(self).fits() == old(self).fits(),
    {
        let result = checked(returned, errno);
        self.next = match self.next {
            SocketCall::Socket => match result {
                Err(e) => SocketCall::Fail(e, None),
                Ok(fd) => if !self.fits {
                    SocketCall::Fail(Errno(sys::errnos().enametoolong), Some(fd))
                } else {
                    match self.purpose {
                        Purpose::Listen(_) => SocketCall::Bind(fd),
                        Purpose::Connect => SocketCall::Connect(fd),
                    }
                },
            },
            SocketCall::Bind(fd) => match result {
                Err(e) => SocketCall::Fail(e, Some(fd)),
                Ok(_) => match self.purpose {
                    Purpose::Listen(backlog) => SocketCall::Listen(fd, backlog),
                    Purpose::Connect => SocketCall::Ready(fd),
                },
            },
            SocketCall::Listen(fd, _) => match result {
                Err(e) => SocketCall::Fail(e, Some(fd)),
                Ok(_) => SocketCall::Ready(fd),
            },
            SocketCall::Connect(fd) => match result {
                Err(e) => SocketCall::Fail(e, Some(fd)),
                Ok(_) => SocketCall::Ready(fd),
            },
            SocketCall::Ready(fd) => SocketCall::Ready(fd),
            SocketCall::Fail(e, fd) => SocketCall::Fail(e, fd),
        };
    }
}

/// A path that does not fit an address is refused whatever the kernel would have said of it: it is
/// never bound or connected to, and the socket made for it is closed.
pub proof fn a_long_path_is_never_used(purpose: Purpose, returned: i32, errno: Errno)
    ensures
        SocketCall::Socket.after(purpose, false, returned, errno) == (if returned == -1 {
            SocketCall::Fail(errno, None)
        } else {
            SocketCall::Fail(Errno(sys::ENAMETOOLONG), Some(returned))
        }),
{
}

/// The calls a socket takes to be ready: one that listens is made, bound and told to listen with
/// its backlog, and one that connects is made and connected. Whichever call fails is the end, with
/// its own reason, and a socket that was made is then closed.
pub proof fn a_socket_takes_its_calls(
    backlog: i32,
    fd: i32,
    returned: i32,
    errno: Errno,
    purpose: Purpose,
    fits: bool,
)
    requires
        fd != -1,
        returned != -1,
    ensures
        SocketCall::Socket.after(Purpose::Listen(backlog), true, fd, errno) == SocketCall::Bind(fd),
        SocketCall::Bind(fd).after(Purpose::Listen(backlog), true, returned, errno)
            == SocketCall::Listen(fd, backlog),
        SocketCall::Listen(fd, backlog).after(Purpose::Listen(backlog), true, returned, errno)
            == SocketCall::Ready(fd),
        SocketCall::Socket.after(Purpose::Connect, true, fd, errno) == SocketCall::Connect(fd),
        SocketCall::Connect(fd).after(Purpose::Connect, true, returned, errno)
            == SocketCall::Ready(fd),
        SocketCall::Socket.after(purpose, fits, (-1) as i32, errno) == SocketCall::Fail(
            errno,
            None,
        ),
        SocketCall::Bind(fd).after(purpose, fits, (-1) as i32, errno) == SocketCall::Fail(
            errno,
            Some(fd),
        ),
        SocketCall::Listen(fd, backlog).after(purpose, fits, (-1) as i32, errno) == SocketCall::Fail(
            errno,
            Some(fd),
        ),
        SocketCall::Connect(fd).after(purpose, fits, (-1) as i32, errno) == SocketCall::Fail(
            errno,
            Some(fd),
        ),
        SocketCall::Ready(fd).after(purpose, fits, returned, errno) == SocketCall::Ready(fd),
{
}

/// A listening Unix socket.
#[derive(Debug, PartialEq, Eq, Structural)]
pub struct Listener(Fd);

/// What one `accept` came to.
#[derive(Debug, PartialEq, Eq, Structural)]
pub enum Accepted {
    /// A signal arrived first; accept again.
    Again,
    /// A connection.
    Stream(Stream),
    /// It failed.
    Failed(Errno),
}

impl Listener {
    /// The descriptor.
    pub closed spec fn descriptor(&self) -> i32 {
        self.0.number()
    }

    /// Start binding and listening. The caller unlinks any stale socket file first.
    ///
    /// Not done here on purpose: removing a path is destructive and this should not decide that a
    /// file in the way is stale.
    pub fn bind(path: &[u8], capacity: usize, backlog: i32) -> (r: Opening)
        ensures
            r.next() == SocketCall::Socket,
            r.purpose() == Purpose::Listen(backlog),
            r.fits() == (path@.len() < capacity),
    {
        Opening {
            purpose: Purpose::Listen(backlog),
            fits: path.len() < capacity,
            next: SocketCall::Socket,
        }
    }

    /// The listener, once its descriptor is ready.
    pub fn bound(opening: &Opening) -> (r: Option<Listener>)
        ensures
            match opening.next() {
                SocketCall::Ready(fd) => r matches Some(l) && l.descriptor() == fd,
                _ => r is None,
            },
    {
        match opening.next {
            SocketCall::Ready(fd) => Some(Listener(Fd(fd))),
            _ => None,
        }
    }

    /// The raw number.
    pub fn raw(&self) -> (r: i32)
        ensures
            r == self.descriptor(),
    {
        self.0.raw()
    }

    /// Start setting whether `accept` returns immediately when nothing is waiting.
    pub fn set_nonblocking(&self) -> (r: Nonblocking)
        ensures
            r == Nonblocking::GetFlags,
    {
        Nonblocking::GetFlags
    }

    /// What one `accept` came to.
    ///
    /// A signal is answered by accepting again rather than returned: it is not a failure of the
    /// socket.
    pub fn accept(&self, fd: i32, errno: Errno) -> (r: Accepted)
        ensures
            match r {
                Accepted::Again => fd == -1 && errno.0 == sys::EINTR,
                Accepted::Stream(s) => fd != -1 && s.descriptor() == fd,
                Accepted::Failed(e) => fd == -1 && errno.0 != sys::EINTR && e == errno,
            },
    {
        if fd == -1 {
            if errno.interrupted() {
                return Accepted::Again;
            }
            return Accepted::Failed(errno);
        }
        Accepted::Stream(Stream(Fd(fd)))
    }
}

/// One connection.
#[derive(Debug, PartialEq, Eq, Structural)]
pub struct Stream(Fd);

/// What one `read` of a connection came to.
#[derive(Debug, Clone, Copy, PartialEq, Eq, Structural)]
pub enum StreamRead {
    /// A signal arrived first; read again.
    Again,
    /// This many bytes arrived. Zero is a clean end of stream.
    Got(usize),
    /// It failed.
    Failed(Errno),
}

impl Stream {
    /// The descriptor.
    pub closed spec fn descriptor(&self) -> i32 {
        self.0.number()
    }

    /// Start connecting to a listening socket.
    pub fn connect(path: &[u8], capacity: usize) -> (r: Opening)
        ensures
            r.next() == SocketCall::Socket,
            r.purpose() == Purpose::Connect,
            r.fits() == (path@.len() < capacity),
    {
        Opening {
            purpose: Purpose::Connect,
            fits: path.len() < capacity,
            next: SocketCall::Socket,
        }
    }

    /// The connection, once its descriptor is ready.
    pub fn connected(opening: &Opening) -> (r: Option<Stream>)
        ensures
            match opening.next() {
                SocketCall::Ready(fd) => r matches Some(s) && s.descriptor() == fd,
                _ => r is None,
            },
    {
        match opening.next {
            SocketCall::Ready(fd) => Some(Stream(Fd(fd))),
            _ => None,
        }
    }

    /// The raw number.
    pub fn raw(&self) -> (r: i32)
        ensures
            r == self.descriptor(),
    {
        self.0.raw()
    }

    /// Start setting whether reads and writes return immediately rather than waiting.
    ///
    /// A connection accepted on a listener that does not wait inherits that on some platforms, and
    /// a read of a client that has not typed yet then looks like the end of the stream.
    pub fn set_nonblocking(&self) -> (r: Nonblocking)
        ensures
            r == Nonblocking::GetFlags,
    {
        Nonblocking::GetFlags
    }

    /// A second handle on the same connection, from what `dup` returned.
    pub fn duplicate(&self, returned: i32, errno: Errno) -> (r: Result<Stream, Errno>)
        ensures
            match r {
                Ok(s) => returned != -1 && s.descriptor() == returned,
                Err(e) => returned == -1 && e == errno,
            },
    {
        match self.0.duplicate(returned, errno) {
            Ok(fd) => Ok(Stream(fd)),
            Err(e) => Err(e),
        }
    }

    /// Start writing all of `bytes`.
    pub fn write_all<'a>(&self, bytes: &'a [u8]) -> (r: StreamWrite<'a>)
        ensures
            r.left() == bytes@,
    {
        StreamWrite { rest: bytes }
    }

    /// What one `read` came to.
    pub fn read(&self, got: isize, errno: Errno) -> (r: StreamRead)
        ensures
            match r {
                StreamRead::Again => got < 0 && errno.0 == sys::EINTR,
                StreamRead::Got(n) => got >= 0 && n == got,
                StreamRead::Failed(e) => got < 0 && errno.0 != sys::EINTR && e == errno,
            },
    {
        if got < 0 {
            if errno.interrupted() {
                return StreamRead::Again;
            }
            return StreamRead::Failed(errno);
        }
        StreamRead::Got(got as usize)
    }

    /// This connection as a line reader. Consumes the handle: what is buffered has been taken off
    /// the socket, so reading around it afterwards would lose it.
    pub fn lines(self) -> (r: Lines)
        ensures
            r.connection() == self,
            r.held() == Seq::<u8>::empty(),
    {
        let r = Lines { stream: self, line: Vec::new(), buf: Vec::new(), at: 0 };
        assert(r.held() =~= Seq::<u8>::empty());
        r
    }
}

/// Bytes on their way to a connection.
pub struct StreamWrite<'a> {
    rest: &'a [u8],
}

impl<'a> StreamWrite<'a> {
    /// What is still to be written.
    pub closed spec fn left(&self) -> Seq<u8> {
        self.rest@
    }

    /// What is still to be written. Nothing, once it is done.
    pub fn rest(&self) -> (r: &'a [u8])
        ensures
            r@ == self.left(),
    {
        self.rest
    }

    /// Take the answer of one `write` of what is left. Nothing written with bytes outstanding is a
    /// peer that went away, and is reported as one rather than as a silent stall.
    pub fn step(&mut self, wrote: isize, errno: Errno) -> (r: Result<(), Errno>)
        requires
            wrote <= old(self).left().len(),
        ensures
            r == (if wrote < 0 && errno.0 != sys::EINTR {
                Err::<(), Errno>(errno)
            } else if wrote == 0 {
                Err::<(), Errno>(Errno(sys::EPIPE))
            } else {
                Ok::<(), Errno>(())
            }),
            final(self).left() == (if wrote > 0 {
                old(self).left().skip(wrote as int)
            } else {
                old(self).left()
            }),
    {
        if wrote < 0 {
            if errno.interrupted() {
                return Ok(());
            }
            return Err(errno);
        }
        if wrote == 0 {
            return Err(Errno(sys::errnos().epipe));
        }
        let ghost before = self.rest@;
        self.rest = slice_subrange(self.rest, wrote as usize, self.rest.len());
        assert(self.rest@ =~= before.skip(wrote as int));
        Ok(())
    }
}

/// A line reader over a connection.
pub struct Lines {
    stream: Stream,
    /// The beginning of a line whose end has not come.
    line: Vec<u8>,
    /// What has been read from the socket.
    buf: Vec<u8>,
    /// How much of that has been handed out.
    at: usize,
}

/// What a line reader makes of a `read`.
pub enum Arrived {
    /// There may be a line now.
    More,
    /// A signal arrived first; read again.
    Again,
    /// The stream ended, with this last line, if anything.
    Ended(Option<String>),
    /// It failed.
    Failed(Errno),
}

impl Lines {
    /// The connection.
    pub closed spec fn connection(&self) -> Stream {
        self.stream
    }

    /// What has arrived and not been handed out.
    pub closed spec fn held(&self) -> Seq<u8> {
        self.line@ + self.buf@.skip(self.at as int)
    }

    /// The beginning of a line holds no newline.
    #[verifier::type_invariant]
    spec fn well_formed(self) -> bool {
        &&& self.at <= self.buf@.len()
        &&& !self.line@.contains(NEWLINE)
    }

    /// The next line, without its newline, or that more has to be read.
    ///
    /// Never that there is none: that is known only from a read.
    pub fn next_line(&mut self) -> (r: LineStep)
        ensures
            lines::owed(r, old(self).held(), false),
            ({
                let before = old(self).held();
                let line = bytes::until(before, NEWLINE);
                &&& r is Read <==> !before.contains(NEWLINE)
                &&& !(r is End)
                &&& r matches LineStep::Line(s) ==> s@ == text::lossy(line)
                &&& r matches LineStep::Line(s) ==> utf8::valid_utf8(line) ==> utf8::encode_utf8(
                    s@,
                ) == line
                &&& r is Line ==> final(self).held() == (if before.contains(NEWLINE) {
                    before.skip(line.len() as int + 1)
                } else {
                    Seq::empty()
                })
                &&& !(r is Line) ==> final(self).held() == before
            }),
            final(self).connection() == old(self).connection(),
            final(self).held() == (match lines::take_line(old(self).held(), false) {
                Some((_, rest)) => rest,
                None => old(self).held(),
            }),
    {
        let r = self.advance();
        proof {
            lines::what_is_owed(r, old(self).held(), false);
            lines::what_is_left(old(self).held(), false);
        }
        r
    }

    /// The next line, or that more has to be read.
    fn advance(&mut self) -> (r: LineStep)
        ensures
            lines::owed(r, old(self).held(), false),
            final(self).connection() == old(self).connection(),
            final(self).held() == (match lines::take_line(old(self).held(), false) {
                Some((_, rest)) => rest,
                None => old(self).held(),
            }),
    {
        proof {
            use_type_invariant(&*self);
        }
        let ghost held = self.held();
        let ghost begun = self.line@;
        let at: usize = self.at;
        let len: usize = self.buf.len();
        let mut line: Vec<u8> = Vec::new();
        std::mem::swap(&mut line, &mut self.line);
        let waiting = slice_subrange(self.buf.as_slice(), at, len);
        let ghost pending = self.buf@.skip(at as int);
        assert(waiting@ =~= pending);
        proof {
            bytes::lemma_first_of(pending, NEWLINE);
            lemma_split(begun, pending);
        }
        match bytes::position(waiting, NEWLINE) {
            Some(n) => {
                let first = slice_subrange(waiting, 0, n);
                bytes::extend(&mut line, first);
                let found = text::to_owned_text(line.as_slice());
                self.at = at + n + 1;
                proof {
                    assert(line@ =~= held.take(begun.len() + n));
                    assert(self.held() =~= held.skip(begun.len() + n + 1));
                }
                LineStep::Line(found)
            },
            None => {
                bytes::extend(&mut line, waiting);
                assert(line@ =~= held);
                self.at = 0;
                self.buf = Vec::new();
                proof {
                    assert forall|j: int| 0 <= j < line@.len() implies line@[j] != NEWLINE by {
                        if j < begun.len() {
                            assert(begun.contains(begun[j]));
                        } else {
                            assert(line@[j] == pending[j - begun.len()]);
                        }
                    }
                }
                self.line = line;
                assert(self.held() =~= held);
                LineStep::Read
            },
        }
    }

    /// Take the answer of one `read` into `chunk`.
    ///
    /// A final line with no trailing newline is returned, because a peer that wrote one and closed
    /// said something and dropping it would lose a request. A failure loses the beginning of a line
    /// whose end had not come.
    pub fn supply(&mut self, got: isize, errno: Errno, chunk: &[u8]) -> (r: Arrived)
        requires
            got <= chunk@.len(),
        ensures
            final(self).connection() == old(self).connection(),
            match r {
                Arrived::More => got > 0 && final(self).held() == old(self).held() + chunk@.take(
                    got as int,
                ),
                Arrived::Again => got < 0 && errno.0 == sys::EINTR && final(self).held() == old(
                    self,
                ).held(),
                Arrived::Ended(last) => {
                    &&& got == 0
                    &&& final(self).held() == Seq::<u8>::empty()
                    &&& match last {
                        Some(s) => {
                            &&& old(self).held().len() > 0
                            &&& s@ == text::lossy(old(self).held())
                            &&& utf8::valid_utf8(old(self).held()) ==> utf8::encode_utf8(s@)
                                == old(self).held()
                        },
                        None => old(self).held().len() == 0,
                    }
                },
                Arrived::Failed(e) => {
                    &&& got < 0 && errno.0 != sys::EINTR && e == errno
                    &&& final(self).held() == Seq::<u8>::empty()
                },
            },
    {
        proof {
            use_type_invariant(&*self);
        }
        let ghost held = self.held();
        match self.stream.read(got, errno) {
            StreamRead::Again => Arrived::Again,
            StreamRead::Failed(e) => {
                self.line = Vec::new();
                self.at = 0;
                self.buf = Vec::new();
                assert(self.held() =~= Seq::<u8>::empty());
                Arrived::Failed(e)
            },
            StreamRead::Got(n) => {
                let at: usize = self.at;
                let len: usize = self.buf.len();
                if n == 0 {
                    let mut last: Vec<u8> = Vec::new();
                    bytes::extend(&mut last, self.line.as_slice());
                    bytes::extend(&mut last, slice_subrange(self.buf.as_slice(), at, len));
                    assert(last@ =~= held);
                    proof {
                        text::text_is_kept(held, Seq::empty());
                    }
                    self.line = Vec::new();
                    self.at = 0;
                    self.buf = Vec::new();
                    assert(self.held() =~= Seq::<u8>::empty());
                    if last.len() == 0 {
                        return Arrived::Ended(None);
                    }
                    return Arrived::Ended(Some(text::to_owned_text(last.as_slice())));
                }
                let mut rest: Vec<u8> = Vec::new();
                bytes::extend(&mut rest, slice_subrange(self.buf.as_slice(), at, len));
                bytes::extend(&mut rest, slice_subrange(chunk, 0, n));
                self.at = 0;
                self.buf = rest;
                assert(self.held() =~= held + chunk@.take(got as int));
                Arrived::More
            },
        }
    }

    /// The write half, for a reply on the same connection.
    pub fn stream(&self) -> (r: &Stream)
        ensures
            *r == self.connection(),
    {
        &self.stream
    }
}

/// The first newline of a line's beginning and what follows it is that of what follows it.
proof fn lemma_split(begun: Seq<u8>, pending: Seq<u8>)
    requires
        !begun.contains(NEWLINE),
    ensures
        bytes::first_of(begun + pending, NEWLINE) == (match bytes::first_of(pending, NEWLINE) {
            Some(i) => Some(begun.len() + i),
            None => None::<int>,
        }),
{
    let all = begun + pending;
    bytes::lemma_first_of(pending, NEWLINE);
    bytes::lemma_first_of(all, NEWLINE);
    assert forall|j: int| 0 <= j < begun.len() implies all[j] != NEWLINE by {
        assert(begun.contains(begun[j]));
    }
    match bytes::first_of(pending, NEWLINE) {
        Some(i) => {
            assert forall|j: int| begun.len() <= j < begun.len() + i implies all[j] != NEWLINE by {
                assert(all[j] == pending[j - begun.len()]);
            }
            assert(all[begun.len() + i] == pending[i]);
            bytes::lemma_first_is(all, NEWLINE, begun.len() + i);
        },
        None => {
            if bytes::first_of(all, NEWLINE) is Some {
                let k = bytes::first_of(all, NEWLINE)->0;
                assert(all[k] == pending[k - begun.len()]);
                assert(pending.contains(pending[k - begun.len()]));
            }
        },
    }
}


/// What has come to its end stays there: a socket that is ready, and one that failed.
pub proof fn the_end_is_the_end(
    call: SocketCall,
    purpose: Purpose,
    fits: bool,
    returned: i32,
    errno: Errno,
)
    requires
        call is Ready || call is Fail,
    ensures
        call.after(purpose, fits, returned, errno) == call,
{
}

} // verus!
