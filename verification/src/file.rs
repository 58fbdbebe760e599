//! Files, and the error type the rest of this crate reports them with.
//!
//! [`Error`] is an [`Errno`] and a note. What is here around it is everything a file operation
//! decides before and after its system call: the flags a file is opened with, what a return value
//! means, when a read or a write goes round again, and which names are touched.

use std::borrow::Cow;

use vstd::prelude::*;
use vstd::slice::slice_subrange;
use vstd::utf8;

use crate::bytes;
use crate::path;
use crate::path::laws;
use crate::path::{Path, PathBuf};
use crate::print::{is_terminal, write_fd, WriteFd};
use crate::sys;
use crate::text;
use crate::Errno;

pub mod buffer;
pub mod remove;
pub mod stdin;
pub mod temp;
pub mod whole;

pub use crate::file::buffer::BufWriter;
pub use crate::file::remove::remove_dir_all;
pub use crate::file::stdin::{stdin, Stdin};
pub use crate::file::temp::{TempDir, TempDirSearch};
pub use crate::file::whole::{CopyFile, ReadFile, WriteFile};

verus! {

// ---------------------------------------------------------------------------------------------
// Errors.
// ---------------------------------------------------------------------------------------------

/// The failure categories callers word a message for.
#[derive(Copy, Clone, PartialEq, Eq, Structural, Debug)]
pub enum ErrorKind {
    /// `ENOENT`.
    NotFound,
    /// `EACCES` or `EPERM`.
    PermissionDenied,
    /// `EISDIR`.
    IsADirectory,
    /// The caller was handed something it could not use. No errno behind it.
    InvalidInput,
    /// Bytes that were read but did not mean what they had to.
    InvalidData,
    /// Anything else; the errno's own message is the description.
    Other,
}

/// The category an errno falls into.
pub open spec fn kind_of(errno: Errno) -> ErrorKind {
    if errno.0 == sys::ENOENT {
        ErrorKind::NotFound
    } else if errno.0 == sys::EACCES || errno.0 == sys::EPERM {
        ErrorKind::PermissionDenied
    } else if errno.0 == sys::EISDIR {
        ErrorKind::IsADirectory
    } else if errno.0 == sys::EILSEQ {
        ErrorKind::InvalidData
    } else {
        ErrorKind::Other
    }
}

impl ErrorKind {
    /// The category an errno falls into.
    pub fn of(errno: Errno) -> (r: ErrorKind)
        ensures
            r == kind_of(errno),
            r is NotFound <==> errno.0 == sys::ENOENT,
            r is PermissionDenied <==> errno.0 == sys::EACCES || errno.0 == sys::EPERM,
            r is IsADirectory <==> errno.0 == sys::EISDIR,
            r is InvalidData <==> errno.0 == sys::EILSEQ,
            !(r is InvalidInput),
    {
        let e = sys::errnos();
        if errno.0 == e.enoent {
            ErrorKind::NotFound
        } else if errno.0 == e.eacces || errno.0 == e.eperm {
            ErrorKind::PermissionDenied
        } else if errno.0 == e.eisdir {
            ErrorKind::IsADirectory
        } else if errno.0 == e.eilseq {
            ErrorKind::InvalidData
        } else {
            ErrorKind::Other
        }
    }
}

/// A file operation that failed.
#[derive(PartialEq, Eq, Debug)]
pub struct Error {
    errno: Errno,
    kind: ErrorKind,
    what: Cow<'static, str>,
}

/// What an [`Error`] says.
pub struct ErrorView {
    pub errno: Errno,
    pub kind: ErrorKind,
    pub what: Seq<char>,
}

impl View for Error {
    type V = ErrorView;

    closed spec fn view(&self) -> ErrorView {
        ErrorView { errno: self.errno, kind: self.kind, what: self.what@ }
    }
}

impl Clone for Error {
    fn clone(&self) -> (r: Error)
        ensures
            r@ == self@,
    {
        let what: Cow<'static, str> = match &self.what {
            Cow::Borrowed(s) => Cow::Borrowed(*s),
            Cow::Owned(s) => Cow::Owned(s.as_str().to_owned()),
        };
        Error { errno: self.errno, kind: self.kind, what }
    }
}

/// The error of a call named `what` that left `errno`.
pub open spec fn failure(errno: Errno, what: Seq<char>) -> ErrorView {
    ErrorView { errno, kind: kind_of(errno), what }
}

/// The error of a call says which call it was and what it left, and falls into the category of that
/// errno: one of its own for a missing file, for a refusal, for a directory and for data that does
/// not mean what it has to, and the same for every other.
pub proof fn what_a_failure_says(errno: Errno, what: Seq<char>)
    ensures
        failure(errno, what).errno == errno,
        failure(errno, what).what == what,
        failure(errno, what).kind is NotFound <==> errno.0 == sys::ENOENT,
        failure(errno, what).kind is PermissionDenied <==> errno.0 == sys::EACCES || errno.0
            == sys::EPERM,
        failure(errno, what).kind is IsADirectory <==> errno.0 == sys::EISDIR,
        failure(errno, what).kind is InvalidData <==> errno.0 == sys::EILSEQ,
        !(failure(errno, what).kind is InvalidInput),
{
}

impl Error {
    /// Build one from an errno the caller obtained itself.
    pub fn from_errno(errno: Errno, what: &'static str) -> (r: Error)
        ensures
            r@ == failure(errno, what@),
            r@.errno == errno,
            r@.what == what@,
            r@.kind is NotFound <==> errno.0 == sys::ENOENT,
            r@.kind is PermissionDenied <==> errno.0 == sys::EACCES || errno.0 == sys::EPERM,
            r@.kind is IsADirectory <==> errno.0 == sys::EISDIR,
            r@.kind is InvalidData <==> errno.0 == sys::EILSEQ,
            !(r@.kind is InvalidInput),
    {
        Error { errno, kind: ErrorKind::of(errno), what: Cow::Borrowed(what) }
    }

    /// The underlying errno.
    pub fn errno(&self) -> (r: Errno)
        ensures
            r == self@.errno,
    {
        self.errno
    }

    /// The broad category of failure.
    pub fn kind(&self) -> (r: ErrorKind)
        ensures
            r == self@.kind,
    {
        self.kind
    }

    /// The reason: the name of the call that failed, or what the caller built.
    pub fn what(&self) -> (r: &str)
        ensures
            r@ == self@.what,
    {
        match &self.what {
            Cow::Borrowed(s) => s,
            Cow::Owned(s) => s.as_str(),
        }
    }

    /// The file was larger than the caller's limit.
    ///
    /// `EFBIG` because that is what it means, even though no system call reported it.
    pub fn too_large() -> (r: Error)
        ensures
            r@ == failure(Errno(sys::EFBIG), "file too large"@),
    {
        Error::from_errno(Errno(sys::errnos().efbig), "file too large")
    }

    /// `getcwd` failed.
    pub fn no_cwd(errno: Errno) -> (r: Error)
        ensures
            r@ == failure(errno, "getcwd"@),
    {
        Error::from_errno(errno, "getcwd")
    }

    /// The bytes were not what the caller expected.
    ///
    /// A decoder that has read a file and found it malformed needs to report that in the same
    /// type as the read itself.
    pub fn invalid_data(what: &'static str) -> (r: Error)
        ensures
            r@ == failure(Errno(sys::EILSEQ), what@),
    {
        Error::from_errno(Errno(sys::errnos().eilseq), what)
    }

    /// An error in a named category, carrying a reason the caller built.
    pub fn new(kind: ErrorKind, what: Cow<'static, str>) -> (r: Error)
        ensures
            r@ == (ErrorView { errno: Errno(0), kind, what: what@ }),
    {
        Error { errno: Errno(0), kind, what }
    }

    /// An error that fits no category, carrying a reason.
    pub fn other(what: Cow<'static, str>) -> (r: Error)
        ensures
            r@ == (ErrorView { errno: Errno(0), kind: ErrorKind::Other, what: what@ }),
    {
        Error::new(ErrorKind::Other, what)
    }

    /// Whether the file was not there.
    ///
    /// Its own method because it is the one distinction callers actually make: a missing file is
    /// usually a decision, and every other failure is a report.
    pub fn is_not_found(&self) -> (r: bool)
        ensures
            r == (self@.errno.0 == sys::ENOENT),
    {
        self.errno.0 == sys::errnos().enoent
    }

    /// The error as text, given the system's sentence for its errno.
    ///
    /// An error that was built rather than reported has no errno to render, and is its reason
    /// alone.
    pub fn to_text(&self, message: &str) -> (r: String)
        ensures
            r@ == (if self@.errno.0 == 0 {
                self@.what
            } else {
                self@.what + ": "@ + message@
            }),
    {
        let mut out = self.what().to_owned();
        if self.errno.0 != 0 {
            out.append(": ");
            out.append(message);
        }
        out
    }
}

/// Whether an error was "the destination is already there".
pub fn is_already_exists(e: &Error) -> (r: bool)
    ensures
        r == (e@.errno.0 == sys::EEXIST),
{
    e.errno().0 == sys::errnos().eexist
}

/// The result of a call that reports success as zero.
pub fn status(returned: i32, errno: Errno, what: &'static str) -> (r: Result<(), Error>)
    ensures
        match r {
            Ok(_) => returned == 0,
            Err(e) => returned != 0 && e@ == failure(errno, what@),
        },
{
    if returned != 0 {
        return Err(Error::from_errno(errno, what));
    }
    Ok(())
}

// ---------------------------------------------------------------------------------------------
// Opening and positioning.
// ---------------------------------------------------------------------------------------------

/// The ways a file is opened.
#[derive(Copy, Clone, PartialEq, Eq, Structural, Debug)]
pub enum Opening {
    /// For reading.
    Open,
    /// Created or truncated, for writing.
    Create,
    /// For appending, created if absent.
    Append,
    /// An existing file for both reading and writing.
    OpenRw,
    /// Created or truncated, for both reading and writing.
    CreateRw,
}

impl Opening {
    /// The flags of the call.
    pub open spec fn flags_of(self) -> i32 {
        match self {
            Opening::Open => sys::O_RDONLY,
            Opening::Create => sys::O_WRONLY | sys::O_CREAT | sys::O_TRUNC,
            Opening::Append => sys::O_WRONLY | sys::O_CREAT | sys::O_APPEND,
            Opening::OpenRw => sys::O_RDWR,
            Opening::CreateRw => sys::O_RDWR | sys::O_CREAT | sys::O_TRUNC,
        }
    }

    /// The name a failure is reported under.
    pub open spec fn what_of(self) -> Seq<char> {
        match self {
            Opening::Open => "open"@,
            Opening::Create => "create"@,
            Opening::Append => "append"@,
            Opening::OpenRw => "open"@,
            Opening::CreateRw => "create"@,
        }
    }

    /// The permissions of a file the call creates, when it can create one.
    pub open spec fn mode_of(self) -> Option<u32> {
        match self {
            Opening::Open => None,
            Opening::OpenRw => None,
            _ => Some(0o644u32),
        }
    }

    /// What to call `open` with.
    pub fn call(self, path: Path<'_>) -> (r: OpenCall)
        ensures
            r.path@ == path@.push(0),
            r.flags == self.flags_of(),
            r.mode == self.mode_of(),
            match self {
                Opening::Open => r.flags == sys::O_RDONLY && r.mode is None,
                Opening::Create => r.flags == sys::O_WRONLY | sys::O_CREAT | sys::O_TRUNC && r.mode
                    == Some(0o644u32),
                Opening::Append => r.flags == sys::O_WRONLY | sys::O_CREAT | sys::O_APPEND && r.mode
                    == Some(0o644u32),
                Opening::OpenRw => r.flags == sys::O_RDWR && r.mode is None,
                Opening::CreateRw => r.flags == sys::O_RDWR | sys::O_CREAT | sys::O_TRUNC && r.mode
                    == Some(0o644u32),
            },
    {
        let f = sys::open_flags();
        let path = path.as_c();
        match self {
            Opening::Open => OpenCall { path, flags: f.rdonly, mode: None },
            Opening::Create => OpenCall {
                path,
                flags: f.wronly | f.creat | f.trunc,
                mode: Some(0o644),
            },
            Opening::Append => OpenCall {
                path,
                flags: f.wronly | f.creat | f.append,
                mode: Some(0o644),
            },
            Opening::OpenRw => OpenCall { path, flags: f.rdwr, mode: None },
            Opening::CreateRw => OpenCall {
                path,
                flags: f.rdwr | f.creat | f.trunc,
                mode: Some(0o644),
            },
        }
    }
}

/// What to call `open` with.
pub struct OpenCall {
    /// The name, NUL-terminated.
    pub path: Vec<u8>,
    /// The flags.
    pub flags: i32,
    /// The permissions, when the call can create the file.
    pub mode: Option<u32>,
}

/// An open file.
///
/// There is no syncing: adding it would imply a durability guarantee nothing here makes.
#[derive(PartialEq, Eq, Structural, Debug)]
pub struct File {
    fd: i32,
}

impl File {
    /// The descriptor.
    pub closed spec fn descriptor(&self) -> i32 {
        self.fd
    }

    /// What an `open` in a given way came to.
    pub open spec fn opened(how: Opening, fd: i32, errno: Errno, r: Result<File, Error>) -> bool {
        match r {
            Ok(f) => fd >= 0 && f.descriptor() == fd,
            Err(e) => fd < 0 && e@ == failure(errno, how.what_of()),
        }
    }

    /// The file opened for reading, or why it was not.
    pub fn open(fd: i32, errno: Errno) -> (r: Result<File, Error>)
        ensures
            File::opened(Opening::Open, fd, errno, r),
            fd >= 0 ==> (r matches Ok(f) && f.descriptor() == fd),
            fd < 0 ==> (r matches Err(e) && e@ == failure(errno, "open"@)),
    {
        if fd < 0 {
            return Err(Error::from_errno(errno, "open"));
        }
        Ok(File { fd })
    }

    /// The file created or truncated for writing, or why it was not.
    pub fn create(fd: i32, errno: Errno) -> (r: Result<File, Error>)
        ensures
            File::opened(Opening::Create, fd, errno, r),
            fd >= 0 ==> (r matches Ok(f) && f.descriptor() == fd),
            fd < 0 ==> (r matches Err(e) && e@ == failure(errno, "create"@)),
    {
        if fd < 0 {
            return Err(Error::from_errno(errno, "create"));
        }
        Ok(File { fd })
    }

    /// The file opened for appending, or why it was not.
    pub fn append(fd: i32, errno: Errno) -> (r: Result<File, Error>)
        ensures
            File::opened(Opening::Append, fd, errno, r),
            fd >= 0 ==> (r matches Ok(f) && f.descriptor() == fd),
            fd < 0 ==> (r matches Err(e) && e@ == failure(errno, "append"@)),
    {
        if fd < 0 {
            return Err(Error::from_errno(errno, "append"));
        }
        Ok(File { fd })
    }

    /// The existing file opened for both reading and writing, or why it was not.
    pub fn open_rw(fd: i32, errno: Errno) -> (r: Result<File, Error>)
        ensures
            File::opened(Opening::OpenRw, fd, errno, r),
            fd >= 0 ==> (r matches Ok(f) && f.descriptor() == fd),
            fd < 0 ==> (r matches Err(e) && e@ == failure(errno, "open"@)),
    {
        if fd < 0 {
            return Err(Error::from_errno(errno, "open"));
        }
        Ok(File { fd })
    }

    /// The file created or truncated for both reading and writing, or why it was not.
    ///
    /// `create` alone is write-only, which is what a file being written wants. A caller that
    /// rewinds its own output to measure it needs to read back a file it is writing.
    pub fn create_rw(fd: i32, errno: Errno) -> (r: Result<File, Error>)
        ensures
            File::opened(Opening::CreateRw, fd, errno, r),
            fd >= 0 ==> (r matches Ok(f) && f.descriptor() == fd),
            fd < 0 ==> (r matches Err(e) && e@ == failure(errno, "create"@)),
    {
        if fd < 0 {
            return Err(Error::from_errno(errno, "create"));
        }
        Ok(File { fd })
    }

    /// The raw descriptor, for the few callers that map it or ask whether it is a terminal.
    pub fn raw(&self) -> (r: i32)
        ensures
            r == self.descriptor(),
    {
        self.fd
    }

    /// Where `lseek` to an absolute offset landed.
    pub fn seek(&mut self, landed: i64, errno: Errno) -> (r: Result<u64, Error>)
        ensures
            position(landed, errno, r),
            landed >= 0 ==> (r matches Ok(n) && n == landed),
            landed < 0 ==> (r matches Err(e) && e@ == failure(errno, "lseek"@)),
            *final(self) == *old(self),
    {
        if landed < 0 {
            return Err(Error::from_errno(errno, "lseek"));
        }
        Ok(landed as u64)
    }

    /// Where the read/write position currently is, as `lseek` reports it.
    pub fn stream_position(&self, landed: i64, errno: Errno) -> (r: Result<u64, Error>)
        ensures
            position(landed, errno, r),
            landed >= 0 ==> (r matches Ok(n) && n == landed),
            landed < 0 ==> (r matches Err(e) && e@ == failure(errno, "lseek"@)),
    {
        if landed < 0 {
            return Err(Error::from_errno(errno, "lseek"));
        }
        Ok(landed as u64)
    }

    /// Whether the position moved back to the start.
    pub fn rewind(&mut self, landed: i64, errno: Errno) -> (r: Result<(), Error>)
        ensures
            match r {
                Ok(_) => landed >= 0,
                Err(e) => landed < 0 && e@ == failure(errno, "lseek"@),
            },
            *final(self) == *old(self),
    {
        match self.seek(landed, errno) {
            Ok(_) => Ok(()),
            Err(e) => Err(e),
        }
    }

    /// What `fstat` found of the open descriptor, or why it found nothing.
    pub fn metadata(&self, returned: i32, errno: Errno, found: Metadata) -> (r: Result<
        Metadata,
        Error,
    >)
        ensures
            match r {
                Ok(m) => returned == 0 && m == found,
                Err(e) => returned != 0 && e@ == failure(errno, "fstat"@),
            },
    {
        match status(returned, errno, "fstat") {
            Ok(_) => Ok(found),
            Err(e) => Err(e),
        }
    }

    /// The file's size in bytes, from what `fstat` found.
    pub fn len(&self, returned: i32, errno: Errno, found: Metadata) -> (r: Result<u64, Error>)
        ensures
            match r {
                Ok(n) => returned == 0 && n == found.size as u64,
                Err(e) => returned != 0 && e@ == failure(errno, "fstat"@),
            },
    {
        match self.metadata(returned, errno, found) {
            Ok(m) => Ok(m.len()),
            Err(e) => Err(e),
        }
    }

    /// Whether the file has no bytes in it, from what `fstat` found.
    ///
    /// A `Result`, like `len`, because a caller that cannot stat the file does not get a `false`
    /// that looks like an answer.
    pub fn is_empty(&self, returned: i32, errno: Errno, found: Metadata) -> (r: Result<bool, Error>)
        ensures
            match r {
                Ok(b) => returned == 0 && b == (found.size as u64 == 0),
                Err(e) => returned != 0 && e@ == failure(errno, "fstat"@),
            },
    {
        match self.len(returned, errno, found) {
            Ok(n) => Ok(n == 0),
            Err(e) => Err(e),
        }
    }

    /// What one `read` came to.
    pub fn read(&mut self, n: isize, errno: Errno) -> (r: ReadStep)
        ensures
            read_came_to(n, errno, r),
            n >= 0 ==> (r matches ReadStep::Got(k) && k == n),
            n < 0 && errno.0 == sys::EINTR ==> r is Again,
            n < 0 && errno.0 != sys::EINTR ==> (r matches ReadStep::Failed(e) && e@ == failure(
                errno,
                "read"@,
            )),
            *final(self) == *old(self),
    {
        read_step(n, errno)
    }

    /// Read the rest of the file after what `out` holds.
    pub fn read_to_end(&self, out: Vec<u8>) -> (r: ReadToEnd)
        ensures
            r.contents() == out@,
            r.start() == out@.len(),
    {
        ReadToEnd::new(out)
    }

    /// Write all of `bytes`, going round over short writes.
    pub fn write_all<'a>(&self, bytes: &'a [u8]) -> (r: WriteAll<'a>)
        ensures
            r.left() == bytes@,
    {
        WriteAll::new(bytes)
    }
}

/// What an `lseek` that landed somewhere comes to.
pub open spec fn position(landed: i64, errno: Errno, r: Result<u64, Error>) -> bool {
    match r {
        Ok(n) => landed >= 0 && n == landed,
        Err(e) => landed < 0 && e@ == failure(errno, "lseek"@),
    }
}

/// The absolute offset as `lseek` takes it.
pub fn seek_offset(offset: u64) -> (r: i64)
    ensures
        r == offset as i64,
        offset <= i64::MAX ==> r == offset,
{
    offset as i64
}

// ---------------------------------------------------------------------------------------------
// Reading and writing.
// ---------------------------------------------------------------------------------------------

/// What one `read` came to.
pub enum ReadStep {
    /// A signal arrived first; read again.
    Again,
    /// This many bytes arrived. Zero means end of file.
    Got(usize),
    /// It failed.
    Failed(Error),
}

/// What one `read` comes to.
pub open spec fn read_came_to(n: isize, errno: Errno, r: ReadStep) -> bool {
    match r {
        ReadStep::Again => n < 0 && errno.0 == sys::EINTR,
        ReadStep::Got(k) => n >= 0 && k == n,
        ReadStep::Failed(e) => n < 0 && errno.0 != sys::EINTR && e@ == failure(errno, "read"@),
    }
}

/// What one `read` came to.
pub fn read_step(n: isize, errno: Errno) -> (r: ReadStep)
    ensures
        read_came_to(n, errno, r),
        n >= 0 ==> (r matches ReadStep::Got(k) && k == n),
        n < 0 && errno.0 == sys::EINTR ==> r is Again,
        n < 0 && errno.0 != sys::EINTR ==> (r matches ReadStep::Failed(e) && e@ == failure(
            errno,
            "read"@,
        )),
{
    if n < 0 {
        if errno.interrupted() {
            return ReadStep::Again;
        }
        return ReadStep::Failed(Error::from_errno(errno, "read"));
    }
    ReadStep::Got(n as usize)
}

/// The rest of a file, being read.
pub struct ReadToEnd {
    out: Vec<u8>,
    start: usize,
}

/// What reading the rest of a file does next.
pub enum ReadToEndStep {
    /// Read on.
    More,
    /// The end was reached after this many bytes.
    Done(usize),
    /// It failed.
    Failed(Error),
}

impl ReadToEnd {
    /// What was there before and what has been read since.
    pub closed spec fn contents(&self) -> Seq<u8> {
        self.out@
    }

    /// How much was there before.
    pub closed spec fn start(&self) -> int {
        self.start as int
    }

    /// What was there before stays in front.
    #[verifier::type_invariant]
    spec fn well_formed(self) -> bool {
        self.start <= self.out@.len()
    }

    /// Read after what `out` holds.
    pub fn new(out: Vec<u8>) -> (r: ReadToEnd)
        ensures
            r.contents() == out@,
            r.start() == out@.len(),
    {
        let start: usize = out.len();
        ReadToEnd { out, start }
    }

    /// Take the answer of one `read` into `chunk`.
    pub fn step(&mut self, n: isize, errno: Errno, chunk: &[u8]) -> (r: ReadToEndStep)
        requires
            n <= chunk@.len(),
        ensures
            final(self).start() == old(self).start(),
            final(self).contents() == (if n > 0 {
                old(self).contents() + chunk@.take(n as int)
            } else {
                old(self).contents()
            }),
            match r {
                ReadToEndStep::More => n > 0 || (n < 0 && errno.0 == sys::EINTR),
                ReadToEndStep::Done(k) => n == 0 && k == old(self).contents().len() - old(
                    self,
                ).start(),
                ReadToEndStep::Failed(e) => n < 0 && errno.0 != sys::EINTR && e@ == failure(
                    errno,
                    "read"@,
                ),
            },
    {
        proof {
            use_type_invariant(&*self);
        }
        match read_step(n, errno) {
            ReadStep::Again => ReadToEndStep::More,
            ReadStep::Failed(e) => ReadToEndStep::Failed(e),
            ReadStep::Got(k) => {
                if k == 0 {
                    return ReadToEndStep::Done(self.out.len() - self.start);
                }
                let arrived = slice_subrange(chunk, 0, k);
                assert(arrived@ =~= chunk@.take(n as int));
                let start: usize = self.start;
                let mut out: Vec<u8> = Vec::new();
                self.start = 0;
                std::mem::swap(&mut out, &mut self.out);
                bytes::extend(&mut out, arrived);
                self.out = out;
                self.start = start;
                ReadToEndStep::More
            },
        }
    }

    /// Everything: what was there before and what was read.
    pub fn into_contents(self) -> (r: Vec<u8>)
        ensures
            r@ == self.contents(),
    {
        self.out
    }
}

/// Bytes on their way out.
pub struct WriteAll<'a> {
    rest: &'a [u8],
}

/// What writing all of something does next.
pub enum WriteStep {
    /// Write what is left, if anything is.
    More,
    /// It failed.
    Failed(Error),
}

impl<'a> WriteAll<'a> {
    /// What is still to be written.
    pub closed spec fn left(&self) -> Seq<u8> {
        self.rest@
    }

    /// Write all of `bytes`.
    pub fn new(bytes: &'a [u8]) -> (r: WriteAll<'a>)
        ensures
            r.left() == bytes@,
    {
        WriteAll { rest: bytes }
    }

    /// What is still to be written. Nothing, once it is done.
    pub fn rest(&self) -> (r: &'a [u8])
        ensures
            r@ == self.left(),
    {
        self.rest
    }

    /// Set aside the first `n` bytes, which have been written.
    pub fn advance(&mut self, n: usize)
        requires
            n <= old(self).left().len(),
        ensures
            final(self).left() == old(self).left().skip(n as int),
    {
        let ghost before = self.rest@;
        self.rest = slice_subrange(self.rest, n, self.rest.len());
        assert(self.rest@ =~= before.skip(n as int));
    }

    /// Take the answer of one `write` of what is left.
    pub fn step(&mut self, n: isize, errno: Errno) -> (r: WriteStep)
        requires
            n <= old(self).left().len(),
        ensures
            final(self).left() == (if n >= 0 {
                old(self).left().skip(n as int)
            } else {
                old(self).left()
            }),
            match r {
                WriteStep::More => n >= 0 || errno.0 == sys::EINTR,
                WriteStep::Failed(e) => n < 0 && errno.0 != sys::EINTR && e@ == failure(
                    errno,
                    "write"@,
                ),
            },
    {
        if n < 0 {
            if errno.interrupted() {
                return WriteStep::More;
            }
            return WriteStep::Failed(Error::from_errno(errno, "write"));
        }
        self.advance(n as usize);
        WriteStep::More
    }
}

/// What short writes of these sizes put out, one after the other.
pub open spec fn written_by(bytes: Seq<u8>, sizes: Seq<nat>) -> Seq<u8>
    decreases sizes.len(),
{
    if sizes.len() == 0 {
        Seq::empty()
    } else {
        bytes.take(sizes[0] as int) + written_by(bytes.skip(sizes[0] as int), sizes.drop_first())
    }
}

/// What short writes of these sizes leave.
pub open spec fn left_by(bytes: Seq<u8>, sizes: Seq<nat>) -> Seq<u8>
    decreases sizes.len(),
{
    if sizes.len() == 0 {
        bytes
    } else {
        left_by(bytes.skip(sizes[0] as int), sizes.drop_first())
    }
}

/// Whether no write is larger than what is left.
pub open spec fn writable(bytes: Seq<u8>, sizes: Seq<nat>) -> bool
    decreases sizes.len(),
{
    sizes.len() == 0 || (sizes[0] <= bytes.len() && writable(
        bytes.skip(sizes[0] as int),
        sizes.drop_first(),
    ))
}

/// Short writes lose nothing and repeat nothing: what was put out and what is left is everything.
pub proof fn short_writes_add_up(bytes: Seq<u8>, sizes: Seq<nat>)
    requires
        writable(bytes, sizes),
    ensures
        written_by(bytes, sizes) + left_by(bytes, sizes) == bytes,
    decreases sizes.len(),
{
    if sizes.len() == 0 {
        assert(written_by(bytes, sizes) + left_by(bytes, sizes) =~= bytes);
    } else {
        let n = sizes[0] as int;
        let rest = bytes.skip(n);
        short_writes_add_up(rest, sizes.drop_first());
        assert(bytes.take(n) + written_by(rest, sizes.drop_first()) + left_by(
            rest,
            sizes.drop_first(),
        ) =~= bytes.take(n) + (written_by(rest, sizes.drop_first()) + left_by(
            rest,
            sizes.drop_first(),
        )));
        assert(bytes.take(n) + rest =~= bytes);
    }
}

/// Start reading a whole file.
pub fn read(path: Path<'_>) -> (r: ReadFile)
    ensures
        r@ == whole::Reading::Open(path@),
{
    ReadFile::new(path)
}

/// Start writing a whole file, replacing it.
pub fn write<'a>(path: Path<'_>, bytes: &'a [u8]) -> (r: WriteFile<'a>)
    ensures
        r@ == whole::Writing::Create(path@),
        r.contents() == bytes@,
{
    WriteFile::new(path, bytes)
}

/// Start copying a file's contents, creating or truncating the destination.
pub fn copy(from: Path<'_>, to: Path<'_>) -> (r: CopyFile)
    ensures
        r@ == whole::Copying::Read(whole::Reading::Open(from@)),
        r.destination() == to@,
{
    CopyFile::new(from, to)
}

/// A file's bytes as UTF-8.
pub fn read_to_string(contents: Vec<u8>) -> (r: Result<String, Error>)
    ensures
        match r {
            Ok(s) => utf8::valid_utf8(contents@) && s@ == utf8::decode_utf8(contents@),
            Err(e) => !utf8::valid_utf8(contents@) && e@ == failure(
                Errno(sys::EILSEQ),
                "not utf-8"@,
            ),
        },
{
    match text::string_from_utf8(contents) {
        Some(s) => Ok(s),
        None => Err(Error::from_errno(Errno(sys::errnos().eilseq), "not utf-8")),
    }
}

// ---------------------------------------------------------------------------------------------
// What the kernel says about a name.
// ---------------------------------------------------------------------------------------------

/// Whether a name exists, from what `access` returned.
pub fn name_exists(returned: i32) -> (r: bool)
    ensures
        r == (returned == 0),
{
    returned == 0
}

/// What `stat(2)` says about a name.
#[derive(Copy, Clone, PartialEq, Eq, Structural, Debug)]
pub struct Metadata {
    pub size: i64,
    pub mode_bits: u32,
    pub mtime: i64,
}

/// What a name itself is, as far as removing it goes.
#[derive(Copy, Clone, PartialEq, Eq, Structural, Debug)]
pub enum NameKind {
    /// A directory.
    Directory,
    /// A symbolic link, whatever it points at.
    Link,
    /// Anything else.
    Other,
}

impl Metadata {
    /// What the mode says a name is.
    pub open spec fn kind(self) -> NameKind {
        if self.dir() {
            NameKind::Directory
        } else if self.mode_bits & sys::S_IFMT == sys::S_IFLNK {
            NameKind::Link
        } else {
            NameKind::Other
        }
    }

    /// Whether the mode is that of a directory.
    pub open spec fn dir(self) -> bool {
        self.mode_bits & sys::S_IFMT == sys::S_IFDIR
    }

    /// Whether the mode is that of a regular file.
    pub open spec fn regular(self) -> bool {
        self.mode_bits & sys::S_IFMT == sys::S_IFREG
    }

    /// Size in bytes.
    pub fn len(&self) -> (r: u64)
        ensures
            r == self.size as u64,
            self.size >= 0 ==> r == self.size,
    {
        self.size as u64
    }

    /// Whether the file has no bytes in it.
    pub fn is_empty(&self) -> (r: bool)
        ensures
            r == (self.size as u64 == 0),
            self.size >= 0 ==> r == (self.size == 0),
    {
        self.len() == 0
    }

    /// Whether it is a directory.
    pub fn is_dir(&self) -> (r: bool)
        ensures
            r == self.dir(),
            r <==> self.mode_bits & sys::S_IFMT == sys::S_IFDIR,
    {
        let t = sys::file_types();
        self.mode_bits & t.mask == t.directory
    }

    /// Whether it is a regular file.
    pub fn is_file(&self) -> (r: bool)
        ensures
            r == self.regular(),
            r <==> self.mode_bits & sys::S_IFMT == sys::S_IFREG,
    {
        let t = sys::file_types();
        self.mode_bits & t.mask == t.regular
    }

    /// What the name is, where `lstat` was asked.
    pub fn name_kind(&self) -> (r: NameKind)
        ensures
            r == self.kind(),
            r is Directory <==> self.mode_bits & sys::S_IFMT == sys::S_IFDIR,
            r is Link <==> self.mode_bits & sys::S_IFMT == sys::S_IFLNK,
    {
        let t = sys::file_types();
        if self.mode_bits & t.mask == t.directory {
            NameKind::Directory
        } else if self.mode_bits & t.mask == t.link {
            NameKind::Link
        } else {
            NameKind::Other
        }
    }

    /// The type and permission bits.
    pub fn mode(&self) -> (r: u32)
        ensures
            r == self.mode_bits,
    {
        self.mode_bits
    }

    /// Whether the file is read-only: whether its owner may not write it.
    pub fn readonly(&self) -> (r: bool)
        ensures
            r == (self.mode_bits & 0o200 == 0),
    {
        self.mode_bits & 0o200 == 0
    }

    /// Modification time, as whole seconds since the epoch.
    pub fn modified_secs(&self) -> (r: i64)
        ensures
            r == self.mtime,
    {
        self.mtime
    }
}

/// What the type bits of a mode say: a directory, a regular file or a link is each what its own
/// value of those bits says, and removing tells a directory and a link from everything else.
pub proof fn what_a_mode_says(m: Metadata)
    ensures
        m.dir() <==> m.mode_bits & sys::S_IFMT == sys::S_IFDIR,
        m.regular() <==> m.mode_bits & sys::S_IFMT == sys::S_IFREG,
        m.kind() is Directory <==> m.mode_bits & sys::S_IFMT == sys::S_IFDIR,
        m.kind() is Link <==> m.mode_bits & sys::S_IFMT == sys::S_IFLNK,
{
}

/// Nothing is both a directory and a regular file.
pub proof fn directory_or_file(m: Metadata)
    ensures
        !(m.dir() && m.regular()),
{
}

/// What `stat` found, or why it found nothing.
pub fn metadata(returned: i32, errno: Errno, found: Metadata) -> (r: Result<Metadata, Error>)
    ensures
        match r {
            Ok(m) => returned == 0 && m == found,
            Err(e) => returned != 0 && e@ == failure(errno, "stat"@),
        },
{
    match status(returned, errno, "stat") {
        Ok(_) => Ok(found),
        Err(e) => Err(e),
    }
}

/// What `lstat` found: what the **name** is, rather than what it points at.
///
/// The difference is the whole of the hazard in a recursive delete. A symlink to a directory
/// answers `is_dir` under `stat` and is not one.
pub fn symlink_metadata(returned: i32, errno: Errno, found: Metadata) -> (r: Result<
    Metadata,
    Error,
>)
    ensures
        match r {
            Ok(m) => returned == 0 && m == found,
            Err(e) => returned != 0 && e@ == failure(errno, "lstat"@),
        },
{
    match status(returned, errno, "lstat") {
        Ok(_) => Ok(found),
        Err(e) => Err(e),
    }
}

/// Whether a name that was asked about is a directory. One that cannot be asked about is not.
pub fn is_dir(found: &Result<Metadata, Error>) -> (r: bool)
    ensures
        r == (found matches Ok(m) && m.dir()),
{
    match found {
        Ok(m) => m.is_dir(),
        Err(_) => false,
    }
}

/// Whether a name that was asked about is a regular file. One that cannot be asked about is not.
pub fn is_file(found: &Result<Metadata, Error>) -> (r: bool)
    ensures
        r == (found matches Ok(m) && m.regular()),
{
    match found {
        Ok(m) => m.is_file(),
        Err(_) => false,
    }
}

/// The absolute path `realpath` wrote, if it found one.
pub fn canonicalize(resolved: Option<Vec<u8>>, errno: Errno) -> (r: Result<PathBuf, Error>)
    ensures
        match resolved {
            Some(buf) => r matches Ok(p) && p@ == bytes::until(buf@, 0),
            None => r matches Err(e) && e@ == failure(errno, "realpath"@),
        },
{
    match resolved {
        None => Err(Error::from_errno(errno, "realpath")),
        Some(buf) => {
            let mut buf = buf;
            let ghost before = buf@;
            proof {
                bytes::lemma_first_of(before, 0);
            }
            match bytes::position(buf.as_slice(), 0) {
                Some(end) => {
                    buf.truncate(end);
                    assert(buf@ =~= before.take(end as int));
                },
                None => {},
            }
            Ok(PathBuf::from_bytes(buf))
        },
    }
}

/// Where a symbolic link points, from how much `readlink` wrote.
pub fn read_link(n: isize, buf: Vec<u8>, errno: Errno) -> (r: Result<PathBuf, Error>)
    requires
        n <= buf@.len(),
    ensures
        match r {
            Ok(p) => n >= 0 && p@ == buf@.take(n as int),
            Err(e) => n < 0 && e@ == failure(errno, "readlink"@),
        },
{
    if n < 0 {
        return Err(Error::from_errno(errno, "readlink"));
    }
    let mut out = buf;
    out.truncate(n as usize);
    assert(out@ =~= buf@.take(n as int));
    Ok(PathBuf::from_bytes(out))
}

/// Whether a hard link was created.
pub fn hard_link(returned: i32, errno: Errno) -> (r: Result<(), Error>)
    ensures
        match r {
            Ok(_) => returned == 0,
            Err(e) => returned != 0 && e@ == failure(errno, "link"@),
        },
{
    status(returned, errno, "link")
}

/// Whether a file was renamed.
pub fn rename(returned: i32, errno: Errno) -> (r: Result<(), Error>)
    ensures
        match r {
            Ok(_) => returned == 0,
            Err(e) => returned != 0 && e@ == failure(errno, "rename"@),
        },
{
    status(returned, errno, "rename")
}

/// Make a path absolute without touching the filesystem, given the working directory.
///
/// Symlinks, `.` and `..` are left in place.
pub fn absolute(p: Path<'_>, cwd: Option<Vec<u8>>, errno: Errno) -> (r: Result<PathBuf, Error>)
    ensures
        if path::absolute_of(p@) {
            r matches Ok(q) && q@ == p@
        } else {
            match cwd {
                Some(d) => r matches Ok(q) && q@ == path::join_of(d@, p@),
                None => r matches Err(e) && e@ == failure(errno, "getcwd"@),
            }
        },
{
    if p.is_absolute() {
        return Ok(p.to_path_buf());
    }
    match cwd {
        None => Err(Error::no_cwd(errno)),
        Some(d) => {
            let mut out = PathBuf::from_bytes(d);
            out.push(p);
            Ok(out)
        },
    }
}

/// Whatever path is made absolute from an absolute working directory is absolute.
pub proof fn absolute_is_absolute(p: Seq<u8>, cwd: Seq<u8>)
    requires
        path::absolute_of(cwd),
    ensures
        path::absolute_of(path::join_of(cwd, p)),
{
}

// ---------------------------------------------------------------------------------------------
// Directories.
// ---------------------------------------------------------------------------------------------

/// The directories on the way to `p`, from the outermost in: each of its parts joined onto the
/// one before, starting at the root when the path does.
pub open spec fn way_to(p: Seq<u8>) -> Seq<Seq<u8>> {
    let parts = path::parts_of(p);
    Seq::new(parts.len(), |k: int| path::join_all_of(way_start(p), parts.take(k + 1)))
}

/// Where the way to `p` starts.
pub open spec fn way_start(p: Seq<u8>) -> Seq<u8> {
    if path::absolute_of(p) {
        path::root()
    } else {
        Seq::empty()
    }
}

/// The directories that are being made on the way to a path.
#[verifier::ext_equal]
pub struct Making {
    /// Every directory on the way, outermost first.
    pub way: Seq<Seq<u8>>,
    /// How many of the names are there.
    pub there: nat,
    /// Why the next one could not be made.
    pub failed: Option<ErrorView>,
}

impl Making {
    /// The directory to make next, unless all names are there or one could not be made.
    pub open spec fn upcoming(self) -> Option<Seq<u8>> {
        if self.failed is None && self.there < self.way.len() {
            Some(self.way[self.there as int])
        } else {
            None
        }
    }

    /// Where it stands once `mkdir` has returned. A name that is already there is as good as one
    /// that was made; any other failure is the end.
    pub open spec fn step(self, returned: i32, errno: Errno) -> Making {
        if self.upcoming() is None {
            self
        } else if name_is_there(returned, errno) {
            Making { there: self.there + 1, ..self }
        } else {
            Making { failed: Some(failure(errno, "mkdir"@)), ..self }
        }
    }
}

/// Whether the name is there after `mkdir` has returned: a directory that was made, or whatever has
/// the name already, which need not be a directory.
pub open spec fn name_is_there(returned: i32, errno: Errno) -> bool {
    returned == 0 || errno.0 == sys::EEXIST
}

/// A path and its missing parents being made.
pub struct MakeDirs {
    way: Vec<Vec<u8>>,
    there: usize,
    failed: Option<Error>,
}

impl View for MakeDirs {
    type V = Making;

    closed spec fn view(&self) -> Making {
        Making {
            way: bytes::owned_views(self.way@).map_values(|c: Seq<u8>| c.drop_last()),
            there: self.there as nat,
            failed: match self.failed {
                Some(e) => Some(e@),
                None => None,
            },
        }
    }
}

impl MakeDirs {
    /// What is to be made ends in its NUL, and no more is there than is to be made, or fewer
    /// where one could not be.
    #[verifier::type_invariant]
    spec fn well_formed(self) -> bool {
        &&& self.there <= self.way@.len()
        &&& self.failed is Some ==> self.there < self.way@.len()
        &&& forall|k: int|
            0 <= k < self.way@.len() ==> (#[trigger] self.way@[k])@.len() > 0
                && self.way@[k]@.last() == 0
    }

    /// Begin, with the NUL-terminated directories on a way.
    fn new(way: Vec<Vec<u8>>, Ghost(dirs): Ghost<Seq<Seq<u8>>>) -> (r: MakeDirs)
        requires
            bytes::owned_views(way@) == dirs.map_values(|d: Seq<u8>| d.push(0)),
        ensures
            r@ == (Making { way: dirs, there: 0, failed: None }),
    {
        proof {
            let ended = dirs.map_values(|d: Seq<u8>| d.push(0));
            assert(bytes::owned_views(way@) =~= ended);
            assert(ended.len() == dirs.len());
            assert forall|k: int| 0 <= k < way@.len() implies (#[trigger] way@[k])@ == dirs[k].push(
                0,
            ) by {
                assert(bytes::owned_views(way@)[k] == way@[k]@);
                assert(ended[k] == dirs[k].push(0));
            }
        }
        let r = MakeDirs { way, there: 0, failed: None };
        proof {
            assert forall|k: int| 0 <= k < dirs.len() implies (#[trigger] r@.way[k]) == dirs[k] by {
                assert(way@[k]@ == dirs[k].push(0));
                assert(dirs[k].push(0).drop_last() =~= dirs[k]);
            }
            assert(r@.way =~= dirs);
        }
        r
    }

    /// The directory to `mkdir` next, NUL-terminated.
    pub fn todo(&self) -> (r: Option<&[u8]>)
        ensures
            match self@.upcoming() {
                Some(d) => r matches Some(c) && c@ == d.push(0),
                None => r is None,
            },
    {
        proof {
            use_type_invariant(self);
        }
        if self.failed.is_none() && self.there < self.way.len() {
            let c = self.way[self.there].as_slice();
            assert(self@.way[self.there as int] == c@.drop_last());
            assert(c@ =~= c@.drop_last().push(0));
            Some(c)
        } else {
            None
        }
    }

    /// Take what `mkdir` returned.
    pub fn step(&mut self, returned: i32, errno: Errno)
        ensures
            final(self)@ == old(self)@.step(returned, errno),
    {
        proof {
            use_type_invariant(&*self);
        }
        if self.failed.is_none() && self.there < self.way.len() {
            match made_dir(returned, errno) {
                Ok(_) => {
                    self.there = self.there + 1;
                },
                Err(e) => {
                    self.failed = Some(e);
                },
            }
        }
    }

    /// Whether every name on the way is there, or why one could not be made, once there is none to
    /// make next.
    pub fn finish(self) -> (r: Result<(), Error>)
        requires
            self@.upcoming() is None,
        ensures
            r is Ok <==> self@.there == self@.way.len(),
            match self@.failed {
                Some(e) => r matches Err(f) && f@ == e,
                None => r is Ok,
            },
    {
        proof {
            use_type_invariant(&self);
        }
        match self.failed {
            Some(e) => Err(e),
            None => Ok(()),
        }
    }
}

/// Where it stands after `mkdir` has returned so often.
pub open spec fn made(s: Making, feed: Seq<(i32, Errno)>) -> Making
    decreases feed.len(),
{
    if feed.len() == 0 {
        s
    } else {
        made(s, feed.drop_last()).step(feed.last().0, feed.last().1)
    }
}

/// Directories are made from the outermost in, each only once all names before it are there. The
/// first failure other than that a name is already there is the end: it is what is reported, and
/// nothing below it is made, whatever were to come.
pub proof fn nothing_is_made_below_a_failure(
    way: Seq<Seq<u8>>,
    feed: Seq<(i32, Errno)>,
    k: int,
    n: int,
)
    requires
        0 <= k < way.len(),
        k < n <= feed.len(),
        forall|j: int| 0 <= j < k ==> name_is_there((#[trigger] feed[j]).0, feed[j].1),
    ensures
        made(Making { way, there: 0, failed: None }, feed.take(k)).upcoming() == Some(way[k]),
        !name_is_there(feed[k].0, feed[k].1) ==> {
            let end = made(Making { way, there: 0, failed: None }, feed.take(n));
            &&& end.there == k
            &&& end.failed == Some(failure(feed[k].1, "mkdir"@))
            &&& end.upcoming() is None
        },
    decreases n,
{
    let start = Making { way, there: 0, failed: None };
    lemma_all_there(start, feed, k);
    if !name_is_there(feed[k].0, feed[k].1) {
        assert(feed.take(n).drop_last() =~= feed.take(n - 1));
        assert(feed.take(n).last() == feed[n - 1]);
        if n > k + 1 {
            nothing_is_made_below_a_failure(way, feed, k, n - 1);
        }
    }
}

/// Where no `mkdir` so far failed, so many names are there.
proof fn lemma_all_there(start: Making, feed: Seq<(i32, Errno)>, k: int)
    requires
        start.there == 0,
        start.failed is None,
        0 <= k <= feed.len(),
        k <= start.way.len(),
        forall|j: int| 0 <= j < k ==> name_is_there((#[trigger] feed[j]).0, feed[j].1),
    ensures
        made(start, feed.take(k)) == (Making { there: k as nat, ..start }),
    decreases k,
{
    if k > 0 {
        lemma_all_there(start, feed, k - 1);
        assert(feed.take(k).drop_last() =~= feed.take(k - 1));
        assert(feed.take(k).last() == feed[k - 1]);
    }
}

/// When nothing fails, every name on the way is there in the end, that of the path itself last.
pub proof fn the_whole_way_is_made(way: Seq<Seq<u8>>, feed: Seq<(i32, Errno)>)
    requires
        feed.len() == way.len(),
        forall|j: int| 0 <= j < feed.len() ==> name_is_there((#[trigger] feed[j]).0, feed[j].1),
    ensures
        made(Making { way, there: 0, failed: None }, feed) == (Making {
            way,
            there: way.len(),
            failed: None,
        }),
{
    lemma_all_there(Making { way, there: 0, failed: None }, feed, feed.len() as int);
    assert(feed.take(feed.len() as int) =~= feed);
}

/// One `mkdir` takes one name: the next one on the way, and the one after it once that is there. One
/// that fails is the end, with its own reason, and at the end nothing changes any more.
pub proof fn one_name_at_a_time(m: Making, returned: i32, errno: Errno)
    ensures
        m.failed is None && m.there < m.way.len() ==> m.upcoming() == Some(m.way[m.there as int]),
        m.failed is Some || m.there >= m.way.len() ==> m.upcoming() is None && m.step(
            returned,
            errno,
        ) == m,
        m.upcoming() is Some && (returned == 0 || errno.0 == sys::EEXIST) ==> m.step(returned, errno)
            == (Making { way: m.way, there: m.there + 1, failed: None }),
        m.upcoming() is Some && returned != 0 && errno.0 != sys::EEXIST ==> m.step(returned, errno)
            == (Making {
            way: m.way,
            there: m.there,
            failed: Some(failure(errno, "mkdir"@)),
        }),
{
}

/// Start making a directory and its missing parents, succeeding if it is already there.
pub fn create_dir_all(p: Path<'_>) -> (r: MakeDirs)
    ensures
        r@ == (Making { way: way_to(p@), there: 0, failed: None }),
{
    MakeDirs::new(parts_on_the_way(p), Ghost(way_to(p@)))
}

/// The directories to make for `p` and all its parents to exist, outermost first, each
/// NUL-terminated for `mkdir`.
fn parts_on_the_way(p: Path<'_>) -> (r: Vec<Vec<u8>>)
    ensures
        bytes::owned_views(r@) == way_to(p@).map_values(|d: Seq<u8>| d.push(0)),
{
    let sep: u8 = path::MAIN_SEPARATOR_BYTE;
    let parts = p.parts();
    let ghost names = path::parts_of(p@);
    let ghost goal = way_to(p@).map_values(|d: Seq<u8>| d.push(0));
    let mut out: Vec<Vec<u8>> = Vec::new();
    let mut at: Vec<u8> = Vec::new();
    if p.is_absolute() {
        at.push(sep);
        assert(at@ =~= path::root());
    }
    let mut i: usize = 0;
    assert(names.take(0).len() == 0);
    while i < parts.len()
        invariant
            i <= parts.len(),
            sep == path::MAIN_SEPARATOR_BYTE,
            bytes::views(parts@) == names,
            names == path::parts_of(p@),
            goal == way_to(p@).map_values(|d: Seq<u8>| d.push(0)),
            at@ == path::join_all_of(way_start(p@), names.take(i as int)),
            i == 0 ==> at@ == way_start(p@),
            i > 0 ==> at@.len() > 0 && at@.last() != sep,
            out@.len() == i,
            forall|k: int| 0 <= k < i ==> (#[trigger] out@[k])@ == goal[k],
        decreases parts.len() - i,
    {
        let part = parts[i];
        let ghost before = at@;
        proof {
            assert(bytes::views(parts@)[i as int] == part@);
            bytes::fields_are_clean(p@, sep, i as int);
            assert(part@.contains(part@[0]));
            assert(part@.contains(part@.last()));
            assert(names.take(i + 1).drop_last() =~= names.take(i as int));
            assert(names.take(i + 1).last() == part@);
        }
        if at.len() > 1 || (at.len() == 1 && at[0] != sep) {
            at.push(sep);
            assert(at@ =~= before + path::root());
        }
        bytes::extend(&mut at, part);
        proof {
            assert(at@ =~= path::join_of(before, part@));
            assert(at@.last() == part@.last());
        }
        out.push(bytes::nul_terminated(at.as_slice()));
        i = i + 1;
    }
    assert(bytes::owned_views(out@) =~= goal);
    out
}

/// The way to a path takes one of its parts at a time, from where the path starts, and so ends at
/// the path itself.
pub proof fn the_way_takes_one_part_at_a_time(p: Seq<u8>, k: int)
    requires
        0 <= k < path::parts_of(p).len(),
    ensures
        way_to(p).len() == path::parts_of(p).len(),
        path::components_of(way_to(p)[k]) == path::components_of(way_start(p)) + path::parts_of(
            p,
        ).take(k + 1),
{
    let here = path::parts_of(p).take(k + 1);
    assert forall|j: int| 0 <= j < here.len() implies path::clean(#[trigger] here[j]) by {
        bytes::fields_are_clean(p, path::MAIN_SEPARATOR_BYTE, j);
    }
    laws::join_all_appends_parts(way_start(p), here);
}

/// The way to a path, byte for byte: its first part, after the root where the path begins there,
/// and then each time one separator and the next part.
pub proof fn the_way_is_byte_for_byte(p: Seq<u8>, k: int)
    requires
        0 <= k < path::parts_of(p).len(),
    ensures
        way_to(p).len() == path::parts_of(p).len(),
        way_to(p)[0] == (if p[0] == path::MAIN_SEPARATOR_BYTE {
            seq![path::MAIN_SEPARATOR_BYTE] + path::parts_of(p)[0]
        } else {
            path::parts_of(p)[0]
        }),
        k > 0 ==> way_to(p)[k] == way_to(p)[k - 1].push(path::MAIN_SEPARATOR_BYTE) + path::parts_of(
            p,
        )[k],
        way_to(p)[k].last() != path::MAIN_SEPARATOR_BYTE,
    decreases k,
{
    let parts = path::parts_of(p);
    let here = parts.take(k + 1);
    bytes::fields_are_clean(p, path::MAIN_SEPARATOR_BYTE, k);
    assert(here.drop_last() =~= parts.take(k));
    assert(parts[k].contains(parts[k][0]));
    assert(parts[k].contains(parts[k].last()));
    if k > 0 {
        the_way_is_byte_for_byte(p, k - 1);
        laws::a_join_is_byte_for_byte(way_to(p)[k - 1], parts[k]);
        assert(way_to(p)[k - 1].len() > 0) by {
            the_way_takes_one_part_at_a_time(p, k - 1);
            if way_to(p)[k - 1].len() == 0 {
                assert(path::components_of(way_to(p)[k - 1]).len() == 0);
            }
        }
    } else {
        laws::a_join_is_byte_for_byte(way_start(p), parts[0]);
        assert(path::join_all_of(way_start(p), parts.take(0)) == way_start(p));
        assert(p.len() > 0);
    }
}

/// A name that is there after `mkdir` was made by it, or was there before.
pub proof fn a_name_is_there_or_is_not(returned: i32, errno: Errno)
    ensures
        name_is_there(returned, errno) <==> returned == 0 || errno.0 == sys::EEXIST,
{
}

/// Whether one `mkdir` on the way succeeded. A name that is already there is a success.
pub fn made_dir(returned: i32, errno: Errno) -> (r: Result<(), Error>)
    ensures
        match r {
            Ok(_) => name_is_there(returned, errno),
            Err(e) => !name_is_there(returned, errno) && e@ == failure(errno, "mkdir"@),
        },
        r is Ok <==> returned == 0 || errno.0 == sys::EEXIST,
{
    if returned != 0 && errno.0 != sys::errnos().eexist {
        return Err(Error::from_errno(errno, "mkdir"));
    }
    Ok(())
}

/// Whether a directory entry is the directory itself or its parent.
pub open spec fn dots(name: Seq<u8>) -> bool {
    name == seq![path::DOT] || name == seq![path::DOT, path::DOT]
}

/// Whether a directory entry is the directory itself or its parent.
pub fn is_dots(name: &[u8]) -> (r: bool)
    ensures
        r == dots(name@),
        r <==> (name@.len() == 1 && name@[0] == path::DOT) || (name@.len() == 2 && name@[0]
            == path::DOT && name@[1] == path::DOT),
{
    let dot: u8 = path::DOT;
    if name.len() == 1 {
        assert(name@ =~= seq![name@[0]]);
        name[0] == dot
    } else if name.len() == 2 {
        assert(name@ =~= seq![name@[0], name@[1]]);
        assert(seq![dot, dot][0] == dot && seq![dot, dot][1] == dot);
        name[0] == dot && name[1] == dot
    } else {
        assert(seq![dot].len() == 1 && seq![dot, dot].len() == 2);
        false
    }
}

/// The names in a directory, being listed.
pub struct Listing {
    dir: PathBuf,
    out: Vec<PathBuf>,
}

/// The bytes of a list of paths.
pub open spec fn path_views(v: Seq<PathBuf>) -> Seq<Seq<u8>> {
    Seq::new(v.len(), |i: int| v[i]@)
}

/// What a directory lists, as paths: each name joined onto it, without `.` and `..`.
pub open spec fn listed(dir: Seq<u8>, names: Seq<Seq<u8>>) -> Seq<Seq<u8>>
    decreases names.len(),
{
    if names.len() == 0 {
        seq![]
    } else {
        let front = listed(dir, names.drop_last());
        if dots(names.last()) {
            front
        } else {
            front.push(path::join_of(dir, names.last()))
        }
    }
}

impl Listing {
    /// The directory.
    pub closed spec fn dir(&self) -> Seq<u8> {
        self.dir@
    }

    /// The paths so far.
    pub closed spec fn paths(&self) -> Seq<Seq<u8>> {
        path_views(self.out@)
    }

    /// Start listing, if the directory could be opened.
    pub fn start(dir: Path<'_>, opened: bool, errno: Errno) -> (r: Result<Listing, Error>)
        ensures
            if opened {
                r matches Ok(l) && l.dir() == dir@ && l.paths() == listed(dir@, seq![])
                    && l.paths().len() == 0
            } else {
                r matches Err(e) && e@ == failure(errno, "opendir"@)
            },
    {
        if !opened {
            return Err(Error::from_errno(errno, "opendir"));
        }
        let l = Listing { dir: dir.to_path_buf(), out: Vec::new() };
        assert(l.paths() =~= listed(dir@, seq![]));
        Ok(l)
    }

    /// Take one name. `.` and `..` are not listed.
    pub fn entry(&mut self, name: &[u8])
        ensures
            final(self).dir() == old(self).dir(),
            final(self).paths() == (if dots(name@) {
                old(self).paths()
            } else {
                old(self).paths().push(path::join_of(old(self).dir(), name@))
            }),
            if name@ == seq![path::DOT] || name@ == seq![path::DOT, path::DOT] {
                final(self).paths() == old(self).paths()
            } else {
                final(self).paths() == old(self).paths().push(
                    path::join_of(old(self).dir(), name@),
                )
            },
    {
        proof {
            only_the_dot_names_are_left_out(name@);
        }
        if is_dots(name) {
            return;
        }
        let ghost before = self.paths();
        let p = self.dir.as_path().join(name);
        self.out.push(p);
        assert(self.paths() =~= before.push(path::join_of(old(self).dir(), name@)));
    }

    /// The paths, in the order the names came.
    pub fn into_paths(self) -> (r: Vec<PathBuf>)
        ensures
            path_views(r@) == self.paths(),
    {
        self.out
    }
}

/// The names that are not listed are `.` and `..`, and no others: not a name that begins with a
/// dot, however long, nor any other.
pub proof fn only_the_dot_names_are_left_out(name: Seq<u8>)
    ensures
        dots(name) <==> name == seq![path::DOT] || name == seq![path::DOT, path::DOT],
        dots(name) <==> (name.len() == 1 && name[0] == path::DOT) || (name.len() == 2 && name[0]
            == path::DOT && name[1] == path::DOT),
        name.len() == 0 || name.len() > 2 ==> !dots(name),
{
    if name.len() == 1 {
        assert(name =~= seq![name[0]]);
        assert(seq![path::DOT][0] == path::DOT);
    } else if name.len() == 2 {
        assert(name =~= seq![name[0], name[1]]);
        assert(seq![path::DOT, path::DOT][0] == path::DOT);
        assert(seq![path::DOT, path::DOT][1] == path::DOT);
    }
    assert(seq![path::DOT].len() == 1 && seq![path::DOT, path::DOT].len() == 2);
}

/// A directory lists each of its names but `.` and `..`, in their order, as the directory joined
/// with the name, and a name that is not listed changes nothing.
pub proof fn every_other_name_is_listed(dir: Seq<u8>, names: Seq<Seq<u8>>, name: Seq<u8>)
    ensures
        listed(dir, Seq::empty()) == Seq::<Seq<u8>>::empty(),
        listed(dir, names.push(name)) == (if name == seq![path::DOT] || name == seq![
            path::DOT,
            path::DOT,
        ] {
            listed(dir, names)
        } else {
            listed(dir, names).push(path::join_of(dir, name))
        }),
{
    only_the_dot_names_are_left_out(name);
    assert(names.push(name).drop_last() =~= names);
}

/// The bytes of a list of paths are those of each, in its place.
pub proof fn each_path_in_its_place(v: Seq<PathBuf>)
    ensures
        path_views(v).len() == v.len(),
        forall|i: int| 0 <= i < v.len() ==> (#[trigger] path_views(v)[i]) == v[i]@,
{
}

/// Taking names one at a time lists them all.
pub proof fn listing_takes_names_in_order(dir: Seq<u8>, names: Seq<Seq<u8>>, name: Seq<u8>)
    ensures
        listed(dir, names.push(name)) == (if dots(name) {
            listed(dir, names)
        } else {
            listed(dir, names).push(path::join_of(dir, name))
        }),
{
    assert(names.push(name).drop_last() =~= names);
}

// ---------------------------------------------------------------------------------------------
// Standard streams.
// ---------------------------------------------------------------------------------------------

/// A borrowed standard stream.
#[derive(Copy, Clone, PartialEq, Eq, Structural, Debug)]
pub struct Stream {
    fd: i32,
}

impl Stream {
    /// The descriptor.
    pub closed spec fn descriptor(&self) -> i32 {
        self.fd
    }

    /// The descriptor to write to.
    pub fn raw(&self) -> (r: i32)
        ensures
            r == self.descriptor(),
    {
        self.fd
    }

    /// Start writing all of `bytes`.
    pub fn write_all<'a>(&self, bytes: &'a [u8]) -> (r: WriteFd<'a>)
        ensures
            r.left() == bytes@,
    {
        write_fd(bytes)
    }

    /// Whether this stream is a terminal, from what `isatty` returned.
    pub fn is_terminal(&self, returned: i32) -> (r: bool)
        ensures
            r == (returned == 1),
    {
        is_terminal(returned)
    }

    /// A no-op: nothing here buffers.
    pub fn flush(&mut self) -> (r: Result<(), Error>)
        ensures
            r is Ok,
            *final(self) == *old(self),
    {
        Ok(())
    }
}

/// Standard output.
pub fn stdout() -> (r: Stream)
    ensures
        r.descriptor() == 1,
{
    Stream { fd: 1 }
}

/// Standard error.
pub fn stderr() -> (r: Stream)
    ensures
        r.descriptor() == 2,
{
    Stream { fd: 2 }
}

} // verus!
