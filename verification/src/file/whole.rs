//! Whole files: reading one, writing one, copying one.

use vstd::prelude::*;
use vstd::slice::slice_subrange;

use crate::file;
use crate::file::{
    Error, ErrorView, File, OpenCall, Opening, ReadToEnd, ReadToEndStep, WriteAll, WriteStep,
};
use crate::path::{Path, PathBuf};
use crate::sys;
use crate::Errno;

verus! {

/// The next call.
pub enum Call<'a> {
    /// Open a file.
    Open(OpenCall),
    /// Read from this descriptor.
    Read(i32),
    /// Write this to this descriptor.
    Write(i32, &'a [u8]),
    /// Nothing: it is over.
    Nothing,
}

/// Whether a call opens a path in a given way.
pub open spec fn opens(call: Call<'_>, path: Seq<u8>, how: Opening) -> bool {
    call matches Call::Open(c) && c.path@ == path.push(0) && c.flags == how.flags_of() && c.mode
        == how.mode_of()
}

// ---------------------------------------------------------------------------------------------
// Reading.
// ---------------------------------------------------------------------------------------------

/// Where reading a whole file stands.
pub enum Reading {
    /// About to open it.
    Open(Seq<u8>),
    /// Reading from the descriptor, with this much read.
    From { fd: i32, got: Seq<u8> },
    /// All of it was read.
    Done(Seq<u8>),
    /// It failed.
    Failed(ErrorView),
}

impl Reading {
    /// Where it stands once the file was opened, or was not.
    pub open spec fn after_open(self, fd: i32, errno: Errno) -> Reading {
        match self {
            Reading::Open(_) => if fd < 0 {
                Reading::Failed(file::failure(errno, "open"@))
            } else {
                Reading::From { fd, got: Seq::empty() }
            },
            _ => self,
        }
    }

    /// Where it stands after one `read` into `chunk`.
    pub open spec fn after_read(self, n: int, errno: Errno, chunk: Seq<u8>) -> Reading {
        match self {
            Reading::From { fd, got } => if n > 0 {
                Reading::From { fd, got: got + chunk.take(n) }
            } else if n == 0 {
                Reading::Done(got)
            } else if errno.0 == sys::EINTR {
                self
            } else {
                Reading::Failed(file::failure(errno, "read"@))
            },
            _ => self,
        }
    }
}

/// Where reading a whole file stands.
enum ReadAt {
    Open(PathBuf),
    From(File, ReadToEnd),
    Done(Vec<u8>),
    Failed(Error),
}

/// A whole file being read.
pub struct ReadFile {
    at: ReadAt,
}

impl View for ReadFile {
    type V = Reading;

    closed spec fn view(&self) -> Reading {
        match self.at {
            ReadAt::Open(p) => Reading::Open(p@),
            ReadAt::From(f, r) => Reading::From { fd: f.descriptor(), got: r.contents() },
            ReadAt::Done(v) => Reading::Done(v@),
            ReadAt::Failed(e) => Reading::Failed(e@),
        }
    }
}

impl ReadFile {
    /// Start reading a whole file.
    pub fn new(path: Path<'_>) -> (r: ReadFile)
        ensures
            r@ == Reading::Open(path@),
    {
        ReadFile { at: ReadAt::Open(path.to_path_buf()) }
    }

    /// The next call.
    pub fn call(&self) -> (r: Call<'_>)
        ensures
            match self@ {
                Reading::Open(p) => opens(r, p, Opening::Open),
                Reading::From { fd, .. } => r matches Call::Read(d) && d == fd,
                _ => r is Nothing,
            },
    {
        match &self.at {
            ReadAt::Open(p) => Call::Open(Opening::Open.call(p.as_path())),
            ReadAt::From(f, _) => Call::Read(f.raw()),
            ReadAt::Done(_) => Call::Nothing,
            ReadAt::Failed(_) => Call::Nothing,
        }
    }

    /// Take what `open` returned.
    pub fn opened(&mut self, fd: i32, errno: Errno)
        ensures
            final(self)@ == old(self)@.after_open(fd, errno),
    {
        let mut at = ReadAt::Done(Vec::new());
        std::mem::swap(&mut at, &mut self.at);
        self.at = match at {
            ReadAt::Open(_) => match File::open(fd, errno) {
                Ok(f) => {
                    let rest = f.read_to_end(Vec::new());
                    assert(rest.contents() =~= Seq::empty());
                    ReadAt::From(f, rest)
                },
                Err(e) => ReadAt::Failed(e),
            },
            other => other,
        };
    }

    /// Take the answer of one `read` into `chunk`.
    pub fn took(&mut self, n: isize, errno: Errno, chunk: &[u8])
        requires
            n <= chunk@.len(),
        ensures
            final(self)@ == old(self)@.after_read(n as int, errno, chunk@),
    {
        let mut at = ReadAt::Done(Vec::new());
        std::mem::swap(&mut at, &mut self.at);
        self.at = match at {
            ReadAt::From(f, rest) => {
                let mut rest = rest;
                match rest.step(n, errno, chunk) {
                    ReadToEndStep::More => ReadAt::From(f, rest),
                    ReadToEndStep::Done(_) => ReadAt::Done(rest.into_contents()),
                    ReadToEndStep::Failed(e) => ReadAt::Failed(e),
                }
            },
            other => other,
        };
    }

    /// The file's contents, or why there are none, once it is over.
    pub fn finish(self) -> (r: Option<Result<Vec<u8>, Error>>)
        ensures
            match self@ {
                Reading::Done(got) => r matches Some(Ok(v)) && v@ == got,
                Reading::Failed(e) => r matches Some(Err(f)) && f@ == e,
                _ => r is None,
            },
    {
        match self.at {
            ReadAt::Done(v) => Some(Ok(v)),
            ReadAt::Failed(e) => Some(Err(e)),
            _ => None,
        }
    }
}

// ---------------------------------------------------------------------------------------------
// Writing.
// ---------------------------------------------------------------------------------------------

/// Where writing a whole file stands.
pub enum Writing {
    /// About to create or truncate it.
    Create(Seq<u8>),
    /// Writing to the descriptor, with this left.
    To { fd: i32, left: Seq<u8> },
    /// It failed.
    Failed(ErrorView),
}

impl Writing {
    /// Where it stands once the file was opened, or was not.
    pub open spec fn after_open(self, fd: i32, errno: Errno, bytes: Seq<u8>) -> Writing {
        match self {
            Writing::Create(_) => if fd < 0 {
                Writing::Failed(file::failure(errno, "create"@))
            } else {
                Writing::To { fd, left: bytes }
            },
            _ => self,
        }
    }

    /// Where it stands after one `write` of what is left.
    pub open spec fn after_write(self, n: int, errno: Errno) -> Writing {
        match self {
            Writing::To { fd, left } => if n >= 0 {
                Writing::To { fd, left: left.skip(n) }
            } else if errno.0 == sys::EINTR {
                self
            } else {
                Writing::Failed(file::failure(errno, "write"@))
            },
            _ => self,
        }
    }
}

/// Where writing a whole file stands.
enum WriteAt<'a> {
    Create(PathBuf),
    To(File, WriteAll<'a>),
    Failed(Error),
}

/// A whole file being written, replacing it.
pub struct WriteFile<'a> {
    bytes: &'a [u8],
    at: WriteAt<'a>,
}

impl<'a> View for WriteFile<'a> {
    type V = Writing;

    closed spec fn view(&self) -> Writing {
        match self.at {
            WriteAt::Create(p) => Writing::Create(p@),
            WriteAt::To(f, w) => Writing::To { fd: f.descriptor(), left: w.left() },
            WriteAt::Failed(e) => Writing::Failed(e@),
        }
    }
}

impl<'a> WriteFile<'a> {
    /// What the file is to hold.
    pub closed spec fn contents(&self) -> Seq<u8> {
        self.bytes@
    }

    /// Start writing a whole file, replacing it.
    pub fn new(path: Path<'_>, bytes: &'a [u8]) -> (r: WriteFile<'a>)
        ensures
            r@ == Writing::Create(path@),
            r.contents() == bytes@,
    {
        WriteFile { bytes, at: WriteAt::Create(path.to_path_buf()) }
    }

    /// The next call.
    pub fn call(&self) -> (r: Call<'a>)
        ensures
            match self@ {
                Writing::Create(p) => opens(r, p, Opening::Create),
                Writing::To { fd, left } => if left.len() > 0 {
                    r matches Call::Write(d, b) && d == fd && b@ == left
                } else {
                    r is Nothing
                },
                Writing::Failed(_) => r is Nothing,
            },
    {
        match &self.at {
            WriteAt::Create(p) => Call::Open(Opening::Create.call(p.as_path())),
            WriteAt::To(f, w) => {
                let rest = w.rest();
                if rest.len() > 0 {
                    Call::Write(f.raw(), rest)
                } else {
                    Call::Nothing
                }
            },
            WriteAt::Failed(_) => Call::Nothing,
        }
    }

    /// Take what `open` returned.
    pub fn opened(&mut self, fd: i32, errno: Errno)
        ensures
            final(self)@ == old(self)@.after_open(fd, errno, old(self).contents()),
            final(self).contents() == old(self).contents(),
    {
        let create = match &self.at {
            WriteAt::Create(_) => true,
            _ => false,
        };
        if create {
            self.at = match File::create(fd, errno) {
                Ok(f) => {
                    let all = f.write_all(self.bytes);
                    WriteAt::To(f, all)
                },
                Err(e) => WriteAt::Failed(e),
            };
        }
    }

    /// Take the answer of one `write` of what is left.
    pub fn wrote(&mut self, n: isize, errno: Errno)
        requires
            old(self)@ matches Writing::To { left, .. } ==> n <= left.len(),
        ensures
            final(self)@ == old(self)@.after_write(n as int, errno),
            final(self).contents() == old(self).contents(),
    {
        let mut at = WriteAt::Create(PathBuf::new());
        std::mem::swap(&mut at, &mut self.at);
        self.at = match at {
            WriteAt::To(f, all) => {
                let mut all = all;
                match all.step(n, errno) {
                    WriteStep::More => WriteAt::To(f, all),
                    WriteStep::Failed(e) => WriteAt::Failed(e),
                }
            },
            other => other,
        };
    }

    /// Whether it was written, once it is over.
    pub fn finish(self) -> (r: Option<Result<(), Error>>)
        ensures
            match self@ {
                Writing::To { left, .. } => if left.len() == 0 {
                    r matches Some(Ok(_))
                } else {
                    r is None
                },
                Writing::Failed(e) => r matches Some(Err(f)) && f@ == e,
                Writing::Create(_) => r is None,
            },
    {
        match self.at {
            WriteAt::To(_, all) => if all.rest().len() == 0 {
                Some(Ok(()))
            } else {
                None
            },
            WriteAt::Failed(e) => Some(Err(e)),
            WriteAt::Create(_) => None,
        }
    }
}

// ---------------------------------------------------------------------------------------------
// Copying.
// ---------------------------------------------------------------------------------------------

/// Where copying a file stands.
pub enum Copying {
    /// Reading the source.
    Read(Reading),
    /// About to create or truncate the destination.
    Create(Seq<u8>),
    /// Writing to the descriptor, with this many of the bytes written.
    To { fd: i32, bytes: Seq<u8>, written: int },
    /// It failed.
    Failed(ErrorView),
}

/// On to the destination, once the source has been read.
pub open spec fn read_on(r: Reading) -> Copying {
    match r {
        Reading::Done(got) => Copying::Create(got),
        Reading::Failed(e) => Copying::Failed(e),
        other => Copying::Read(other),
    }
}

impl Copying {
    /// Where it stands once a file was opened, or was not.
    pub open spec fn after_open(self, fd: i32, errno: Errno) -> Copying {
        match self {
            Copying::Read(r) => read_on(r.after_open(fd, errno)),
            Copying::Create(bytes) => if fd < 0 {
                Copying::Failed(file::failure(errno, "create"@))
            } else {
                Copying::To { fd, bytes, written: 0 }
            },
            _ => self,
        }
    }

    /// Where it stands after one `read` into `chunk`.
    pub open spec fn after_read(self, n: int, errno: Errno, chunk: Seq<u8>) -> Copying {
        match self {
            Copying::Read(r) => read_on(r.after_read(n, errno, chunk)),
            _ => self,
        }
    }

    /// Where it stands after one `write` of what is left.
    pub open spec fn after_write(self, n: int, errno: Errno) -> Copying {
        match self {
            Copying::To { fd, bytes, written } => if n >= 0 {
                Copying::To { fd, bytes, written: written + n }
            } else if errno.0 == sys::EINTR {
                self
            } else {
                Copying::Failed(file::failure(errno, "write"@))
            },
            _ => self,
        }
    }
}

/// Where copying a file stands.
enum CopyAt {
    Read(ReadFile),
    Create(Vec<u8>),
    To(File, Vec<u8>, usize),
    Failed(Error),
}

/// A file's contents being copied, creating or truncating the destination.
///
/// Contents only: permissions, times and other attributes are not carried over.
pub struct CopyFile {
    to: PathBuf,
    at: CopyAt,
}

impl View for CopyFile {
    type V = Copying;

    closed spec fn view(&self) -> Copying {
        match self.at {
            CopyAt::Read(r) => Copying::Read(r@),
            CopyAt::Create(v) => Copying::Create(v@),
            CopyAt::To(f, v, n) => Copying::To {
                fd: f.descriptor(),
                bytes: v@,
                written: n as int,
            },
            CopyAt::Failed(e) => Copying::Failed(e@),
        }
    }
}

/// On to the destination, once the source has been read.
fn then_create(r: ReadFile) -> (c: CopyAt)
    ensures
        match r@ {
            Reading::Done(got) => c matches CopyAt::Create(v) && v@ == got,
            Reading::Failed(e) => c matches CopyAt::Failed(f) && f@ == e,
            other => c matches CopyAt::Read(q) && q@ == other,
        },
{
    match r.at {
        ReadAt::Done(v) => CopyAt::Create(v),
        ReadAt::Failed(e) => CopyAt::Failed(e),
        _ => CopyAt::Read(r),
    }
}

impl CopyFile {
    /// Where it is copied to.
    pub closed spec fn destination(&self) -> Seq<u8> {
        self.to@
    }

    /// Start copying a file's contents.
    pub fn new(from: Path<'_>, to: Path<'_>) -> (r: CopyFile)
        ensures
            r@ == Copying::Read(Reading::Open(from@)),
            r.destination() == to@,
    {
        CopyFile { to: to.to_path_buf(), at: CopyAt::Read(ReadFile::new(from)) }
    }

    /// No more is written than there is.
    #[verifier::type_invariant]
    spec fn well_formed(self) -> bool {
        self.at matches CopyAt::To(_, v, n) ==> n <= v@.len()
    }

    /// The next call.
    pub fn call(&self) -> (r: Call<'_>)
        ensures
            match self@ {
                Copying::Read(Reading::Open(p)) => opens(r, p, Opening::Open),
                Copying::Read(Reading::From { fd, .. }) => r matches Call::Read(d) && d == fd,
                Copying::Create(_) => opens(r, self.destination(), Opening::Create),
                Copying::To { fd, bytes, written } => if written < bytes.len() {
                    r matches Call::Write(d, b) && d == fd && b@ == bytes.skip(written)
                } else {
                    r is Nothing
                },
                _ => r is Nothing,
            },
    {
        proof {
            use_type_invariant(self);
        }
        match &self.at {
            CopyAt::Read(r) => r.call(),
            CopyAt::Create(_) => Call::Open(Opening::Create.call(self.to.as_path())),
            CopyAt::To(f, v, n) => {
                let rest = slice_subrange(v.as_slice(), *n, v.len());
                assert(rest@ =~= v@.skip(*n as int));
                if rest.len() > 0 {
                    Call::Write(f.raw(), rest)
                } else {
                    Call::Nothing
                }
            },
            CopyAt::Failed(_) => Call::Nothing,
        }
    }

    /// Take what `open` returned.
    pub fn opened(&mut self, fd: i32, errno: Errno)
        ensures
            final(self)@ == old(self)@.after_open(fd, errno),
            final(self).destination() == old(self).destination(),
    {
        proof {
            use_type_invariant(&*self);
        }
        let mut at = CopyAt::Create(Vec::new());
        std::mem::swap(&mut at, &mut self.at);
        self.at = match at {
            CopyAt::Read(r) => {
                let mut r = r;
                r.opened(fd, errno);
                then_create(r)
            },
            CopyAt::Create(v) => match File::create(fd, errno) {
                Ok(f) => CopyAt::To(f, v, 0),
                Err(e) => CopyAt::Failed(e),
            },
            other => other,
        };
    }

    /// Take the answer of one `read` into `chunk`.
    pub fn took(&mut self, n: isize, errno: Errno, chunk: &[u8])
        requires
            n <= chunk@.len(),
        ensures
            final(self)@ == old(self)@.after_read(n as int, errno, chunk@),
            final(self).destination() == old(self).destination(),
    {
        proof {
            use_type_invariant(&*self);
        }
        let mut at = CopyAt::Create(Vec::new());
        std::mem::swap(&mut at, &mut self.at);
        self.at = match at {
            CopyAt::Read(r) => {
                let mut r = r;
                r.took(n, errno, chunk);
                then_create(r)
            },
            other => other,
        };
    }

    /// Take the answer of one `write` of what is left.
    pub fn wrote(&mut self, n: isize, errno: Errno)
        requires
            old(self)@ matches Copying::To { bytes, written, .. } ==> n <= bytes.len() - written,
        ensures
            final(self)@ == old(self)@.after_write(n as int, errno),
            final(self).destination() == old(self).destination(),
    {
        proof {
            use_type_invariant(&*self);
        }
        let mut at = CopyAt::Create(Vec::new());
        std::mem::swap(&mut at, &mut self.at);
        self.at = match at {
            CopyAt::To(f, v, done) => {
                if n >= 0 {
                    assert(done + n <= v.len());
                    CopyAt::To(f, v, done + n as usize)
                } else if errno.interrupted() {
                    CopyAt::To(f, v, done)
                } else {
                    CopyAt::Failed(Error::from_errno(errno, "write"))
                }
            },
            other => other,
        };
    }

    /// How many bytes were copied, or why none were, once it is over.
    pub fn finish(self) -> (r: Option<Result<u64, Error>>)
        ensures
            match self@ {
                Copying::To { bytes, written, .. } => if written >= bytes.len() {
                    r matches Some(Ok(n)) && n == bytes.len()
                } else {
                    r is None
                },
                Copying::Failed(e) => r matches Some(Err(f)) && f@ == e,
                _ => r is None,
            },
    {
        match self.at {
            CopyAt::To(_, v, n) => if n >= v.len() {
                Some(Ok(v.len() as u64))
            } else {
                None
            },
            CopyAt::Failed(e) => Some(Err(e)),
            _ => None,
        }
    }
}

/// What a copy writes is what it read: the bytes on their way to the destination are the contents
/// of the source, in order, and what is left of them plus what was written is all of them.
pub proof fn a_copy_writes_what_it_read(c: Copying, n: int, errno: Errno, fd: i32)
    requires
        c matches Copying::To { bytes, written, .. } ==> 0 <= written <= bytes.len()
            && n <= bytes.len() - written,
    ensures
        c matches Copying::Read(Reading::From { got, .. }) ==> c.after_read(0, errno, seq![])
            == Copying::Create(got),
        c matches Copying::Create(got) ==> fd >= 0 ==> c.after_open(fd, errno) == (Copying::To {
            fd,
            bytes: got,
            written: 0,
        }),
        c matches Copying::To { bytes, written, fd: d } ==> (c.after_write(n, errno)
            matches Copying::To { bytes: same, written: more, fd: e } ==> same == bytes && e == d
            && written <= more <= bytes.len()),
{
}

// ---------------------------------------------------------------------------------------------
// Whole runs.
// ---------------------------------------------------------------------------------------------

/// What one `read` came to: how much it returned, the `errno` it left, and what it read into.
pub struct Took {
    pub n: int,
    pub errno: Errno,
    pub chunk: Seq<u8>,
}

/// Where reading stands after some reads.
pub open spec fn read_run(r: Reading, feed: Seq<Took>) -> Reading
    decreases feed.len(),
{
    if feed.len() == 0 {
        r
    } else {
        read_run(r.after_read(feed[0].n, feed[0].errno, feed[0].chunk), feed.drop_first())
    }
}

/// Whether these are the answers of a file that holds `content`, read to its end: each read gives
/// the bytes that come next, however many, or is interrupted, and nothing comes at the end alone.
pub open spec fn serves(content: Seq<u8>, feed: Seq<Took>) -> bool
    decreases feed.len(),
{
    if feed.len() == 0 {
        false
    } else {
        let t = feed[0];
        if t.n > 0 {
            &&& t.n <= content.len()
            &&& t.n <= t.chunk.len()
            &&& t.chunk.take(t.n) == content.take(t.n)
            &&& serves(content.skip(t.n), feed.drop_first())
        } else if t.n == 0 {
            content.len() == 0
        } else {
            t.errno.0 == sys::EINTR && serves(content, feed.drop_first())
        }
    }
}

/// Reading a file that can be opened, with no failure but an interruption, gives its whole content,
/// in however many pieces it came and whatever its size was said to be.
pub proof fn a_read_gives_the_whole_content(
    path: Seq<u8>,
    fd: i32,
    errno: Errno,
    content: Seq<u8>,
    feed: Seq<Took>,
)
    requires
        fd >= 0,
        serves(content, feed),
    ensures
        read_run(Reading::Open(path).after_open(fd, errno), feed) == Reading::Done(content),
{
    lemma_read(fd, Seq::empty(), content, feed);
    assert(Seq::empty() + content =~= content);
}

/// What was read and what is still served make up the content.
proof fn lemma_read(fd: i32, got: Seq<u8>, content: Seq<u8>, feed: Seq<Took>)
    requires
        serves(content, feed),
    ensures
        read_run(Reading::From { fd, got }, feed) == Reading::Done(got + content),
    decreases feed.len(),
{
    let t = feed[0];
    let rest = feed.drop_first();
    if t.n > 0 {
        lemma_read(fd, got + content.take(t.n), content.skip(t.n), rest);
        assert(got + content.take(t.n) + content.skip(t.n) =~= got + content);
    } else if t.n == 0 {
        assert(got + content =~= got);
        lemma_done(got, rest);
    } else {
        lemma_read(fd, got, content, rest);
    }
}

/// Once all was read, nothing changes.
proof fn lemma_done(got: Seq<u8>, feed: Seq<Took>)
    ensures
        read_run(Reading::Done(got), feed) == Reading::Done(got),
    decreases feed.len(),
{
    if feed.len() > 0 {
        lemma_done(got, feed.drop_first());
    }
}

/// What one `write` came to: how much it took, and the `errno` it left.
pub struct Gave {
    pub n: int,
    pub errno: Errno,
}

/// Where writing stands after some writes.
pub open spec fn write_run(w: Writing, feed: Seq<Gave>) -> Writing
    decreases feed.len(),
{
    if feed.len() == 0 {
        w
    } else {
        write_run(w.after_write(feed[0].n, feed[0].errno), feed.drop_first())
    }
}

/// The bytes that the file took, in order: of what was left each time, as many as `write` returned.
pub open spec fn taken(w: Writing, feed: Seq<Gave>) -> Seq<u8>
    decreases feed.len(),
{
    if feed.len() == 0 {
        Seq::empty()
    } else {
        let now = match w {
            Writing::To { left, .. } => if feed[0].n > 0 {
                left.take(feed[0].n)
            } else {
                Seq::empty()
            },
            _ => Seq::empty(),
        };
        now + taken(w.after_write(feed[0].n, feed[0].errno), feed.drop_first())
    }
}

/// Whether no `write` took more than it was given.
pub open spec fn within(w: Writing, feed: Seq<Gave>) -> bool
    decreases feed.len(),
{
    feed.len() > 0 ==> {
        &&& w matches Writing::To { left, .. } ==> feed[0].n <= left.len()
        &&& within(w.after_write(feed[0].n, feed[0].errno), feed.drop_first())
    }
}

/// Writing a file that could be created or truncated succeeds only once the file took every byte,
/// in order, each once, in however many pieces.
pub proof fn a_write_writes_everything(
    path: Seq<u8>,
    fd: i32,
    errno: Errno,
    bytes: Seq<u8>,
    feed: Seq<Gave>,
)
    requires
        fd >= 0,
        within(Writing::Create(path).after_open(fd, errno, bytes), feed),
        write_run(Writing::Create(path).after_open(fd, errno, bytes), feed) matches Writing::To {
            left,
            ..
        } && left.len() == 0,
    ensures
        taken(Writing::Create(path).after_open(fd, errno, bytes), feed) == bytes,
{
    lemma_write(fd, bytes, feed);
    let end = write_run(Writing::To { fd, left: bytes }, feed);
    let all = taken(Writing::To { fd, left: bytes }, feed);
    assert(all + end->left =~= all);
}

/// What the file took and what is left make up what was to be written.
proof fn lemma_write(fd: i32, left: Seq<u8>, feed: Seq<Gave>)
    requires
        within(Writing::To { fd, left }, feed),
    ensures
        write_run(Writing::To { fd, left }, feed) matches Writing::To { left: rest, .. } ==> taken(
            Writing::To { fd, left },
            feed,
        ) + rest == left,
    decreases feed.len(),
{
    let w = Writing::To { fd, left };
    if feed.len() == 0 {
        assert(Seq::<u8>::empty() + left =~= left);
    } else {
        let g = feed[0];
        let rest = feed.drop_first();
        if g.n >= 0 {
            lemma_write(fd, left.skip(g.n), rest);
            let later = taken(Writing::To { fd, left: left.skip(g.n) }, rest);
            match write_run(w, feed) {
                Writing::To { left: end, .. } => {
                    assert(taken(w, feed) + end =~= left.take(g.n) + (later + end));
                    assert(left.take(g.n) + left.skip(g.n) =~= left);
                },
                _ => {},
            }
        } else if g.errno.0 == sys::EINTR {
            lemma_write(fd, left, rest);
            assert(taken(w, feed) =~= taken(w, rest));
        } else {
            lemma_failed(w.after_write(g.n, g.errno), rest);
        }
    }
}

/// A failed write stays failed.
proof fn lemma_failed(w: Writing, feed: Seq<Gave>)
    requires
        w is Failed,
    ensures
        write_run(w, feed) == w,
    decreases feed.len(),
{
    if feed.len() > 0 {
        lemma_failed(w, feed.drop_first());
    }
}

/// A read gives back a write: where a write succeeded and the file holds what it took, a read of it
/// gives the bytes that were written.
pub proof fn a_read_gives_back_a_write(
    path: Seq<u8>,
    to: i32,
    from: i32,
    errno: Errno,
    bytes: Seq<u8>,
    writes: Seq<Gave>,
    reads: Seq<Took>,
)
    requires
        to >= 0,
        from >= 0,
        within(Writing::Create(path).after_open(to, errno, bytes), writes),
        write_run(Writing::Create(path).after_open(to, errno, bytes), writes) matches Writing::To {
            left,
            ..
        } && left.len() == 0,
        serves(taken(Writing::Create(path).after_open(to, errno, bytes), writes), reads),
    ensures
        read_run(Reading::Open(path).after_open(from, errno), reads) == Reading::Done(bytes),
{
    a_write_writes_everything(path, to, errno, bytes, writes);
    a_read_gives_the_whole_content(path, from, errno, bytes, reads);
}

/// Where copying stands after some reads of the source.
pub open spec fn copy_reads(c: Copying, feed: Seq<Took>) -> Copying
    decreases feed.len(),
{
    if feed.len() == 0 {
        c
    } else {
        copy_reads(c.after_read(feed[0].n, feed[0].errno, feed[0].chunk), feed.drop_first())
    }
}

/// Where copying stands after some writes to the destination.
pub open spec fn copy_writes(c: Copying, feed: Seq<Gave>) -> Copying
    decreases feed.len(),
{
    if feed.len() == 0 {
        c
    } else {
        copy_writes(c.after_write(feed[0].n, feed[0].errno), feed.drop_first())
    }
}

/// The bytes that the destination took, in order: of what was left each time, as many as `write`
/// returned.
pub open spec fn copy_taken(c: Copying, feed: Seq<Gave>) -> Seq<u8>
    decreases feed.len(),
{
    if feed.len() == 0 {
        Seq::empty()
    } else {
        let now = match c {
            Copying::To { bytes, written, .. } => if feed[0].n > 0 {
                bytes.skip(written).take(feed[0].n)
            } else {
                Seq::empty()
            },
            _ => Seq::empty(),
        };
        now + copy_taken(c.after_write(feed[0].n, feed[0].errno), feed.drop_first())
    }
}

/// Whether no `write` took more than it was given.
pub open spec fn copy_within(c: Copying, feed: Seq<Gave>) -> bool
    decreases feed.len(),
{
    feed.len() > 0 ==> {
        &&& c matches Copying::To { bytes, written, .. } ==> feed[0].n <= bytes.len() - written
        &&& copy_within(c.after_write(feed[0].n, feed[0].errno), feed.drop_first())
    }
}

/// A copy that succeeds has written the whole content of the source to the destination, in order,
/// each byte once.
pub proof fn a_copy_is_whole(
    path: Seq<u8>,
    from: i32,
    to: i32,
    errno: Errno,
    content: Seq<u8>,
    reads: Seq<Took>,
    writes: Seq<Gave>,
)
    requires
        from >= 0,
        to >= 0,
        serves(content, reads),
        ({
            let read = copy_reads(
                Copying::Read(Reading::Open(path)).after_open(from, errno),
                reads,
            );
            let start = read.after_open(to, errno);
            &&& copy_within(start, writes)
            &&& copy_writes(start, writes) matches Copying::To { bytes, written, .. } && written
                == bytes.len()
        }),
    ensures
        copy_taken(
            copy_reads(
                Copying::Read(Reading::Open(path)).after_open(from, errno),
                reads,
            ).after_open(to, errno),
            writes,
        ) == content,
{
    let opened = Reading::Open(path).after_open(from, errno);
    a_read_gives_the_whole_content(path, from, errno, content, reads);
    lemma_copy_reads(opened, reads);
    lemma_copy_writes(to, content, 0, writes);
    assert(content.skip(0) =~= content);
    let all = copy_taken(Copying::To { fd: to, bytes: content, written: 0 }, writes);
    assert(content.skip(content.len() as int) =~= Seq::empty());
    assert(all + Seq::empty() =~= all);
}

/// The source is read as a whole file is.
proof fn lemma_copy_reads(r: Reading, feed: Seq<Took>)
    ensures
        copy_reads(read_on(r), feed) == read_on(read_run(r, feed)),
    decreases feed.len(),
{
    if feed.len() > 0 {
        lemma_copy_reads(
            r.after_read(feed[0].n, feed[0].errno, feed[0].chunk),
            feed.drop_first(),
        );
    }
}

/// What the destination took and what is left make up what was left before.
proof fn lemma_copy_writes(fd: i32, bytes: Seq<u8>, written: int, feed: Seq<Gave>)
    requires
        0 <= written <= bytes.len(),
        copy_within(Copying::To { fd, bytes, written }, feed),
    ensures
        copy_writes(Copying::To { fd, bytes, written }, feed) matches Copying::To {
            bytes: same,
            written: done,
            ..
        } ==> same == bytes && written <= done <= bytes.len() && copy_taken(
            Copying::To { fd, bytes, written },
            feed,
        ) + bytes.skip(done) == bytes.skip(written),
    decreases feed.len(),
{
    let c = Copying::To { fd, bytes, written };
    if feed.len() == 0 {
        assert(Seq::empty() + bytes.skip(written) =~= bytes.skip(written));
    } else {
        let g = feed[0];
        let rest = feed.drop_first();
        if g.n >= 0 {
            lemma_copy_writes(fd, bytes, written + g.n, rest);
            let later = copy_taken(Copying::To { fd, bytes, written: written + g.n }, rest);
            match copy_writes(c, feed) {
                Copying::To { written: done, .. } => {
                    let now = bytes.skip(written).take(g.n);
                    assert(copy_taken(c, feed) + bytes.skip(done) =~= now + (later + bytes.skip(
                        done,
                    )));
                    assert(now + bytes.skip(written + g.n) =~= bytes.skip(written));
                },
                _ => {},
            }
        } else if g.errno.0 == sys::EINTR {
            lemma_copy_writes(fd, bytes, written, rest);
            assert(copy_taken(c, feed) =~= copy_taken(c, rest));
        } else {
            lemma_copy_failed(c.after_write(g.n, g.errno), rest);
        }
    }
}

/// A failed copy stays failed.
proof fn lemma_copy_failed(c: Copying, feed: Seq<Gave>)
    requires
        c is Failed,
    ensures
        copy_writes(c, feed) == c,
    decreases feed.len(),
{
    if feed.len() > 0 {
        lemma_copy_failed(c, feed.drop_first());
    }
}


/// A file is opened under its own name, NUL-terminated, with the flags of what it is opened for: to
/// be read as it is, or created or emptied to be written.
pub proof fn how_a_file_is_opened(call: Call<'_>, path: Seq<u8>)
    ensures
        opens(call, path, Opening::Open) <==> (call matches Call::Open(c) && c.path@ == path.push(0)
            && c.flags == sys::O_RDONLY && c.mode is None),
        opens(call, path, Opening::Create) <==> (call matches Call::Open(c) && c.path@ == path.push(
            0,
        ) && c.flags == sys::O_WRONLY | sys::O_CREAT | sys::O_TRUNC && c.mode == Some(0o644u32)),
{
}

/// What each answer means to a read. A file that cannot be opened and a read that fails are the
/// end, with their own reason; a signal changes nothing; what was read comes after what was there;
/// and nothing read is the end of the file.
pub proof fn what_each_answer_means_to_a_read(
    path: Seq<u8>,
    fd: i32,
    got: Seq<u8>,
    n: int,
    errno: Errno,
    chunk: Seq<u8>,
)
    ensures
        Reading::Open(path).after_open(fd, errno) == (if fd >= 0 {
            Reading::From { fd, got: Seq::empty() }
        } else {
            Reading::Failed(file::failure(errno, "open"@))
        }),
        n > 0 ==> (Reading::From { fd, got }).after_read(n, errno, chunk) == (Reading::From {
            fd,
            got: got + chunk.take(n),
        }),
        n == 0 ==> (Reading::From { fd, got }).after_read(n, errno, chunk) == Reading::Done(got),
        n < 0 && errno.0 == sys::EINTR ==> (Reading::From { fd, got }).after_read(n, errno, chunk)
            == (Reading::From { fd, got }),
        n < 0 && errno.0 != sys::EINTR ==> (Reading::From { fd, got }).after_read(n, errno, chunk)
            == Reading::Failed(file::failure(errno, "read"@)),
{
}

/// What each answer means to a write. A file that cannot be opened and a write that fails are the
/// end, with their own reason; a signal changes nothing; and what was written is no longer left.
pub proof fn what_each_answer_means_to_a_write(
    path: Seq<u8>,
    fd: i32,
    bytes: Seq<u8>,
    n: int,
    errno: Errno,
)
    ensures
        Writing::Create(path).after_open(fd, errno, bytes) == (if fd >= 0 {
            Writing::To { fd, left: bytes }
        } else {
            Writing::Failed(file::failure(errno, "create"@))
        }),
        n >= 0 ==> (Writing::To { fd, left: bytes }).after_write(n, errno) == (Writing::To {
            fd,
            left: bytes.skip(n),
        }),
        n < 0 && errno.0 == sys::EINTR ==> (Writing::To { fd, left: bytes }).after_write(n, errno)
            == (Writing::To { fd, left: bytes }),
        n < 0 && errno.0 != sys::EINTR ==> (Writing::To { fd, left: bytes }).after_write(n, errno)
            == Writing::Failed(file::failure(errno, "write"@)),
{
}

/// What each answer means to a copy. The source is read as a whole file is, and what it fails with
/// the copy fails with; the destination is created or emptied once all of the source was read; and
/// what was written is counted.
pub proof fn what_each_answer_means_to_a_copy(
    source: Seq<u8>,
    fd: i32,
    bytes: Seq<u8>,
    written: int,
    n: int,
    errno: Errno,
    chunk: Seq<u8>,
)
    ensures
        Copying::Read(Reading::Open(source)).after_open(fd, errno) == (if fd >= 0 {
            Copying::Read(Reading::From { fd, got: Seq::empty() })
        } else {
            Copying::Failed(file::failure(errno, "open"@))
        }),
        n > 0 ==> Copying::Read(Reading::From { fd, got: bytes }).after_read(n, errno, chunk)
            == Copying::Read(Reading::From { fd, got: bytes + chunk.take(n) }),
        n == 0 ==> Copying::Read(Reading::From { fd, got: bytes }).after_read(n, errno, chunk)
            == Copying::Create(bytes),
        n < 0 && errno.0 == sys::EINTR ==> Copying::Read(
            Reading::From { fd, got: bytes },
        ).after_read(n, errno, chunk) == Copying::Read(Reading::From { fd, got: bytes }),
        n < 0 && errno.0 != sys::EINTR ==> Copying::Read(
            Reading::From { fd, got: bytes },
        ).after_read(n, errno, chunk) == Copying::Failed(file::failure(errno, "read"@)),
        Copying::Create(bytes).after_open(fd, errno) == (if fd >= 0 {
            Copying::To { fd, bytes, written: 0 }
        } else {
            Copying::Failed(file::failure(errno, "create"@))
        }),
        n >= 0 ==> (Copying::To { fd, bytes, written }).after_write(n, errno) == (Copying::To {
            fd,
            bytes,
            written: written + n,
        }),
        n < 0 && errno.0 == sys::EINTR ==> (Copying::To { fd, bytes, written }).after_write(
            n,
            errno,
        ) == (Copying::To { fd, bytes, written }),
        n < 0 && errno.0 != sys::EINTR ==> (Copying::To { fd, bytes, written }).after_write(
            n,
            errno,
        ) == Copying::Failed(file::failure(errno, "write"@)),
{
}


/// An answer to something that was not asked changes nothing: a file that is open is not opened
/// again, nothing is read or written before it is open, and what is over stays as it is.
pub proof fn an_answer_nobody_asked_for(
    r: Reading,
    w: Writing,
    c: Copying,
    n: int,
    fd: i32,
    errno: Errno,
    chunk: Seq<u8>,
)
    ensures
        !(r is Open) ==> r.after_open(fd, errno) == r,
        !(r is From) ==> r.after_read(n, errno, chunk) == r,
        !(w is Create) ==> w.after_open(fd, errno, chunk) == w,
        !(w is To) ==> w.after_write(n, errno) == w,
        c is To || c is Failed ==> c.after_open(fd, errno) == c,
        !(c is Read) ==> c.after_read(n, errno, chunk) == c,
        !(c is To) ==> c.after_write(n, errno) == c,
{
}

} // verus!
