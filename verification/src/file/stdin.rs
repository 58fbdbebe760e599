//! Standard input, a line at a time.

use vstd::prelude::*;
use vstd::slice::slice_subrange;
use vstd::utf8;

use crate::bytes;
use crate::file;
use crate::file::{read_step, Error, ReadStep};
use crate::lines;
use crate::lines::{LineStep, NEWLINE};
use crate::sys;
use crate::text;
use crate::Errno;

verus! {

/// A line reader over file descriptor 0.
///
/// It buffers, because reading a line one `read(2)` per byte off a pipe is what buffering exists
/// to avoid.
pub struct Stdin {
    buf: Vec<u8>,
    at: usize,
    eof: bool,
}

/// Standard input.
pub fn stdin() -> (r: Stdin)
    ensures
        r.pending() == Seq::<u8>::empty(),
        !r.over(),
{
    let r = Stdin { buf: Vec::new(), at: 0, eof: false };
    assert(r.pending() =~= Seq::<u8>::empty());
    r
}

impl Stdin {
    /// What has arrived and not been handed out.
    pub closed spec fn pending(&self) -> Seq<u8> {
        self.buf@.skip(self.at as int)
    }

    /// Whether the input is over.
    pub closed spec fn over(&self) -> bool {
        self.eof
    }

    /// What has been handed out is the front of the buffer.
    #[verifier::type_invariant]
    spec fn well_formed(self) -> bool {
        self.at <= self.buf@.len()
    }

    /// The next line, without its newline, or that there is none, or that more has to be read.
    pub fn read_line(&mut self) -> (r: LineStep)
        ensures
            lines::owed(r, old(self).pending(), old(self).over()),
            ({
                let before = old(self).pending();
                let line = bytes::until(before, NEWLINE);
                &&& r is Read <==> !old(self).over() && !before.contains(NEWLINE)
                &&& r is End <==> old(self).over() && before.len() == 0
                &&& r matches LineStep::Line(s) ==> s@ == text::lossy(line)
                &&& r matches LineStep::Line(s) ==> utf8::valid_utf8(line) ==> utf8::encode_utf8(
                    s@,
                ) == line
                &&& r is Line ==> final(self).pending() == (if before.contains(NEWLINE) {
                    before.skip(line.len() as int + 1)
                } else {
                    Seq::empty()
                })
                &&& !(r is Line) ==> final(self).pending() == before
            }),
            final(self).over() == old(self).over(),
            final(self).pending() == (match lines::take_line(old(self).pending(), old(self).over()) {
                Some((_, rest)) => rest,
                None => old(self).pending(),
            }),
    {
        let r = self.advance();
        proof {
            lines::what_is_owed(r, old(self).pending(), old(self).over());
            lines::what_is_left(old(self).pending(), old(self).over());
        }
        r
    }

    /// The next line, or that there is none, or that more has to be read.
    fn advance(&mut self) -> (r: LineStep)
        ensures
            lines::owed(r, old(self).pending(), old(self).over()),
            final(self).over() == old(self).over(),
            final(self).pending() == (match lines::take_line(old(self).pending(), old(self).over()) {
                Some((_, rest)) => rest,
                None => old(self).pending(),
            }),
    {
        proof {
            use_type_invariant(&*self);
            bytes::lemma_first_of(self.pending(), NEWLINE);
        }
        let ghost before = self.pending();
        let at: usize = self.at;
        let len: usize = self.buf.len();
        let waiting = slice_subrange(self.buf.as_slice(), at, len);
        assert(waiting@ =~= before);
        match bytes::position(waiting, NEWLINE) {
            Some(nl) => {
                let line = slice_subrange(waiting, 0, nl);
                assert(line@ =~= before.take(nl as int));
                let found = text::to_owned_text(line);
                self.at = at + nl + 1;
                assert(self.pending() =~= before.skip(nl + 1));
                LineStep::Line(found)
            },
            None => {
                if self.eof {
                    // A final line with no trailing newline is still a line.
                    if at < len {
                        let found = text::to_owned_text(waiting);
                        self.at = len;
                        assert(self.pending() =~= Seq::<u8>::empty());
                        return LineStep::Line(found);
                    }
                    return LineStep::End;
                }
                // What has been consumed goes before the buffer grows, so a long session does not
                // hold every line it has already handed out.
                if at > 0 {
                    let kept = vstd::slice::slice_to_vec(waiting);
                    self.at = 0;
                    self.buf = kept;
                    assert(self.pending() =~= before);
                }
                LineStep::Read
            },
        }
    }

    /// Take the answer of one `read` of standard input into `chunk`.
    pub fn supply(&mut self, n: isize, errno: Errno, chunk: &[u8]) -> (r: Result<(), Error>)
        requires
            n <= chunk@.len(),
        ensures
            final(self).over() == (old(self).over() || n == 0),
            final(self).pending() == (if n > 0 {
                old(self).pending() + chunk@.take(n as int)
            } else {
                old(self).pending()
            }),
            match r {
                Ok(_) => n >= 0 || errno.0 == sys::EINTR,
                Err(e) => n < 0 && errno.0 != sys::EINTR && e@ == file::failure(errno, "read"@),
            },
    {
        proof {
            use_type_invariant(&*self);
        }
        match read_step(n, errno) {
            ReadStep::Again => Ok(()),
            ReadStep::Failed(e) => Err(e),
            ReadStep::Got(k) => {
                if k == 0 {
                    self.eof = true;
                    return Ok(());
                }
                let arrived = slice_subrange(chunk, 0, k);
                assert(arrived@ =~= chunk@.take(n as int));
                let ghost before = self.pending();
                let at: usize = self.at;
                let mut buf: Vec<u8> = Vec::new();
                self.at = 0;
                std::mem::swap(&mut buf, &mut self.buf);
                bytes::extend(&mut buf, arrived);
                self.buf = buf;
                self.at = at;
                assert(self.pending() =~= before + arrived@);
                Ok(())
            },
        }
    }

    /// The lines, one after the other.
    pub fn lines(self) -> (r: Lines)
        ensures
            r.reader() == self,
    {
        Lines { inner: self }
    }
}

/// The lines of standard input.
pub struct Lines {
    inner: Stdin,
}

impl Lines {
    /// The reader they come from.
    pub closed spec fn reader(&self) -> Stdin {
        self.inner
    }

    /// The next line, or that there is none, or that more has to be read.
    pub fn next(&mut self) -> (r: LineStep)
        ensures
            lines::owed(r, old(self).reader().pending(), old(self).reader().over()),
            ({
                let before = old(self).reader().pending();
                let line = bytes::until(before, NEWLINE);
                &&& r is Read <==> !old(self).reader().over() && !before.contains(NEWLINE)
                &&& r is End <==> old(self).reader().over() && before.len() == 0
                &&& r matches LineStep::Line(s) ==> s@ == text::lossy(line)
                &&& r matches LineStep::Line(s) ==> utf8::valid_utf8(line) ==> utf8::encode_utf8(
                    s@,
                ) == line
                &&& r is Line ==> final(self).reader().pending() == (if before.contains(NEWLINE) {
                    before.skip(line.len() as int + 1)
                } else {
                    Seq::empty()
                })
                &&& !(r is Line) ==> final(self).reader().pending() == before
            }),
            final(self).reader().over() == old(self).reader().over(),
            final(self).reader().pending() == (match lines::take_line(
                old(self).reader().pending(),
                old(self).reader().over(),
            ) {
                Some((_, rest)) => rest,
                None => old(self).reader().pending(),
            }),
    {
        self.inner.read_line()
    }

    /// Take the answer of one `read` of standard input into `chunk`.
    pub fn supply(&mut self, n: isize, errno: Errno, chunk: &[u8]) -> (r: Result<(), Error>)
        requires
            n <= chunk@.len(),
        ensures
            final(self).reader().over() == (old(self).reader().over() || n == 0),
            final(self).reader().pending() == (if n > 0 {
                old(self).reader().pending() + chunk@.take(n as int)
            } else {
                old(self).reader().pending()
            }),
            match r {
                Ok(_) => n >= 0 || errno.0 == sys::EINTR,
                Err(e) => n < 0 && errno.0 != sys::EINTR && e@ == file::failure(errno, "read"@),
            },
    {
        self.inner.supply(n, errno, chunk)
    }
}

} // verus!
