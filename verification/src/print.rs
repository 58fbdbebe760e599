//! Writing messages to a descriptor.
//!
//! Output here is either a diagnostic or a trace, both of which want the bytes out now and neither
//! of which should stop anything because a pipe closed. So a failed write is ignored, and that is
//! deliberate: panicking on a broken pipe turns piping into a pager into a crash.

use vstd::prelude::*;
use vstd::slice::slice_subrange;
use vstd::utf8;

use crate::sys;
use crate::Errno;

verus! {

/// Bytes on their way to a descriptor.
pub struct WriteFd<'a> {
    rest: &'a [u8],
}

/// Start writing bytes to a descriptor, going on over a short write and giving up on any error.
///
/// A partial write is not an error and not rare on a pipe.
pub fn write_fd<'a>(bytes: &'a [u8]) -> (r: WriteFd<'a>)
    ensures
        r.left() == bytes@,
{
    WriteFd { rest: bytes }
}

impl<'a> WriteFd<'a> {
    /// What is still to be written.
    pub closed spec fn left(&self) -> Seq<u8> {
        self.rest@
    }

    /// What is still to be written. Nothing, once it is over.
    pub fn rest(&self) -> (r: &'a [u8])
        ensures
            r@ == self.left(),
    {
        self.rest
    }

    /// Take the answer of one `write` of what is left. A signal is worth trying again; everything
    /// else, a closed pipe included, ends it.
    pub fn step(&mut self, n: isize, errno: Errno)
        requires
            n <= old(self).left().len(),
        ensures
            final(self).left() == (if n > 0 {
                old(self).left().skip(n as int)
            } else if n < 0 && errno.0 == sys::EINTR {
                old(self).left()
            } else {
                Seq::empty()
            }),
    {
        let ghost before = self.rest@;
        if n <= 0 {
            if n < 0 && errno.interrupted() {
                return;
            }
            self.rest = slice_subrange(self.rest, 0, 0);
            assert(self.rest@ =~= Seq::empty());
            return;
        }
        self.rest = slice_subrange(self.rest, n as usize, self.rest.len());
        assert(self.rest@ =~= before.skip(n as int));
    }
}

/// Start writing text that has been formatted.
pub fn emit<'a>(formatted: &'a str) -> (r: WriteFd<'a>)
    ensures
        r.left() == utf8::encode_utf8(formatted@),
{
    write_fd(formatted.as_bytes())
}

/// Whether a descriptor is a terminal, for a decision about colour, from what `isatty` returned.
pub fn is_terminal(returned: i32) -> (r: bool)
    ensures
        r == (returned == 1),
{
    returned == 1
}

} // verus!
