//! The operating system, wrapped once: the part of the wrapping that decides something.
//!
//! A system call is a request that goes out and an answer that comes back. What goes out, what
//! the answer means and what is asked next are decided here, on plain values, and proved. The
//! calls themselves are made by whoever drives this crate.
//!
//! Every module follows the same shape. A question the kernel answers in one go is a function
//! from the answer to a result. A loop around the kernel is a small state machine: it says what
//! to do next, the driver does it and hands the answer back.

use vstd::prelude::*;
use vstd::utf8;

use crate::time::Timespec;

pub mod bytes;
pub mod channel;
pub mod command;
pub mod cpu;
pub mod daemonize;
pub mod env;
pub mod file;
pub mod fs;
pub mod heap;
pub mod lines;
pub mod mmap;
pub mod path;
pub mod print;
pub mod proc;
pub mod socket;
pub mod sys;
pub mod text;
pub mod thread;
pub mod time;

verus! {

/// A system call that failed, as the `errno` it set.
///
/// A caller that wants a sentence asks for one; a caller that wants to branch matches the number,
/// which is what the C header documents.
#[derive(Debug, Clone, Copy, PartialEq, Eq, Structural)]
pub struct Errno(pub i32);

/// The sentence for an error: what `strerror_r` wrote up to its NUL, when it succeeded and wrote
/// text.
pub open spec fn message_of(outcome: i32, written: Seq<u8>) -> Seq<char> {
    let sentence = bytes::until(written, 0);
    if outcome == 0 && utf8::valid_utf8(sentence) {
        utf8::decode_utf8(sentence)
    } else {
        "unknown error"@
    }
}

impl Errno {
    /// The system's own sentence for this error, from what `strerror_r` returned and wrote.
    pub fn message<'a>(self, outcome: i32, into: &'a [u8; 128]) -> (r: &'a str)
        ensures
            r@ == message_of(outcome, into@),
            outcome == 0 && utf8::valid_utf8(bytes::until(into@, 0)) ==> utf8::encode_utf8(r@)
                == bytes::until(into@, 0),
            outcome != 0 || !utf8::valid_utf8(bytes::until(into@, 0)) ==> r@ == "unknown error"@,
    {
        proof {
            a_sentence_is_what_was_written(outcome, into@);
        }
        if outcome != 0 {
            return "unknown error";
        }
        let all = into.as_slice();
        proof {
            bytes::lemma_first_of(all@, 0);
        }
        let end: usize = match bytes::position(all, 0) {
            Some(i) => i,
            None => all.len(),
        };
        let sentence = vstd::slice::slice_subrange(all, 0, end);
        assert(sentence@ =~= bytes::until(into@, 0));
        match text::from_utf8(sentence) {
            Some(s) => s,
            None => "unknown error",
        }
    }

    /// The error as text: its sentence, and the number for whoever looks it up.
    pub fn to_text(self, message: &str) -> (r: String)
        ensures
            r@ == message@ + " (errno "@ + text::signed_decimal(self.0 as int) + ")"@,
    {
        let mut out = message.to_owned();
        out.append(" (errno ");
        text::push_signed(&mut out, self.0);
        out.append(")");
        out
    }

    /// Whether a signal interrupted the call, so that it should simply be made again.
    pub fn interrupted(self) -> (r: bool)
        ensures
            r == (self.0 == sys::EINTR),
    {
        self.0 == sys::errnos().eintr
    }

    /// Would this call have blocked?
    ///
    /// Two numbers, because POSIX allows `EAGAIN` and `EWOULDBLOCK` to differ and does not say
    /// which a given call returns.
    pub fn would_block(self) -> (r: bool)
        ensures
            r == (self.0 == sys::EAGAIN || self.0 == sys::EWOULDBLOCK),
    {
        let e = sys::errnos();
        self.0 == e.eagain || self.0 == e.ewouldblock
    }
}

/// What a call that reports failure as `-1` returned, or the `errno` it left.
pub fn checked(returned: i32, errno: Errno) -> (r: Result<i32, Errno>)
    ensures
        r == (if returned == -1 {
            Err::<i32, Errno>(errno)
        } else {
            Ok::<i32, Errno>(returned)
        }),
{
    if returned == -1 {
        Err(errno)
    } else {
        Ok(returned)
    }
}

/// How long `nanosleep` is asked to sleep for a whole number of milliseconds.
pub fn sleep_ms(ms: u64) -> (r: Timespec)
    ensures
        0 <= r.secs,
        0 <= r.nanos < 1_000_000_000,
        r.secs * 1_000_000_000 + r.nanos == ms * 1_000_000,
{
    Timespec { secs: (ms / 1000) as i64, nanos: ((ms % 1000) * 1_000_000) as i64 }
}


/// The sentence for an error is what was written up to the NUL, all of it, where that is text, and
/// a sentence that says nothing otherwise.
pub proof fn a_sentence_is_what_was_written(outcome: i32, written: Seq<u8>)
    ensures
        outcome == 0 && utf8::valid_utf8(bytes::until(written, 0)) ==> utf8::encode_utf8(
            message_of(outcome, written),
        ) == bytes::until(written, 0),
        outcome != 0 || !utf8::valid_utf8(bytes::until(written, 0)) ==> message_of(outcome, written)
            == "unknown error"@,
{
    if utf8::valid_utf8(bytes::until(written, 0)) {
        utf8::decode_utf8_encode_utf8(bytes::until(written, 0));
    }
}

} // verus!
