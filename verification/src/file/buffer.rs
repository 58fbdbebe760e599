//! Writing text in few large pieces.

use vstd::prelude::*;
use vstd::utf8;

verus! {

/// How much is held before it is written, in bytes: well past the size of any single message.
pub const BUFFERED: usize = 65536;

/// A write that failed. It says nothing more.
#[derive(Copy, Clone, PartialEq, Eq, Structural, Debug)]
pub struct WriteError;

/// Something text can be written to.
pub trait Write: Sized {
    /// Whether `after` is what writing `s` to `before` may leave behind when it returns `r`. A
    /// writer that says nothing of itself may leave anything.
    open spec fn wrote(before: Self, s: Seq<char>, r: Result<(), WriteError>, after: Self) -> bool {
        true
    }

    /// Write `s`.
    fn write_str(&mut self, s: &str) -> (r: Result<(), WriteError>)
        ensures
            Self::wrote(*old(self), s@, r, *final(self)),
    ;
}

impl Write for String {
    open spec fn wrote(
        before: String,
        s: Seq<char>,
        r: Result<(), WriteError>,
        after: String,
    ) -> bool {
        r is Ok && after@ == before@ + s
    }

    fn write_str(&mut self, s: &str) -> (r: Result<(), WriteError>) {
        self.append(s);
        Ok(())
    }
}

/// Accumulates writes and sends them in one go.
///
/// A system call per formatted piece is slow, and a message is formatted in many small pieces.
/// Whatever must be durable should be flushed by whoever needs it to be.
pub struct BufWriter<W: Write> {
    inner: W,
    buf: String,
}

impl<W: Write> BufWriter<W> {
    /// The writer.
    pub closed spec fn inner(&self) -> W {
        self.inner
    }

    /// What is held back.
    pub closed spec fn buffered(&self) -> Seq<char> {
        self.buf@
    }

    /// Whether `after` is what flushing `before` may leave behind.
    pub open spec fn flushed(before: Self, r: Result<(), WriteError>, after: Self) -> bool {
        &&& after.buffered() == Seq::<char>::empty()
        &&& if before.buffered().len() == 0 {
            r is Ok && after.inner() == before.inner()
        } else {
            W::wrote(before.inner(), before.buffered(), r, after.inner())
        }
    }

    /// Wrap a writer.
    pub fn new(inner: W) -> (r: BufWriter<W>)
        ensures
            r.inner() == inner,
            r.buffered() == Seq::<char>::empty(),
    {
        let r = BufWriter { inner, buf: String::new() };
        assert(r.buffered() =~= Seq::<char>::empty());
        r
    }

    /// Push everything buffered into the writer. Nothing is held back afterwards, whether that
    /// succeeded or not.
    pub fn flush(&mut self) -> (r: Result<(), WriteError>)
        ensures
            Self::flushed(*old(self), r, *final(self)),
            final(self).buffered().len() == 0,
            old(self).buffered().len() == 0 ==> r is Ok && final(self).inner() == old(self).inner(),
            old(self).buffered().len() > 0 ==> W::wrote(
                old(self).inner(),
                old(self).buffered(),
                r,
                final(self).inner(),
            ),
    {
        if self.buf.as_str().as_bytes().len() == 0 {
            proof {
                encoding_is_empty(self.buf@);
            }
            assert(self.buf@ =~= Seq::<char>::empty());
            return Ok(());
        }
        proof {
            encoding_is_empty(self.buf@);
        }
        let r = self.inner.write_str(self.buf.as_str());
        self.buf = String::new();
        assert(self.buffered() =~= Seq::<char>::empty());
        r
    }

    /// Whether `back` is what the writer may be when it is given back.
    pub open spec fn given_back(self, back: W) -> bool {
        if self.buffered().len() == 0 {
            back == self.inner()
        } else {
            exists|w: Result<(), WriteError>| W::wrote(self.inner(), self.buffered(), w, back)
        }
    }

    /// Give back the writer, flushing first. A failure of that flush is not reported.
    pub fn into_inner(self) -> (r: W)
        ensures
            self.given_back(r),
            self.buffered().len() == 0 ==> r == self.inner(),
            self.buffered().len() > 0 ==> exists|w: Result<(), WriteError>|
                W::wrote(self.inner(), self.buffered(), w, r),
    {
        let mut all = self;
        let _flushed = all.flush();
        all.inner
    }
}

/// Only no characters at all are encoded as no bytes.
proof fn encoding_is_empty(s: Seq<char>)
    ensures
        utf8::encode_utf8(s).len() == 0 <==> s.len() == 0,
{
    reveal_with_fuel(utf8::encode_utf8, 1);
}

impl<W: Write> Write for BufWriter<W> {
    open spec fn wrote(
        before: BufWriter<W>,
        s: Seq<char>,
        r: Result<(), WriteError>,
        after: BufWriter<W>,
    ) -> bool {
        let all = before.buffered() + s;
        if utf8::encode_utf8(all).len() < BUFFERED {
            r is Ok && after.inner() == before.inner() && after.buffered() == all
        } else {
            W::wrote(before.inner(), all, r, after.inner()) && after.buffered() == Seq::<
                char,
            >::empty()
        }
    }

    fn write_str(&mut self, s: &str) -> (r: Result<(), WriteError>) {
        self.buf.append(s);
        if self.buf.as_str().as_bytes().len() >= BUFFERED {
            proof {
                encoding_is_empty(self.buf@);
            }
            return self.flush();
        }
        Ok(())
    }
}

/// Buffering changes when text is written and nothing else: what the writer holds and what is held
/// back, one after the other, is everything written so far in the order it was written.
pub proof fn buffering_loses_nothing(
    before: BufWriter<String>,
    s: Seq<char>,
    r: Result<(), WriteError>,
    after: BufWriter<String>,
)
    requires
        <BufWriter<String> as Write>::wrote(before, s, r, after),
    ensures
        r is Ok,
        after.inner()@ + after.buffered() == before.inner()@ + before.buffered() + s,
{
    let all = before.buffered() + s;
    if utf8::encode_utf8(all).len() < BUFFERED {
        assert(before.inner()@ + all =~= before.inner()@ + before.buffered() + s);
    } else {
        assert(before.inner()@ + all + Seq::<char>::empty() =~= before.inner()@ + before.buffered()
            + s);
    }
}

/// Flushing hands over what was held back and nothing else.
pub proof fn flushing_loses_nothing(
    before: BufWriter<String>,
    r: Result<(), WriteError>,
    after: BufWriter<String>,
)
    requires
        BufWriter::<String>::flushed(before, r, after),
    ensures
        r is Ok,
        after.inner()@ == before.inner()@ + before.buffered(),
        after.buffered().len() == 0,
{
    assert(before.inner()@ + Seq::<char>::empty() =~= before.inner()@);
    if before.buffered().len() == 0 {
        assert(before.buffered() =~= Seq::<char>::empty());
    }
}

/// What is done to a buffered writer.
pub enum Use {
    /// This is written to it.
    Write(Seq<char>),
    /// It is flushed.
    Flush,
}

/// Everything that was written, in order.
pub open spec fn written(uses: Seq<Use>) -> Seq<char>
    decreases uses.len(),
{
    if uses.len() == 0 {
        Seq::empty()
    } else {
        match uses.last() {
            Use::Write(s) => written(uses.drop_last()) + s,
            Use::Flush => written(uses.drop_last()),
        }
    }
}

/// Whether `after` is what one use of `before` may leave behind.
pub open spec fn used<W: Write>(
    before: BufWriter<W>,
    u: Use,
    r: Result<(), WriteError>,
    after: BufWriter<W>,
) -> bool {
    match u {
        Use::Write(s) => <BufWriter<W> as Write>::wrote(before, s, r, after),
        Use::Flush => BufWriter::<W>::flushed(before, r, after),
    }
}

/// Whether a writer never fails and keeps what it is given, where `kept` is what it keeps.
pub open spec fn keeps<W: Write>(kept: spec_fn(W) -> Seq<char>) -> bool {
    forall|before: W, s: Seq<char>, r: Result<(), WriteError>, after: W| #[trigger]
        W::wrote(before, s, r, after) ==> r is Ok && kept(after) == kept(before) + s
}

/// Text in memory keeps what it is given.
pub proof fn a_string_keeps_what_it_is_given()
    ensures
        keeps::<String>(|w: String| w@),
{
}

/// Over any number of writes, with any flushes between them, nothing is lost and nothing comes
/// twice: what a writer that keeps what it is given has been given, and what is still held back,
/// is everything that was written, in order. No write and no flush fails.
pub proof fn buffering_keeps_everything<W: Write>(
    kept: spec_fn(W) -> Seq<char>,
    states: Seq<BufWriter<W>>,
    uses: Seq<Use>,
    results: Seq<Result<(), WriteError>>,
)
    requires
        keeps(kept),
        states.len() == uses.len() + 1,
        results.len() == uses.len(),
        states[0].buffered().len() == 0,
        forall|k: int|
            0 <= k < uses.len() ==> #[trigger] used(states[k], uses[k], results[k], states[k + 1]),
    ensures
        kept(states.last().inner()) + states.last().buffered() == kept(states[0].inner())
            + written(uses),
        forall|k: int| 0 <= k < uses.len() ==> (#[trigger] results[k]) is Ok,
    decreases uses.len(),
{
    let start = kept(states[0].inner());
    if uses.len() == 0 {
        assert(start + states[0].buffered() =~= start + written(uses));
    } else {
        let n = uses.len() - 1;
        let fewer = states.drop_last();
        let front = uses.drop_last();
        let firsts = results.drop_last();
        assert forall|k: int| 0 <= k < front.len() implies #[trigger] used(
            fewer[k],
            front[k],
            firsts[k],
            fewer[k + 1],
        ) by {
            assert(used(states[k], uses[k], results[k], states[k + 1]));
        }
        buffering_keeps_everything(kept, fewer, front, firsts);
        let before = states[n];
        let after = states[n + 1];
        assert(fewer[0] == states[0]);
        assert(fewer.last() == before);
        let so_far = kept(before.inner()) + before.buffered();
        assert(so_far == start + written(front));
        assert(states.last() == after);
        assert(used(before, uses[n], results[n], after));
        assert forall|k: int| 0 <= k < uses.len() implies (#[trigger] results[k]) is Ok by {
            if k < n {
                assert(firsts[k] is Ok);
            }
        }
        match uses[n] {
            Use::Write(s) => {
                let all = before.buffered() + s;
                assert(start + written(uses) =~= so_far + s);
                assert(so_far + s =~= kept(before.inner()) + all);
                assert(kept(after.inner()) + after.buffered() =~= kept(before.inner()) + all);
            },
            Use::Flush => {
                assert(kept(after.inner()) + after.buffered() =~= kept(before.inner())
                    + before.buffered());
            },
        }
    }
}

/// The writer that is given back after any number of writes has been given exactly what was
/// written, in order.
pub proof fn the_writer_comes_back_with_everything<W: Write>(
    kept: spec_fn(W) -> Seq<char>,
    states: Seq<BufWriter<W>>,
    uses: Seq<Use>,
    results: Seq<Result<(), WriteError>>,
    back: W,
)
    requires
        keeps(kept),
        states.len() == uses.len() + 1,
        results.len() == uses.len(),
        states[0].buffered().len() == 0,
        forall|k: int|
            0 <= k < uses.len() ==> #[trigger] used(states[k], uses[k], results[k], states[k + 1]),
        states.last().given_back(back),
    ensures
        kept(back) == kept(states[0].inner()) + written(uses),
{
    buffering_keeps_everything(kept, states, uses, results);
    let last = states.last();
    if last.buffered().len() == 0 {
        assert(kept(last.inner()) + last.buffered() =~= kept(last.inner()));
    }
}


/// What is written is held back until so much has come together, and then all of it is handed to
/// the writer in one go, whose answer is the answer.
pub proof fn what_is_written_is_held_back<W: Write>(
    before: BufWriter<W>,
    s: Seq<char>,
    r: Result<(), WriteError>,
    after: BufWriter<W>,
)
    requires
        <BufWriter<W> as Write>::wrote(before, s, r, after),
    ensures
        utf8::encode_utf8(before.buffered() + s).len() < 65536 ==> r is Ok && after.inner()
            == before.inner() && after.buffered() == before.buffered() + s,
        utf8::encode_utf8(before.buffered() + s).len() >= 65536 ==> W::wrote(
            before.inner(),
            before.buffered() + s,
            r,
            after.inner(),
        ) && after.buffered().len() == 0,
{
}

/// A flush hands over what was held back, as it is, and the answer is the writer's.
pub proof fn a_flush_answers_for_the_writer<W: Write>(
    before: BufWriter<W>,
    r: Result<(), WriteError>,
    after: BufWriter<W>,
)
    requires
        BufWriter::<W>::flushed(before, r, after),
    ensures
        after.buffered().len() == 0,
        before.buffered().len() == 0 ==> r is Ok && after.inner() == before.inner(),
        before.buffered().len() > 0 ==> W::wrote(
            before.inner(),
            before.buffered(),
            r,
            after.inner(),
        ),
{
}

} // verus!
