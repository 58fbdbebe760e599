//! Lines out of a stream of bytes.
//!
//! A line is not a unit the kernel knows about. A read returns whatever arrived, which may be
//! half a line, three lines, or a line split across two calls, so something has to hold the
//! remainder between reads. Two readers do, one over standard input and one over a connection;
//! what a line is, and that how the bytes arrived makes no difference to it, is stated here.

use vstd::prelude::*;
use vstd::utf8;

use crate::bytes;
use crate::text;

verus! {

/// The byte that ends a line.
pub const NEWLINE: u8 = 10;

/// What a reader does next.
pub enum LineStep {
    /// A line, without its newline.
    Line(String),
    /// The input is over and everything has been handed out.
    End,
    /// More has to be read first.
    Read,
}

/// The next line of what has arrived and what is left after it.
///
/// A line ends at its newline. Once the input is over, whatever is left is a line too.
pub open spec fn take_line(pending: Seq<u8>, over: bool) -> Option<(Seq<u8>, Seq<u8>)> {
    match bytes::first_of(pending, NEWLINE) {
        Some(i) => Some((pending.take(i), pending.skip(i + 1))),
        None => if over && pending.len() > 0 {
            Some((pending, Seq::empty()))
        } else {
            None
        },
    }
}

/// The lines of a whole input.
pub open spec fn lines_of(input: Seq<u8>) -> Seq<Seq<u8>>
    decreases input.len(),
{
    match take_line(input, true) {
        None => seq![],
        Some((line, rest)) => if rest.len() < input.len() {
            seq![line] + lines_of(rest)
        } else {
            seq![]
        },
    }
}

/// Whether `step` is what a reader owes when `pending` has arrived.
pub open spec fn owed(step: LineStep, pending: Seq<u8>, over: bool) -> bool {
    match take_line(pending, over) {
        Some((line, _)) => step matches LineStep::Line(s) && s@ == crate::text::lossy(line),
        None => if over {
            step is End
        } else {
            step is Read
        },
    }
}

/// Bytes that arrive later do not change a line that is already whole.
pub proof fn whole_lines_stand(pending: Seq<u8>, more: Seq<u8>, over: bool)
    requires
        take_line(pending, false) is Some,
    ensures
        take_line(pending + more, over) == Some(
            (
                (take_line(pending, false)->0).0,
                (take_line(pending, false)->0).1 + more,
            ),
        ),
{
    bytes::lemma_first_of(pending, NEWLINE);
    let i = bytes::first_of(pending, NEWLINE)->0;
    let all = pending + more;
    assert forall|j: int| 0 <= j <= i implies all[j] == pending[j] by {}
    bytes::lemma_first_is(all, NEWLINE, i);
    assert(all.take(i) =~= pending.take(i));
    assert(all.skip(i + 1) =~= pending.skip(i + 1) + more);
}

/// Handing a line out as soon as it is whole neither loses nor invents one: the lines of the whole
/// input are that line and then the lines of what is left, whatever is still to arrive.
pub proof fn lines_do_not_depend_on_arrival(pending: Seq<u8>, over: bool, more: Seq<u8>)
    requires
        take_line(pending, over) is Some,
        over ==> more.len() == 0,
    ensures
        lines_of(pending + more) == seq![(take_line(pending, over)->0).0] + lines_of(
            (take_line(pending, over)->0).1 + more,
        ),
{
    bytes::lemma_first_of(pending, NEWLINE);
    let (line, rest) = take_line(pending, over)->0;
    if bytes::first_of(pending, NEWLINE) is Some {
        assert(take_line(pending, false) == take_line(pending, over));
        whole_lines_stand(pending, more, true);
        assert((rest + more).len() < (pending + more).len());
    } else {
        assert(pending + more =~= pending);
        assert(rest + more =~= rest);
    }
}

/// What happens to a reader.
pub enum Move {
    /// It is asked for a line.
    Ask,
    /// Bytes arrive.
    Arrive(Seq<u8>),
    /// The input is over.
    Over,
}

/// A reader and what it has handed out.
pub struct Reader {
    /// What has arrived and not been handed out.
    pub pending: Seq<u8>,
    /// Whether the input is over.
    pub over: bool,
    /// The lines that were handed out.
    pub out: Seq<Seq<u8>>,
}

impl Reader {
    /// The reader after one more move.
    pub open spec fn step(self, m: Move) -> Reader {
        match m {
            Move::Ask => match take_line(self.pending, self.over) {
                Some((line, rest)) => Reader {
                    pending: rest,
                    out: self.out.push(line),
                    ..self
                },
                None => self,
            },
            Move::Arrive(chunk) => Reader { pending: self.pending + chunk, ..self },
            Move::Over => Reader { over: true, ..self },
        }
    }
}

/// A new reader after these moves.
pub open spec fn reader_after(moves: Seq<Move>) -> Reader
    decreases moves.len(),
{
    if moves.len() == 0 {
        Reader { pending: Seq::empty(), over: false, out: Seq::empty() }
    } else {
        reader_after(moves.drop_last()).step(moves.last())
    }
}

/// Everything that arrived, however it was split.
pub open spec fn sent(moves: Seq<Move>) -> Seq<u8>
    decreases moves.len(),
{
    if moves.len() == 0 {
        Seq::empty()
    } else {
        match moves.last() {
            Move::Arrive(chunk) => sent(moves.drop_last()) + chunk,
            _ => sent(moves.drop_last()),
        }
    }
}

/// Whether nothing arrives once the input is over.
pub open spec fn orderly(moves: Seq<Move>) -> bool
    decreases moves.len(),
{
    moves.len() > 0 ==> {
        &&& orderly(moves.drop_last())
        &&& moves.last() is Arrive ==> !reader_after(moves.drop_last()).over
    }
}

/// At any moment, what was handed out and the lines of what is left are the lines of everything,
/// whatever is still to arrive.
proof fn lemma_lines_so_far(moves: Seq<Move>, more: Seq<u8>)
    requires
        orderly(moves),
        reader_after(moves).over ==> more.len() == 0,
    ensures
        reader_after(moves).out + lines_of(reader_after(moves).pending + more) == lines_of(
            sent(moves) + more,
        ),
    decreases moves.len(),
{
    if moves.len() == 0 {
        assert(Seq::<u8>::empty() + more =~= more);
        assert(Seq::<Seq<u8>>::empty() + lines_of(more) =~= lines_of(more));
    } else {
        let front = moves.drop_last();
        let before = reader_after(front);
        match moves.last() {
            Move::Ask => {
                lemma_lines_so_far(front, more);
                if take_line(before.pending, before.over) is Some {
                    lines_do_not_depend_on_arrival(before.pending, before.over, more);
                    let (line, rest) = take_line(before.pending, before.over)->0;
                    assert(before.out.push(line) + lines_of(rest + more) =~= before.out + (seq![
                        line,
                    ] + lines_of(rest + more)));
                }
            },
            Move::Arrive(chunk) => {
                lemma_lines_so_far(front, chunk + more);
                assert(before.pending + (chunk + more) =~= before.pending + chunk + more);
                assert(sent(front) + (chunk + more) =~= sent(front) + chunk + more);
            },
            Move::Over => {
                lemma_lines_so_far(front, more);
            },
        }
    }
}

/// However the bytes of an input were split on their way, and whenever the reader was asked, the
/// lines it has handed out once the input is over and it has no more are the lines of all that was
/// sent.
pub proof fn every_line_is_handed_out(moves: Seq<Move>)
    requires
        orderly(moves),
        reader_after(moves).over,
        take_line(reader_after(moves).pending, true) is None,
    ensures
        reader_after(moves).out == lines_of(sent(moves)),
{
    let r = reader_after(moves);
    lemma_lines_so_far(moves, Seq::empty());
    assert(r.pending =~= Seq::empty());
    assert(r.pending + Seq::empty() =~= r.pending);
    assert(sent(moves) + Seq::empty() =~= sent(moves));
    assert(r.out + lines_of(r.pending) =~= r.out);
}

/// A reader over a connection learns that the stream has ended from a read, when it has no whole
/// line left: the lines it has handed out by then, and what is left as one more, unless that is
/// nothing, are the lines of all that was sent.
pub proof fn the_last_line_completes_them(moves: Seq<Move>)
    requires
        orderly(moves),
        !reader_after(moves).over,
        take_line(reader_after(moves).pending, false) is None,
    ensures
        reader_after(moves).out + (if reader_after(moves).pending.len() > 0 {
            seq![reader_after(moves).pending]
        } else {
            seq![]
        }) == lines_of(sent(moves)),
{
    let r = reader_after(moves);
    lemma_lines_so_far(moves, Seq::empty());
    assert(r.pending + Seq::empty() =~= r.pending);
    assert(sent(moves) + Seq::empty() =~= sent(moves));
    if r.pending.len() > 0 {
        assert(take_line(r.pending, true) == Some((r.pending, Seq::<u8>::empty())));
        assert(lines_of(Seq::empty()) =~= Seq::empty());
        assert(lines_of(r.pending) =~= seq![r.pending]);
    } else {
        assert(lines_of(r.pending) =~= Seq::empty());
    }
}

/// No line of an input holds a newline.
pub proof fn lines_hold_no_newline(input: Seq<u8>, k: int)
    requires
        0 <= k < lines_of(input).len(),
    ensures
        !lines_of(input)[k].contains(NEWLINE),
    decreases input.len(),
{
    bytes::lemma_first_of(input, NEWLINE);
    let (line, rest) = take_line(input, true)->0;
    if k > 0 {
        lines_hold_no_newline(rest, k - 1);
    }
}

/// Lines written one after the other, each with its newline.
pub open spec fn with_newlines(lines: Seq<Seq<u8>>) -> Seq<u8>
    decreases lines.len(),
{
    if lines.len() == 0 {
        Seq::empty()
    } else {
        lines[0].push(NEWLINE) + with_newlines(lines.drop_first())
    }
}

/// What was written line by line is read back line by line.
pub proof fn written_lines_read_back(lines: Seq<Seq<u8>>)
    requires
        forall|k: int| 0 <= k < lines.len() ==> !(#[trigger] lines[k]).contains(NEWLINE),
    ensures
        lines_of(with_newlines(lines)) == lines,
    decreases lines.len(),
{
    if lines.len() == 0 {
        assert(bytes::first_of(with_newlines(lines), NEWLINE) is None);
        assert(lines_of(with_newlines(lines)) =~= lines);
    } else {
        let head = lines[0];
        let tail = lines.drop_first();
        let all = with_newlines(lines);
        let n = head.len() as int;
        assert forall|k: int| 0 <= k < tail.len() implies !(#[trigger] tail[k]).contains(
            NEWLINE,
        ) by {
            assert(tail[k] == lines[k + 1]);
        }
        written_lines_read_back(tail);
        assert(!lines[0].contains(NEWLINE));
        assert forall|j: int| 0 <= j < n implies all[j] != NEWLINE by {
            assert(all[j] == head[j]);
        }
        assert(all[n] == NEWLINE);
        bytes::lemma_first_is(all, NEWLINE, n);
        assert(all.take(n) =~= head);
        assert(all.skip(n + 1) =~= with_newlines(tail));
        assert(seq![head] + tail =~= lines);
    }
}


/// A line is what stands before its newline, and what is left is what follows it. Without a
/// newline there is no line yet, and once the input is over all that is left is one, unless that
/// is nothing.
pub proof fn a_line_ends_at_its_newline(line: Seq<u8>, rest: Seq<u8>, over: bool)
    requires
        !line.contains(NEWLINE),
    ensures
        take_line(line.push(NEWLINE) + rest, over) == Some((line, rest)),
        take_line(line, false) is None,
        take_line(line, true) == (if line.len() > 0 {
            Some((line, Seq::<u8>::empty()))
        } else {
            None
        }),
{
    bytes::the_first_is_found(line, NEWLINE, rest);
    let all = line.push(NEWLINE) + rest;
    assert(all.skip(line.len() as int + 1) =~= rest);
}

/// What a reader hands out: a line exactly where a newline has come, or something is left and the
/// input is over; the line is everything before the newline, and where that is text, it is that
/// text and nothing less.
pub proof fn what_is_owed(step: LineStep, pending: Seq<u8>, over: bool)
    requires
        owed(step, pending, over),
    ensures
        step is Read <==> !over && !pending.contains(NEWLINE),
        step is End <==> over && pending.len() == 0,
        step matches LineStep::Line(s) ==> s@ == text::lossy(bytes::until(pending, NEWLINE)),
        step matches LineStep::Line(s) ==> utf8::valid_utf8(bytes::until(pending, NEWLINE))
            ==> utf8::encode_utf8(s@) == bytes::until(pending, NEWLINE),
{
    bytes::lemma_first_of(pending, NEWLINE);
    if bytes::first_of(pending, NEWLINE) is Some {
        assert(pending.contains(pending[bytes::first_of(pending, NEWLINE)->0]));
    }
    text::text_is_kept(bytes::until(pending, NEWLINE), Seq::empty());
}

/// A line of text that has come whole is handed out as that text, whatever comes after it, and so
/// is what is left of the input once it is over.
pub proof fn a_line_of_text_is_handed_out(
    step: LineStep,
    line: Seq<char>,
    rest: Seq<u8>,
    over: bool,
)
    requires
        !utf8::encode_utf8(line).contains(NEWLINE),
    ensures
        owed(step, utf8::encode_utf8(line).push(NEWLINE) + rest, over) ==> (step matches
            LineStep::Line(s) && s@ == line),
        owed(step, utf8::encode_utf8(line), true) && utf8::encode_utf8(line).len() > 0 ==> (
        step matches LineStep::Line(s) && s@ == line),
{
    let bytes = utf8::encode_utf8(line);
    a_line_ends_at_its_newline(bytes, rest, over);
    text::text_is_kept(bytes, line);
}

/// The bytes of several texts.
pub open spec fn encoded(texts: Seq<Seq<char>>) -> Seq<Seq<u8>> {
    Seq::new(texts.len(), |k: int| utf8::encode_utf8(texts[k]))
}

/// Text that was written line by line is read back as the same texts, one for each line.
pub proof fn written_text_reads_back(texts: Seq<Seq<char>>)
    requires
        forall|k: int|
            0 <= k < texts.len() ==> !utf8::encode_utf8(#[trigger] texts[k]).contains(NEWLINE),
    ensures
        lines_of(with_newlines(encoded(texts))).len() == texts.len(),
        forall|k: int|
            0 <= k < texts.len() ==> text::lossy(
                #[trigger] lines_of(with_newlines(encoded(texts)))[k],
            ) == texts[k],
{
    let all = encoded(texts);
    assert forall|k: int| 0 <= k < all.len() implies !(#[trigger] all[k]).contains(NEWLINE) by {
        assert(all[k] == utf8::encode_utf8(texts[k]));
    }
    written_lines_read_back(all);
    assert forall|k: int| 0 <= k < texts.len() implies text::lossy(
        #[trigger] lines_of(with_newlines(all))[k],
    ) == texts[k] by {
        text::text_is_kept(all[k], texts[k]);
    }
}


/// What is left once a line has been handed out: what follows its newline, or nothing where it had
/// none. Nothing is taken where there is no line.
pub proof fn what_is_left(pending: Seq<u8>, over: bool)
    ensures
        take_line(pending, over) is Some <==> pending.contains(NEWLINE) || (over && pending.len()
            > 0),
        take_line(pending, over) matches Some((line, rest)) ==> line == bytes::until(
            pending,
            NEWLINE,
        ) && rest == (if pending.contains(NEWLINE) {
            pending.skip(line.len() as int + 1)
        } else {
            Seq::empty()
        }),
{
    bytes::lemma_first_of(pending, NEWLINE);
    if bytes::first_of(pending, NEWLINE) is Some {
        assert(pending.contains(pending[bytes::first_of(pending, NEWLINE)->0]));
    }
}

} // verus!
