//! Bytes as text, and numbers as digits.
//!
//! Paths, environment values and lines are bytes first. Turning them into text either fails, when
//! the caller has to know, or replaces what is not UTF-8, when the text is only for a message.

use std::borrow::Cow;

use vstd::prelude::*;
use vstd::slice::slice_subrange;
use vstd::utf8;

verus! {

/// How many bytes at the front decode, and how many after them do not: the first chunk that
/// `<[u8]>::utf8_chunks` yields.
pub uninterp spec fn utf8_chunk(bytes: Seq<u8>) -> (int, int);

/// The chunks of `bytes`, as the lengths of the valid and the invalid part of each.
pub open spec fn chunks_of(bytes: Seq<u8>) -> Seq<(int, int)>
    decreases bytes.len(),
{
    let (valid, invalid) = utf8_chunk(bytes);
    let used = valid + invalid;
    if 0 <= valid && 0 <= invalid && 0 < used <= bytes.len() {
        seq![(valid, invalid)] + chunks_of(bytes.skip(used))
    } else {
        seq![]
    }
}

/// Whether `bytes` can be cut into chunks of these lengths, with valid parts that are UTF-8.
pub open spec fn chunked(bytes: Seq<u8>, chunks: Seq<(int, int)>) -> bool
    decreases chunks.len(),
{
    chunks.len() > 0 ==> {
        let (valid, invalid) = chunks[0];
        &&& 0 <= valid
        &&& 0 <= invalid
        &&& valid + invalid <= bytes.len()
        &&& utf8::valid_utf8(bytes.take(valid))
        &&& chunked(bytes.skip(valid + invalid), chunks.drop_first())
    }
}

/// The text of `bytes` cut into chunks of these lengths, with one replacement character for each
/// invalid part.
pub open spec fn replaced_by(bytes: Seq<u8>, chunks: Seq<(int, int)>) -> Seq<char>
    decreases chunks.len(),
{
    if chunks.len() == 0 {
        Seq::empty()
    } else {
        let (valid, invalid) = chunks[0];
        let mark = if invalid > 0 {
            seq!['\u{fffd}']
        } else {
            Seq::empty()
        };
        utf8::decode_utf8(bytes.take(valid)) + mark + replaced_by(
            bytes.skip(valid + invalid),
            chunks.drop_first(),
        )
    }
}

/// The text of `bytes`, with one replacement character for each stretch that does not decode.
pub open spec fn replaced(bytes: Seq<u8>) -> Seq<char> {
    replaced_by(bytes, chunks_of(bytes))
}

/// Lengths as numbers.
pub open spec fn lengths(chunks: Seq<(usize, usize)>) -> Seq<(int, int)> {
    Seq::new(chunks.len(), |i: int| (chunks[i].0 as int, chunks[i].1 as int))
}

/// The text of `bytes`: what they encode, or what is left of it after replacement.
pub open spec fn lossy(bytes: Seq<u8>) -> Seq<char> {
    if utf8::valid_utf8(bytes) {
        utf8::decode_utf8(bytes)
    } else {
        replaced(bytes)
    }
}

/// `std::str::from_utf8`: text exactly when the bytes are well-formed UTF-8, and then the text
/// they encode.
#[verifier::external_body]
pub(crate) fn from_utf8(bytes: &[u8]) -> (r: Option<&str>)
    ensures
        r is Some <==> utf8::valid_utf8(bytes@),
        r matches Some(s) ==> s@ == utf8::decode_utf8(bytes@),
{
    std::str::from_utf8(bytes).ok()
}

/// The first item of `<[u8]>::utf8_chunks`, as the lengths of its valid and its invalid part.
///
/// There is none when there are no bytes. The valid part is well-formed UTF-8 and the invalid
/// part, of at most three bytes, follows it; an empty invalid part means the chunk is the last
/// one, so the valid part is everything. How long an invalid part is follows from the bytes alone
/// and is left to the name.
#[verifier::external_body]
pub(crate) fn first_chunk(bytes: &[u8]) -> (r: Option<(usize, usize)>)
    ensures
        r is None <==> bytes@.len() == 0,
        r matches Some(c) ==> {
            &&& (c.0 as int, c.1 as int) == utf8_chunk(bytes@)
            &&& 0 < c.0 + c.1 <= bytes@.len()
            &&& c.1 <= 3
            &&& utf8::valid_utf8(bytes@.take(c.0 as int))
            &&& c.1 == 0 ==> c.0 == bytes@.len()
            &&& c.1 > 0 ==> !utf8::valid_first_scalar(bytes@.skip(c.0 as int))
        },
{
    bytes.utf8_chunks().next().map(|c| (c.valid().len(), c.invalid().len()))
}

/// Text from owned bytes, when they are UTF-8.
pub fn string_from_utf8(bytes: Vec<u8>) -> (r: Option<String>)
    ensures
        r is Some <==> utf8::valid_utf8(bytes@),
        r matches Some(s) ==> s@ == utf8::decode_utf8(bytes@),
{
    match from_utf8(bytes.as_slice()) {
        Some(s) => Some(s.to_owned()),
        None => None,
    }
}

/// Text from bytes cut into chunks of these lengths, with a replacement character for each invalid
/// part.
pub fn replace_chunks(bytes: &[u8], chunks: &[(usize, usize)]) -> (r: String)
    requires
        chunked(bytes@, lengths(chunks@)),
    ensures
        r@ == replaced_by(bytes@, lengths(chunks@)),
{
    let ghost all = lengths(chunks@);
    let mut out = String::new();
    let mut at: usize = 0;
    let mut k: usize = 0;
    assert(bytes@.skip(0) =~= bytes@);
    assert(all.skip(0) =~= all);
    assert(out@ + replaced_by(bytes@, all) =~= replaced_by(bytes@, all));
    while k < chunks.len()
        invariant
            k <= chunks.len(),
            at <= bytes.len(),
            all == lengths(chunks@),
            chunked(bytes@.skip(at as int), all.skip(k as int)),
            out@ + replaced_by(bytes@.skip(at as int), all.skip(k as int)) == replaced_by(
                bytes@,
                all,
            ),
        decreases chunks.len() - k,
    {
        let ghost before = out@;
        let ghost rest = bytes@.skip(at as int);
        let ghost left = all.skip(k as int);
        let (valid, invalid) = chunks[k];
        assert(left[0] == (valid as int, invalid as int));
        assert(left.drop_first() =~= all.skip(k + 1));
        assert(rest.skip(valid + invalid) =~= bytes@.skip(at + valid + invalid));
        let head = slice_subrange(bytes, at, at + valid);
        assert(head@ =~= rest.take(valid as int));
        match from_utf8(head) {
            Some(s) => {
                out.append(s);
            },
            None => {
                assert(false);
            },
        }
        let ghost mark: Seq<char> = if invalid > 0 {
            seq!['\u{fffd}']
        } else {
            Seq::empty()
        };
        if invalid > 0 {
            proof {
                reveal_strlit("\u{fffd}");
                assert("\u{fffd}"@ =~= mark);
            }
            out.append("\u{fffd}");
        }
        proof {
            let head_text = utf8::decode_utf8(rest.take(valid as int));
            let tail = replaced_by(bytes@.skip(at + valid + invalid), all.skip(k + 1));
            assert(replaced_by(rest, left) == head_text + mark + tail);
            assert(out@ =~= before + head_text + mark);
            assert(out@ + tail =~= before + (head_text + mark + tail));
        }
        at = at + valid + invalid;
        k = k + 1;
    }
    assert(out@ + replaced_by(bytes@.skip(at as int), all.skip(k as int)) =~= out@);
    out
}

/// Text with a replacement character for each stretch that is not UTF-8.
pub fn replace_invalid(bytes: &[u8]) -> (r: String)
    ensures
        r@ == replaced(bytes@),
{
    let mut chunks: Vec<(usize, usize)> = Vec::new();
    let mut at: usize = 0;
    let ghost whole = chunks_of(bytes@);
    assert(bytes@.skip(0) =~= bytes@);
    assert(lengths(chunks@) + whole =~= whole);
    assert forall|more: Seq<(int, int)>| #[trigger]
        chunked(bytes@.skip(0), more) implies chunked(bytes@, lengths(chunks@) + more) by {
        assert(lengths(chunks@) + more =~= more);
    }
    while at < bytes.len()
        invariant
            at <= bytes.len(),
            lengths(chunks@) + chunks_of(bytes@.skip(at as int)) == whole,
            forall|more: Seq<(int, int)>| #[trigger]
                chunked(bytes@.skip(at as int), more) ==> chunked(bytes@, lengths(chunks@) + more),
        decreases bytes.len() - at,
    {
        let rest = slice_subrange(bytes, at, bytes.len());
        assert(rest@ =~= bytes@.skip(at as int));
        match first_chunk(rest) {
            None => {
                assert(false);
            },
            Some((valid, invalid)) => {
                let ghost before = lengths(chunks@);
                let ghost one = (valid as int, invalid as int);
                let ghost next = bytes@.skip(at + valid + invalid);
                chunks.push((valid, invalid));
                proof {
                    assert(rest@.skip(valid + invalid) =~= next);
                    assert(lengths(chunks@) =~= before.push(one));
                    assert(chunks_of(rest@) == seq![one] + chunks_of(next));
                    assert(lengths(chunks@) + chunks_of(next) =~= before + (seq![one] + chunks_of(
                        next,
                    )));
                    assert forall|more: Seq<(int, int)>| #[trigger]
                        chunked(next, more) implies chunked(bytes@, lengths(chunks@) + more) by {
                        let longer = seq![one] + more;
                        assert(longer.drop_first() =~= more);
                        assert(chunked(rest@, longer));
                        assert(before + longer =~= lengths(chunks@) + more);
                    }
                }
                at = at + (valid + invalid);
            },
        }
    }
    proof {
        let end = bytes@.skip(at as int);
        let none: Seq<(int, int)> = seq![];
        assert(chunked(end, none));
        assert(chunks_of(end) =~= none);
        assert(lengths(chunks@) + none =~= lengths(chunks@));
    }
    replace_chunks(bytes, chunks.as_slice())
}

/// The text of `bytes`, borrowed when they are already UTF-8.
pub fn to_text(bytes: &[u8]) -> (r: Cow<'_, str>)
    ensures
        r@ == lossy(bytes@),
{
    match from_utf8(bytes) {
        Some(s) => Cow::Borrowed(s),
        None => Cow::Owned(replace_invalid(bytes)),
    }
}

/// The text of `bytes`, owned.
pub fn to_owned_text(bytes: &[u8]) -> (r: String)
    ensures
        r@ == lossy(bytes@),
{
    match from_utf8(bytes) {
        Some(s) => s.to_owned(),
        None => replace_invalid(bytes),
    }
}

/// The decimal digits of `n`, most significant first, as ASCII.
pub open spec fn decimal_bytes(n: nat) -> Seq<u8>
    decreases n,
{
    if n < 10 {
        seq![(48 + n) as u8]
    } else {
        decimal_bytes(n / 10).push((48 + n % 10) as u8)
    }
}

/// The decimal digits of `n` as text.
pub open spec fn decimal(n: nat) -> Seq<char> {
    decimal_bytes(n).map_values(|b: u8| b as char)
}

/// A number in decimal, with a minus sign when it is negative.
pub open spec fn signed_decimal(n: int) -> Seq<char> {
    if n < 0 {
        seq!['-'] + decimal((-n) as nat)
    } else {
        decimal(n as nat)
    }
}

/// One digit.
fn digit_text(d: u64) -> (r: &'static str)
    requires
        d < 10,
    ensures
        r@ == seq![((48 + d) as u8) as char],
{
    proof {
        reveal_strlit("0");
        reveal_strlit("1");
        reveal_strlit("2");
        reveal_strlit("3");
        reveal_strlit("4");
        reveal_strlit("5");
        reveal_strlit("6");
        reveal_strlit("7");
        reveal_strlit("8");
        reveal_strlit("9");
    }
    let r = match d {
        0 => "0",
        1 => "1",
        2 => "2",
        3 => "3",
        4 => "4",
        5 => "5",
        6 => "6",
        7 => "7",
        8 => "8",
        _ => "9",
    };
    assert(r@ =~= seq![((48 + d) as u8) as char]);
    r
}

/// Append a number in decimal.
pub fn push_decimal(out: &mut String, n: u64)
    ensures
        final(out)@ == old(out)@ + decimal(n as nat),
    decreases n,
{
    if n >= 10 {
        push_decimal(out, n / 10);
    }
    let ghost high = out@;
    let d: u64 = n % 10;
    out.append(digit_text(d));
    proof {
        let high_digits = if n >= 10 {
            decimal((n / 10) as nat)
        } else {
            Seq::empty()
        };
        assert(decimal(n as nat) =~= high_digits + seq![((48 + d) as u8) as char]);
        assert(out@ =~= old(out)@ + decimal(n as nat));
    }
}

/// Append a signed number in decimal.
pub fn push_signed(out: &mut String, n: i32)
    ensures
        final(out)@ == old(out)@ + signed_decimal(n as int),
{
    if n < 0 {
        proof {
            reveal_strlit("-");
            assert("-"@ =~= seq!['-']);
        }
        out.append("-");
        let wide: i64 = n as i64;
        let magnitude: u64 = (-wide) as u64;
        push_decimal(out, magnitude);
        assert(out@ =~= old(out)@ + (seq!['-'] + decimal(magnitude as nat)));
    } else {
        push_decimal(out, n as u64);
    }
}


/// Bytes that are text are that text, all of it: encoded again it gives the same bytes, and text
/// that was encoded is read as it was.
pub proof fn text_is_kept(bytes: Seq<u8>, text: Seq<char>)
    ensures
        utf8::valid_utf8(bytes) ==> utf8::encode_utf8(lossy(bytes)) == bytes,
        lossy(utf8::encode_utf8(text)) == text,
{
    if utf8::valid_utf8(bytes) {
        utf8::decode_utf8_encode_utf8(bytes);
    }
    utf8::encode_utf8_valid_utf8(text);
    utf8::encode_utf8_decode_utf8(text);
}

/// Each stretch that does not decode is one replacement character, where it stands; the text before
/// it is kept and the text after it goes on.
pub proof fn each_stretch_is_replaced_once(
    text: Seq<char>,
    bad: Seq<u8>,
    rest: Seq<u8>,
    chunks: Seq<(int, int)>,
)
    ensures
        ({
            let front = utf8::encode_utf8(text);
            let n = front.len() as int;
            &&& bad.len() > 0 ==> replaced_by(
                front + bad + rest,
                seq![(n, bad.len() as int)] + chunks,
            ) == text + seq!['\u{fffd}'] + replaced_by(rest, chunks)
            &&& replaced_by(front + rest, seq![(n, 0)] + chunks) == text + replaced_by(
                rest,
                chunks,
            )
            &&& replaced_by(rest, Seq::empty()) == Seq::<char>::empty()
        }),
{
    let front = utf8::encode_utf8(text);
    let n = front.len() as int;
    utf8::encode_utf8_decode_utf8(text);
    let whole = front + bad + rest;
    assert(whole.take(n) =~= front);
    assert(whole.skip(n + bad.len()) =~= rest);
    assert((front + rest).take(n) =~= front);
    assert((front + rest).skip(n + 0) =~= rest);
    let some = seq![(n, bad.len() as int)] + chunks;
    let none = seq![(n, 0int)] + chunks;
    assert(some.drop_first() =~= chunks);
    assert(none.drop_first() =~= chunks);
    assert(text + Seq::<char>::empty() =~= text);
}

/// What is left is text to its end where nothing in it fails to decode, and nothing is left of
/// nothing.
pub proof fn the_last_chunk_is_text(bytes: Seq<u8>)
    requires
        utf8_chunk(bytes) == (bytes.len() as int, 0int),
    ensures
        replaced(bytes) == (if bytes.len() > 0 {
            utf8::decode_utf8(bytes)
        } else {
            Seq::<char>::empty()
        }),
{
    reveal_with_fuel(chunks_of, 2);
    reveal_with_fuel(replaced_by, 2);
    let n = bytes.len() as int;
    assert(bytes.take(n) =~= bytes);
    if n > 0 {
        let (valid, invalid) = utf8_chunk(bytes.skip(n));
        assert(bytes.skip(n).len() == 0);
        assert(chunks_of(bytes.skip(n)) =~= Seq::<(int, int)>::empty());
        assert(chunks_of(bytes) =~= seq![(n, 0int)]);
        assert(seq![(n, 0int)].drop_first() =~= Seq::<(int, int)>::empty());
        assert(replaced(bytes) =~= utf8::decode_utf8(bytes));
    }
}

/// Bytes that are not all text are cut where the standard library cuts them.
pub proof fn the_rest_is_cut_in_chunks(bytes: Seq<u8>, valid: int, invalid: int)
    requires
        utf8_chunk(bytes) == (valid, invalid),
        0 <= valid,
        0 < invalid,
        valid + invalid <= bytes.len(),
        !utf8::valid_utf8(bytes),
    ensures
        lossy(bytes) == utf8::decode_utf8(bytes.take(valid)) + seq!['\u{fffd}'] + replaced(
            bytes.skip(valid + invalid),
        ),
{
    let chunks = chunks_of(bytes);
    assert(chunks.drop_first() =~= chunks_of(bytes.skip(valid + invalid)));
}

/// The number that decimal digits stand for.
pub open spec fn value_of(digits: Seq<u8>) -> int
    decreases digits.len(),
{
    if digits.len() == 0 {
        0
    } else {
        value_of(digits.drop_last()) * 10 + (digits.last() - 48)
    }
}

/// The digits of a number are decimal digits that stand for it, without a zero in front unless that
/// is the number.
pub proof fn digits_read_back(n: nat)
    ensures
        value_of(decimal_bytes(n)) == n,
        decimal_bytes(n).len() > 0,
        forall|k: int|
            0 <= k < decimal_bytes(n).len() ==> 48 <= #[trigger] decimal_bytes(n)[k] <= 57,
        n > 0 ==> decimal_bytes(n)[0] != 48,
        decimal_bytes(0).len() == 1,
    decreases n,
{
    reveal_with_fuel(value_of, 2);
    if n < 10 {
        assert(decimal_bytes(n).drop_last() =~= Seq::<u8>::empty());
    } else {
        digits_read_back(n / 10);
        assert(decimal_bytes(n).drop_last() =~= decimal_bytes(n / 10));
    }
}

/// A number in decimal is its digits, each as a character, with a minus sign in front of a negative
/// one's.
pub proof fn a_number_is_its_digits(n: nat)
    ensures
        decimal(n).len() == decimal_bytes(n).len(),
        forall|k: int|
            0 <= k < decimal(n).len() ==> (#[trigger] decimal(n)[k]) == decimal_bytes(n)[k] as char,
        signed_decimal(n as int) == decimal(n),
        n > 0 ==> signed_decimal(-n) == seq!['-'] + decimal(n),
{
}


/// The lengths of chunks are those that were given.
pub proof fn each_length_in_its_place(chunks: Seq<(usize, usize)>)
    ensures
        lengths(chunks).len() == chunks.len(),
        forall|i: int|
            0 <= i < chunks.len() ==> (#[trigger] lengths(chunks)[i]) == (
                chunks[i].0 as int,
                chunks[i].1 as int,
            ),
{
}

} // verus!
