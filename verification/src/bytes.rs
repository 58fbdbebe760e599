//! Byte strings: finding a byte, cutting at it, and comparing.
//!
//! Paths, environment entries and lines off a socket are all the same thing here, a run of bytes
//! with a separator in it, so the searching and the cutting are stated once.

use vstd::prelude::*;
use vstd::slice::{slice_subrange, slice_to_vec};

verus! {

/// The position of the first `b`.
pub open spec fn first_of(s: Seq<u8>, b: u8) -> Option<int>
    decreases s.len(),
{
    if s.len() == 0 {
        None
    } else if s[0] == b {
        Some(0)
    } else {
        match first_of(s.drop_first(), b) {
            Some(i) => Some(i + 1),
            None => None,
        }
    }
}

/// The position of the last `b`.
pub open spec fn last_of(s: Seq<u8>, b: u8) -> Option<int>
    decreases s.len(),
{
    if s.len() == 0 {
        None
    } else if s.last() == b {
        Some(s.len() - 1)
    } else {
        last_of(s.drop_last(), b)
    }
}

/// What stands before the first `b`, or all of it.
pub open spec fn until(s: Seq<u8>, b: u8) -> Seq<u8> {
    match first_of(s, b) {
        Some(i) => s.take(i),
        None => s,
    }
}

/// The non-empty runs between separators, in order.
pub open spec fn fields(s: Seq<u8>, sep: u8) -> Seq<Seq<u8>>
    decreases s.len(),
{
    if s.len() == 0 {
        seq![]
    } else if s[0] == sep {
        fields(s.drop_first(), sep)
    } else {
        let run = until(s, sep);
        if 0 < run.len() <= s.len() {
            seq![run] + fields(s.skip(run.len() as int), sep)
        } else {
            seq![]
        }
    }
}

/// `s` without the separators it begins with.
pub open spec fn trim_start(s: Seq<u8>, sep: u8) -> Seq<u8>
    decreases s.len(),
{
    if s.len() > 0 && s[0] == sep {
        trim_start(s.drop_first(), sep)
    } else {
        s
    }
}

/// `s` without the separators it ends with.
pub open spec fn trim_end(s: Seq<u8>, sep: u8) -> Seq<u8>
    decreases s.len(),
{
    if s.len() > 0 && s.last() == sep {
        trim_end(s.drop_last(), sep)
    } else {
        s
    }
}

/// Whether `s` begins with `p`.
pub open spec fn begins(s: Seq<u8>, p: Seq<u8>) -> bool {
    p.len() <= s.len() && s.take(p.len() as int) == p
}

/// Whether `s` ends with `p`.
pub open spec fn ends(s: Seq<u8>, p: Seq<u8>) -> bool {
    p.len() <= s.len() && s.skip(s.len() - p.len()) == p
}

/// The contents of a vector of borrowed byte strings.
pub open spec fn views(v: Seq<&[u8]>) -> Seq<Seq<u8>> {
    Seq::new(v.len(), |i: int| v[i]@)
}

/// The contents of a vector of owned byte strings.
pub open spec fn owned_views(v: Seq<Vec<u8>>) -> Seq<Seq<u8>> {
    Seq::new(v.len(), |i: int| v[i]@)
}

/// The first position is one where the byte stands, with none before it; there is none where the
/// byte does not occur.
pub proof fn lemma_first_of(s: Seq<u8>, b: u8)
    ensures
        match first_of(s, b) {
            Some(i) => 0 <= i < s.len() && s[i] == b && forall|j: int| 0 <= j < i ==> s[j] != b,
            None => forall|j: int| 0 <= j < s.len() ==> s[j] != b,
        },
    decreases s.len(),
{
    if s.len() > 0 && s[0] != b {
        let t = s.drop_first();
        lemma_first_of(t, b);
        assert forall|j: int| 1 <= j < s.len() implies s[j] == t[j - 1] by {}
    }
}

pub proof fn lemma_first_is(s: Seq<u8>, b: u8, i: int)
    requires
        0 <= i < s.len(),
        s[i] == b,
        forall|j: int| 0 <= j < i ==> s[j] != b,
    ensures
        first_of(s, b) == Some(i),
{
    lemma_first_of(s, b);
}

/// The last position is one where the byte stands, with none after it; there is none where the byte
/// does not occur.
pub proof fn lemma_last_of(s: Seq<u8>, b: u8)
    ensures
        match last_of(s, b) {
            Some(i) => 0 <= i < s.len() && s[i] == b && forall|j: int|
                i < j < s.len() ==> s[j] != b,
            None => forall|j: int| 0 <= j < s.len() ==> s[j] != b,
        },
    decreases s.len(),
{
    if s.len() > 0 && s.last() != b {
        let t = s.drop_last();
        lemma_last_of(t, b);
        assert forall|j: int| 0 <= j < t.len() implies s[j] == t[j] by {}
    }
}

pub proof fn lemma_last_is(s: Seq<u8>, b: u8, i: int)
    requires
        0 <= i < s.len(),
        s[i] == b,
        forall|j: int| i < j < s.len() ==> s[j] != b,
    ensures
        last_of(s, b) == Some(i),
{
    lemma_last_of(s, b);
}

pub proof fn lemma_last_none(s: Seq<u8>, b: u8)
    requires
        forall|j: int| 0 <= j < s.len() ==> s[j] != b,
    ensures
        last_of(s, b) is None,
{
    lemma_last_of(s, b);
}

/// The first position of `b`, if it is there.
pub fn position(s: &[u8], b: u8) -> (r: Option<usize>)
    ensures
        match r {
            Some(i) => i < s.len() && first_of(s@, b) == Some(i as int),
            None => first_of(s@, b) is None,
        },
{
    let mut i: usize = 0;
    while i < s.len()
        invariant
            i <= s.len(),
            forall|j: int| 0 <= j < i ==> s@[j] != b,
        decreases s.len() - i,
    {
        if s[i] == b {
            proof {
                lemma_first_is(s@, b, i as int);
            }
            return Some(i);
        }
        i = i + 1;
    }
    proof {
        lemma_first_of(s@, b);
    }
    None
}

/// The last position of `b`, if it is there.
pub fn rposition(s: &[u8], b: u8) -> (r: Option<usize>)
    ensures
        match r {
            Some(i) => i < s.len() && last_of(s@, b) == Some(i as int),
            None => last_of(s@, b) is None,
        },
{
    let mut i: usize = s.len();
    while i > 0
        invariant
            i <= s.len(),
            forall|j: int| i <= j < s.len() ==> s@[j] != b,
        decreases i,
    {
        i = i - 1;
        if s[i] == b {
            proof {
                lemma_last_is(s@, b, i as int);
            }
            return Some(i);
        }
    }
    proof {
        lemma_last_of(s@, b);
    }
    None
}

/// Whether two byte strings are the same.
pub fn equal(a: &[u8], b: &[u8]) -> (r: bool)
    ensures
        r == (a@ == b@),
{
    if a.len() != b.len() {
        return false;
    }
    let mut i: usize = 0;
    while i < a.len()
        invariant
            i <= a.len(),
            a.len() == b.len(),
            forall|j: int| 0 <= j < i ==> a@[j] == b@[j],
        decreases a.len() - i,
    {
        if a[i] != b[i] {
            return false;
        }
        i = i + 1;
    }
    assert(a@ =~= b@);
    true
}

/// Whether `s` begins with `p`.
pub fn starts_with(s: &[u8], p: &[u8]) -> (r: bool)
    ensures
        r == begins(s@, p@),
{
    if p.len() > s.len() {
        return false;
    }
    let head = slice_subrange(s, 0, p.len());
    assert(head@ =~= s@.take(p@.len() as int));
    equal(head, p)
}

/// Whether `s` ends with `p`.
pub fn ends_with(s: &[u8], p: &[u8]) -> (r: bool)
    ensures
        r == ends(s@, p@),
{
    if p.len() > s.len() {
        return false;
    }
    let tail = slice_subrange(s, s.len() - p.len(), s.len());
    assert(tail@ =~= s@.skip(s@.len() - p@.len()));
    equal(tail, p)
}

/// A copy with a NUL on the end, which is what a system call takes.
pub fn nul_terminated(bytes: &[u8]) -> (r: Vec<u8>)
    ensures
        r@ == bytes@.push(0),
{
    let mut v = slice_to_vec(bytes);
    v.push(0);
    v
}

/// Append a byte string.
pub fn extend(v: &mut Vec<u8>, more: &[u8])
    ensures
        final(v)@ == old(v)@ + more@,
{
    v.extend_from_slice(more);
    assert(v@ =~= old(v)@ + more@);
}

/// `s` from its first byte that is not a separator.
pub fn skip_leading(s: &[u8], sep: u8) -> (r: &[u8])
    ensures
        r@ == trim_start(s@, sep),
{
    let mut i: usize = 0;
    assert(s@.skip(0) =~= s@);
    while i < s.len() && s[i] == sep
        invariant
            i <= s.len(),
            trim_start(s@.skip(i as int), sep) == trim_start(s@, sep),
        decreases s.len() - i,
    {
        proof {
            assert(s@.skip(i as int)[0] == s@[i as int]);
            assert(s@.skip(i as int).drop_first() =~= s@.skip(i + 1));
        }
        i = i + 1;
    }
    let r = slice_subrange(s, i, s.len());
    proof {
        assert(r@ =~= s@.skip(i as int));
        if i < s.len() {
            assert(s@.skip(i as int)[0] == s@[i as int]);
        }
    }
    r
}

/// How long `s` is without the separators it ends with.
pub fn trimmed_len(s: &[u8], sep: u8) -> (n: usize)
    ensures
        n <= s@.len(),
        s@.take(n as int) == trim_end(s@, sep),
{
    let mut n: usize = s.len();
    assert(s@.take(n as int) =~= s@);
    while n > 0 && s[n - 1] == sep
        invariant
            n <= s.len(),
            trim_end(s@.take(n as int), sep) == trim_end(s@, sep),
        decreases n,
    {
        assert(s@.take(n as int).drop_last() =~= s@.take(n - 1));
        n = n - 1;
    }
    n
}

/// The non-empty runs between separators.
pub fn split_fields(s: &[u8], sep: u8) -> (out: Vec<&[u8]>)
    ensures
        views(out@) == fields(s@, sep),
{
    let mut out: Vec<&[u8]> = Vec::new();
    let mut at: usize = 0;
    assert(s@.skip(0) =~= s@);
    assert(views(out@) =~= seq![]);
    assert(views(out@) + fields(s@, sep) =~= fields(s@, sep));
    while at < s.len()
        invariant
            at <= s.len(),
            views(out@) + fields(s@.skip(at as int), sep) == fields(s@, sep),
        decreases s.len() - at,
    {
        let ghost rest = s@.skip(at as int);
        if s[at] == sep {
            proof {
                assert(rest[0] == sep);
                assert(rest.drop_first() =~= s@.skip(at + 1));
            }
            at = at + 1;
        } else {
            let tail = slice_subrange(s, at, s.len());
            assert(tail@ =~= rest);
            let n: usize = match position(tail, sep) {
                Some(i) => i,
                None => tail.len(),
            };
            proof {
                lemma_first_of(rest, sep);
            }
            let run = slice_subrange(tail, 0, n);
            proof {
                assert(rest[0] != sep);
                assert(run@ =~= until(rest, sep));
                assert(rest.skip(n as int) =~= s@.skip(at + n));
                assert(fields(rest, sep) == seq![run@] + fields(s@.skip(at + n), sep));
                assert(views(out@.push(run)) =~= views(out@) + seq![run@]);
                assert(views(out@) + (seq![run@] + fields(s@.skip(at + n), sep)) =~= views(
                    out@.push(run),
                ) + fields(s@.skip(at + n), sep));
            }
            out.push(run);
            at = at + n;
        }
    }
    assert(s@.skip(at as int) =~= seq![]);
    assert(views(out@) + fields(s@.skip(at as int), sep) =~= views(out@));
    out
}

/// What is trimmed off the end is nothing but separators.
pub proof fn lemma_trim_end(s: Seq<u8>, sep: u8)
    ensures
        trim_end(s, sep).len() <= s.len(),
        s.take(trim_end(s, sep).len() as int) == trim_end(s, sep),
        forall|j: int| trim_end(s, sep).len() <= j < s.len() ==> s[j] == sep,
        trim_end(s, sep).len() > 0 ==> trim_end(s, sep).last() != sep,
    decreases s.len(),
{
    if s.len() > 0 && s.last() == sep {
        let t = s.drop_last();
        lemma_trim_end(t, sep);
        assert(s.take(trim_end(s, sep).len() as int) =~= t.take(trim_end(s, sep).len() as int));
        assert forall|j: int| trim_end(s, sep).len() <= j < s.len() implies s[j] == sep by {
            if j < t.len() {
                assert(t[j] == sep);
            }
        }
    } else {
        assert(s.take(s.len() as int) =~= s);
    }
}

/// Nothing but separators has no fields.
pub proof fn lemma_only_separators(s: Seq<u8>, sep: u8)
    requires
        forall|j: int| 0 <= j < s.len() ==> s[j] == sep,
    ensures
        fields(s, sep).len() == 0,
    decreases s.len(),
{
    if s.len() > 0 {
        lemma_only_separators(s.drop_first(), sep);
    }
}

/// Every field is non-empty and holds no separator.
pub proof fn fields_are_clean(s: Seq<u8>, sep: u8, k: int)
    requires
        0 <= k < fields(s, sep).len(),
    ensures
        fields(s, sep)[k].len() > 0,
        !fields(s, sep)[k].contains(sep),
    decreases s.len(),
{
    if s[0] == sep {
        fields_are_clean(s.drop_first(), sep, k);
    } else {
        let run = until(s, sep);
        lemma_first_of(s, sep);
        if k > 0 {
            fields_are_clean(s.skip(run.len() as int), sep, k - 1);
        }
    }
}

/// The fields of a longer string are those of its two halves, when it is cut at a separator.
pub proof fn fields_of_two_halves(a: Seq<u8>, b: Seq<u8>, sep: u8)
    requires
        a.len() == 0 || a.last() == sep || b.len() == 0 || b[0] == sep,
    ensures
        fields(a + b, sep) == fields(a, sep) + fields(b, sep),
    decreases a.len(),
{
    let whole = a + b;
    if a.len() == 0 {
        assert(whole =~= b);
        assert(fields(a, sep) + fields(b, sep) =~= fields(b, sep));
    } else if b.len() == 0 {
        assert(whole =~= a);
        assert(fields(a, sep) + fields(b, sep) =~= fields(a, sep));
    } else if a[0] == sep {
        let t = a.drop_first();
        if t.len() > 0 {
            assert(t.last() == a.last());
        }
        assert(whole.drop_first() =~= t + b);
        fields_of_two_halves(t, b, sep);
    } else {
        lemma_first_of(a, sep);
        lemma_first_of(whole, sep);
        let run = until(a, sep);
        let n = run.len() as int;
        assert(forall|j: int| 0 <= j < a.len() ==> whole[j] == a[j]);
        if n == a.len() {
            assert(whole[n] == b[0]);
        } else {
            assert(whole[n] == a[n]);
        }
        assert(until(whole, sep) =~= run);
        let t = a.skip(n);
        assert(whole.skip(n) =~= t + b);
        if t.len() > 0 {
            assert(t.last() == a.last());
        }
        fields_of_two_halves(t, b, sep);
        assert(seq![run] + (fields(t, sep) + fields(b, sep)) =~= (seq![run] + fields(t, sep))
            + fields(b, sep));
    }
}

/// Strings without separators, joined by one separator each, are the fields of the whole, less
/// those that are empty.
pub proof fn fields_read_back(front: Seq<u8>, last: Seq<u8>, sep: u8)
    requires
        !last.contains(sep),
    ensures
        fields(front.push(sep) + last, sep) == (if last.len() > 0 {
            fields(front, sep).push(last)
        } else {
            fields(front, sep)
        }),
        fields(last, sep) == (if last.len() > 0 {
            seq![last]
        } else {
            Seq::<Seq<u8>>::empty()
        }),
{
    let mid = seq![sep];
    fields_of_two_halves(front, mid, sep);
    lemma_only_separators(mid, sep);
    assert(front.push(sep) =~= front + mid);
    assert(fields(front, sep) + fields(mid, sep) =~= fields(front, sep));
    fields_of_two_halves(front.push(sep), last, sep);
    if last.len() > 0 {
        a_clean_run_is_one_field(last, sep);
        assert(fields(front, sep) + seq![last] =~= fields(front, sep).push(last));
    } else {
        assert(fields(last, sep) =~= Seq::<Seq<u8>>::empty());
        assert(fields(front, sep) + fields(last, sep) =~= fields(front, sep));
    }
}

/// Where a byte first stands, and what stands before it.
pub proof fn the_first_is_found(front: Seq<u8>, b: u8, rest: Seq<u8>)
    requires
        !front.contains(b),
    ensures
        first_of(front.push(b) + rest, b) == Some(front.len() as int),
        first_of(front, b) is None,
        until(front.push(b) + rest, b) == front,
        until(front, b) == front,
{
    let whole = front.push(b) + rest;
    assert forall|j: int| 0 <= j < front.len() implies whole[j] != b && front[j] != b by {
        assert(front.contains(front[j]));
    }
    lemma_first_is(whole, b, front.len() as int);
    lemma_first_of(front, b);
    assert(whole.take(front.len() as int) =~= front);
}

/// Where a byte last stands.
pub proof fn the_last_is_found(front: Seq<u8>, b: u8, rest: Seq<u8>)
    requires
        !rest.contains(b),
    ensures
        last_of(front.push(b) + rest, b) == Some(front.len() as int),
        last_of(rest, b) is None,
{
    let whole = front.push(b) + rest;
    assert forall|j: int| front.len() < j < whole.len() implies whole[j] != b by {
        assert(whole[j] == rest[j - front.len() - 1]);
        assert(rest.contains(rest[j - front.len() - 1]));
    }
    assert forall|j: int| 0 <= j < rest.len() implies rest[j] != b by {
        assert(rest.contains(rest[j]));
    }
    lemma_last_is(whole, b, front.len() as int);
    lemma_last_none(rest, b);
}

/// What is trimmed off the front are its separators, all of them and nothing else.
pub proof fn separators_are_trimmed(n: nat, sep: u8, rest: Seq<u8>)
    requires
        rest.len() > 0 ==> rest[0] != sep,
    ensures
        trim_start(Seq::new(n, |i: int| sep) + rest, sep) == rest,
    decreases n,
{
    let seps = Seq::new(n, |i: int| sep);
    if n == 0 {
        assert(seps + rest =~= rest);
    } else {
        separators_are_trimmed((n - 1) as nat, sep, rest);
        assert((seps + rest).drop_first() =~= Seq::new((n - 1) as nat, |i: int| sep) + rest);
    }
}

/// What is trimmed off the end are its separators, all of them and nothing else.
pub proof fn separators_are_trimmed_off_the_end(front: Seq<u8>, sep: u8, n: nat)
    requires
        front.len() > 0 ==> front.last() != sep,
    ensures
        trim_end(front + Seq::new(n, |i: int| sep), sep) == front,
    decreases n,
{
    let seps = Seq::new(n, |i: int| sep);
    if n == 0 {
        assert(front + seps =~= front);
    } else {
        separators_are_trimmed_off_the_end(front, sep, (n - 1) as nat);
        assert((front + seps).drop_last() =~= front + Seq::new((n - 1) as nat, |i: int| sep));
    }
}

/// A string begins with what it was made by adding to, and ends with what was added; it begins or
/// ends with nothing else of that length.
pub proof fn beginnings_and_ends(front: Seq<u8>, rest: Seq<u8>, other: Seq<u8>)
    ensures
        other.len() == front.len() ==> (begins(front + rest, other) <==> other == front),
        other.len() == rest.len() ==> (ends(front + rest, other) <==> other == rest),
        other.len() > front.len() + rest.len() ==> !begins(front + rest, other) && !ends(
            front + rest,
            other,
        ),
{
    assert((front + rest).take(front.len() as int) =~= front);
    assert((front + rest).skip(front.len() as int) =~= rest);
}

/// The contents of a vector of strings are those of each, in its place.
pub proof fn each_string_in_its_place(v: Seq<&[u8]>, w: Seq<Vec<u8>>)
    ensures
        views(v).len() == v.len(),
        owned_views(w).len() == w.len(),
        forall|i: int| 0 <= i < v.len() ==> (#[trigger] views(v)[i]) == v[i]@,
        forall|i: int| 0 <= i < w.len() ==> (#[trigger] owned_views(w)[i]) == w[i]@,
{
}

/// A non-empty run without separators is one field.
pub proof fn a_clean_run_is_one_field(s: Seq<u8>, sep: u8)
    requires
        s.len() > 0,
        !s.contains(sep),
    ensures
        fields(s, sep) == seq![s],
{
    assert(s.contains(s[0]));
    lemma_first_of(s, sep);
    if first_of(s, sep) is Some {
        assert(s.contains(s[first_of(s, sep)->0]));
    }
    assert(s.skip(s.len() as int) =~= seq![]);
    assert(seq![s] + fields(seq![], sep) =~= seq![s]);
}

} // verus!
