//! Scratch directories.

use vstd::prelude::*;
use vstd::utf8;

use crate::file;
use crate::file::Error;
use crate::path;
use crate::path::{Path, PathBuf};
use crate::sys;
use crate::text;
use crate::Errno;

verus! {

/// How many names are tried before giving up.
pub const TRIES: u32 = 64;

/// A directory that removes itself and its contents when it is no longer needed.
///
/// The name is `<prefix><pid>-<counter><suffix>`. That is not unguessable, and does not need to
/// be: creating it fails when the name is taken, so a collision is never a silent share.
#[derive(Debug)]
pub struct TempDir {
    path: PathBuf,
}

/// The name of the scratch directory a process makes with a given counter value.
pub open spec fn temp_name(prefix: Seq<char>, pid: nat, counter: nat, suffix: Seq<char>) -> Seq<
    char,
> {
    prefix + text::decimal(pid) + seq!['-'] + text::decimal(counter) + suffix
}

/// The search for a name that is free.
pub struct TempDirSearch<'a> {
    base: PathBuf,
    prefix: &'a str,
    suffix: &'a str,
    left: u32,
}

/// What the search does next.
pub enum TempDirStep {
    /// The directory is there and is ours.
    Made(TempDir),
    /// The name was taken; try the next one.
    Again,
    /// No directory can be made.
    Failed(Error),
}

impl TempDir {
    /// Where it is.
    pub closed spec fn location(&self) -> Seq<u8> {
        self.path@
    }

    /// Make one under the system temporary directory, given the value of `TMPDIR`.
    pub fn new<'a>(tmpdir: Option<Vec<u8>>, prefix: &'a str, suffix: &'a str) -> (r: TempDirSearch<
        'a,
    >)
        ensures
            r.base() == crate::env::temp_dir_of(tmpdir),
            tmpdir matches Some(v) ==> r.base() == v@,
            tmpdir is None ==> r.base() == utf8::encode_utf8("/tmp"@),
            r.prefix() == prefix@,
            r.suffix() == suffix@,
            r.left() == TRIES,
            r.left() == 64,
    {
        let dir = crate::env::temp_dir(tmpdir);
        TempDir::new_in(Path::new(dir.as_slice()), prefix, suffix)
    }

    /// Make one under a directory of the caller's choosing.
    ///
    /// Not a convenience: a scratch directory beside the output file makes moving the finished
    /// file into place a rename within one filesystem rather than a copy across two.
    pub fn new_in<'a>(dir: Path<'_>, prefix: &'a str, suffix: &'a str) -> (r: TempDirSearch<'a>)
        ensures
            r.base() == dir@,
            r.prefix() == prefix@,
            r.suffix() == suffix@,
            r.left() == TRIES,
            r.left() == 64,
    {
        TempDirSearch { base: dir.to_path_buf(), prefix, suffix, left: TRIES }
    }

    /// Where it is.
    pub fn path(&self) -> (r: Path<'_>)
        ensures
            r@ == self.location(),
    {
        self.path.as_path()
    }
}

impl<'a> TempDirSearch<'a> {
    /// The directory searched in.
    pub closed spec fn base(&self) -> Seq<u8> {
        self.base@
    }

    /// What names begin with.
    pub closed spec fn prefix(&self) -> Seq<char> {
        self.prefix@
    }

    /// What names end with.
    pub closed spec fn suffix(&self) -> Seq<char> {
        self.suffix@
    }

    /// How many names may still be tried.
    pub closed spec fn left(&self) -> u32 {
        self.left
    }

    /// The name to try with a counter value.
    pub fn candidate(&self, pid: u32, counter: u64) -> (r: PathBuf)
        ensures
            r@ == path::join_of(
                self.base(),
                utf8::encode_utf8(
                    temp_name(self.prefix(), pid as nat, counter as nat, self.suffix()),
                ),
            ),
            r@ == path::join_of(
                self.base(),
                utf8::encode_utf8(
                    self.prefix() + text::decimal(pid as nat) + seq!['-'] + text::decimal(
                        counter as nat,
                    ) + self.suffix(),
                ),
            ),
    {
        let mut name = self.prefix.to_owned();
        text::push_decimal(&mut name, pid as u64);
        proof {
            reveal_strlit("-");
            assert("-"@ =~= seq!['-']);
        }
        name.append("-");
        text::push_decimal(&mut name, counter);
        name.append(self.suffix);
        self.base.as_path().join(name.as_str())
    }

    /// Take the answer of one `mkdir` of a candidate.
    pub fn step(&mut self, at: PathBuf, returned: i32, errno: Errno) -> (r: TempDirStep)
        requires
            old(self).left() > 0,
        ensures
            final(self).base() == old(self).base(),
            final(self).prefix() == old(self).prefix(),
            final(self).suffix() == old(self).suffix(),
            final(self).left() == (if returned != 0 && errno.0 == sys::EEXIST {
                old(self).left() - 1
            } else {
                old(self).left() as int
            }),
            match r {
                TempDirStep::Made(d) => returned == 0 && d.location() == at@,
                TempDirStep::Again => returned != 0 && errno.0 == sys::EEXIST && old(self).left()
                    > 1,
                TempDirStep::Failed(e) => returned != 0 && (if errno.0 == sys::EEXIST {
                    old(self).left() == 1 && e@ == file::failure(
                        Errno(sys::EEXIST),
                        "tempdir"@,
                    )
                } else {
                    e@ == file::failure(errno, "mkdir"@)
                }),
            },
    {
        if returned == 0 {
            return TempDirStep::Made(TempDir { path: at });
        }
        let taken: i32 = sys::errnos().eexist;
        if errno.0 != taken {
            return TempDirStep::Failed(Error::from_errno(errno, "mkdir"));
        }
        self.left = self.left - 1;
        if self.left == 0 {
            return TempDirStep::Failed(Error::from_errno(Errno(taken), "tempdir"));
        }
        TempDirStep::Again
    }
}

/// Different numbers have different digits.
proof fn lemma_decimal_injective(a: nat, b: nat)
    requires
        text::decimal_bytes(a) == text::decimal_bytes(b),
    ensures
        a == b,
    decreases a,
{
    let da = text::decimal_bytes(a);
    let db = text::decimal_bytes(b);
    lemma_decimal_nonempty(a / 10);
    lemma_decimal_nonempty(b / 10);
    assert(da.last() == db.last());
    if a >= 10 && b >= 10 {
        assert(da.drop_last() =~= text::decimal_bytes(a / 10));
        assert(db.drop_last() =~= text::decimal_bytes(b / 10));
        lemma_decimal_injective(a / 10, b / 10);
    }
}

/// Every number has a digit.
proof fn lemma_decimal_nonempty(n: nat)
    ensures
        text::decimal_bytes(n).len() > 0,
{
}

/// One process never makes two scratch directories of the same name: different counter values give
/// different names.
pub proof fn temp_names_differ(
    prefix: Seq<char>,
    pid: nat,
    suffix: Seq<char>,
    first: nat,
    second: nat,
)
    requires
        first != second,
    ensures
        temp_name(prefix, pid, first, suffix) != temp_name(prefix, pid, second, suffix),
{
    let head = prefix + text::decimal(pid) + seq!['-'];
    let a = text::decimal(first);
    let b = text::decimal(second);
    let x = temp_name(prefix, pid, first, suffix);
    let y = temp_name(prefix, pid, second, suffix);
    if x == y {
        assert(x =~= head + a + suffix);
        assert(y =~= head + b + suffix);
        assert(a.len() == b.len());
        let da = text::decimal_bytes(first);
        let db = text::decimal_bytes(second);
        assert forall|i: int| 0 <= i < da.len() implies da[i] == db[i] by {
            assert(a[i] == x[head.len() + i]);
            assert(b[i] == y[head.len() + i]);
            assert(a[i] == da[i] as char);
            assert(b[i] == db[i] as char);
        }
        assert(da =~= db);
        lemma_decimal_injective(first, second);
    }
}

/// Where the numbers in the names come from: one for each name that is tried, by whichever thread.
#[derive(Debug, Clone, Copy, PartialEq, Eq, Structural)]
pub struct Counter {
    next: u64,
}

impl Counter {
    /// The number that is handed out next.
    pub closed spec fn upcoming(&self) -> u64 {
        self.next
    }

    /// Nothing handed out yet.
    pub fn new() -> (r: Counter)
        ensures
            r.upcoming() == 0,
    {
        Counter { next: 0 }
    }

    /// Hand out a number. The numbers begin again only after all of them were handed out.
    pub fn take(&mut self) -> (r: u64)
        ensures
            r == old(self).upcoming(),
            final(self).upcoming() == counted(old(self).upcoming() as nat + 1),
            old(self).upcoming() < u64::MAX ==> final(self).upcoming() == old(self).upcoming() + 1,
            old(self).upcoming() == u64::MAX ==> final(self).upcoming() == 0,
    {
        let n: u64 = self.next;
        self.next = n.wrapping_add(1);
        n
    }
}

/// The number that is handed out after `n` others, of which there are as many as 64 bits hold.
pub open spec fn counted(n: nat) -> nat {
    n % 0x1_0000_0000_0000_0000
}

/// The number that a counter hands out once it has handed out `n`.
pub open spec fn handed_out(n: nat) -> nat
    decreases n,
{
    if n == 0 {
        0
    } else {
        counted(handed_out((n - 1) as nat) + 1)
    }
}

/// What a counter hands out is how often it was asked before.
proof fn lemma_handed_out(n: nat)
    ensures
        handed_out(n) == counted(n),
    decreases n,
{
    if n > 0 {
        lemma_handed_out((n - 1) as nat);
    }
}

/// No number is handed out twice, as long as there are others.
pub proof fn numbers_are_handed_out_once(i: nat, j: nat)
    requires
        i < j < i + 0x1_0000_0000_0000_0000,
    ensures
        handed_out(i) != handed_out(j),
{
    lemma_handed_out(i);
    lemma_handed_out(j);
}

/// The text before the number begins every name alike.
proof fn lemma_names_begin_alike(
    prefix: Seq<char>,
    pid: nat,
    suffix: Seq<char>,
    first: nat,
    second: nat,
)
    ensures
        temp_name(prefix, pid, first, suffix).len() > 0,
        temp_name(prefix, pid, second, suffix).len() > 0,
        temp_name(prefix, pid, first, suffix)[0] == temp_name(prefix, pid, second, suffix)[0],
{
    lemma_decimal_nonempty(pid);
    let head = prefix + text::decimal(pid);
    assert(temp_name(prefix, pid, first, suffix)[0] == head[0]);
    assert(temp_name(prefix, pid, second, suffix)[0] == head[0]);
}

/// Two names that one process tries in the same directory with the same beginning and end are
/// different paths: the `i`-th and the `j`-th number, whichever searches took them.
pub proof fn two_scratch_directories_differ(
    base: Seq<u8>,
    prefix: Seq<char>,
    pid: nat,
    suffix: Seq<char>,
    i: nat,
    j: nat,
)
    requires
        i < j < i + 0x1_0000_0000_0000_0000,
    ensures
        path::join_of(base, utf8::encode_utf8(temp_name(prefix, pid, handed_out(i), suffix)))
            != path::join_of(
            base,
            utf8::encode_utf8(temp_name(prefix, pid, handed_out(j), suffix)),
        ),
{
    let x = temp_name(prefix, pid, handed_out(i), suffix);
    let y = temp_name(prefix, pid, handed_out(j), suffix);
    let a = utf8::encode_utf8(x);
    let b = utf8::encode_utf8(y);
    numbers_are_handed_out_once(i, j);
    temp_names_differ(prefix, pid, suffix, handed_out(i), handed_out(j));
    lemma_names_begin_alike(prefix, pid, suffix, handed_out(i), handed_out(j));
    utf8::encode_utf8_decode_utf8(x);
    utf8::encode_utf8_decode_utf8(y);
    assert(a != b);
    assert(a[0] == utf8::encode_scalar(x[0] as u32)[0]);
    assert(b[0] == utf8::encode_scalar(y[0] as u32)[0]);
    let left = path::join_of(base, a);
    let right = path::join_of(base, b);
    if left == right && !path::absolute_of(a) {
        let n = left.len() - a.len();
        assert(left.skip(n) =~= a);
        assert(right.skip(n) =~= b);
    }
}


/// The name of a scratch directory is what it was to begin with, the process's number, a dash, the
/// counter's number and what it was to end with, and nothing else.
pub proof fn a_name_has_its_parts(prefix: Seq<char>, pid: nat, counter: nat, suffix: Seq<char>)
    ensures
        temp_name(prefix, pid, counter, suffix) == prefix + text::decimal(pid) + seq!['-']
            + text::decimal(counter) + suffix,
        temp_name(prefix, pid, counter, suffix).take(prefix.len() as int) == prefix,
        temp_name(prefix, pid, counter, suffix).skip(
            prefix.len() + text::decimal(pid).len() + 1 + text::decimal(counter).len() as int,
        ) == suffix,
{
    let name = temp_name(prefix, pid, counter, suffix);
    assert(name.take(prefix.len() as int) =~= prefix);
    assert(name.skip(
        prefix.len() + text::decimal(pid).len() + 1 + text::decimal(counter).len() as int,
    ) =~= suffix);
}

/// Numbers are handed out from zero up, one after the other.
pub proof fn numbers_are_handed_out_in_order(n: nat)
    requires
        n < 0x1_0000_0000_0000_0000,
    ensures
        handed_out(n) == n,
{
    lemma_handed_out(n);
}

} // verus!
