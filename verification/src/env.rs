//! Environment variables and the working directory.
//!
//! Paths and environment values are bytes on this platform, not text. A caller that genuinely
//! needs text has to say so and handle the failure.

use vstd::prelude::*;
use vstd::utf8;

use crate::bytes;
use crate::text;

verus! {

/// A C string, being read a byte at a time.
pub struct CBytes {
    bytes: Vec<u8>,
}

impl CBytes {
    /// The bytes so far.
    pub closed spec fn so_far(&self) -> Seq<u8> {
        self.bytes@
    }

    /// Nothing read yet.
    pub fn new() -> (r: CBytes)
        ensures
            r.so_far() == Seq::<u8>::empty(),
    {
        CBytes { bytes: Vec::new() }
    }

    /// Take the next byte. `false` once it is the terminator, which is not part of the string.
    pub fn push(&mut self, b: u8) -> (more: bool)
        ensures
            more == (b != 0),
            final(self).so_far() == (if b == 0 {
                old(self).so_far()
            } else {
                old(self).so_far().push(b)
            }),
    {
        if b == 0 {
            return false;
        }
        self.bytes.push(b);
        true
    }

    /// The string, without its terminator.
    pub fn finish(self) -> (r: Vec<u8>)
        ensures
            r@ == self.so_far(),
    {
        self.bytes
    }
}

/// The name of a variable as `getenv` takes it.
pub fn var_name(name: &str) -> (r: Vec<u8>)
    ensures
        r@ == utf8::encode_utf8(name@).push(0),
{
    bytes::nul_terminated(name.as_bytes())
}

/// The raw bytes of a variable, if it is set.
///
/// Unset and "set to nothing" are different, and callers deciding on a flag rely on that.
pub fn var_os(found: Option<CBytes>) -> (r: Option<Vec<u8>>)
    ensures
        match found {
            None => r is None,
            Some(c) => r matches Some(v) && v@ == c.so_far(),
        },
{
    match found {
        None => None,
        Some(c) => Some(c.finish()),
    }
}

/// A variable's name and value as `setenv` takes them.
pub fn set_var(name: &str, value: &str) -> (r: (Vec<u8>, Vec<u8>))
    ensures
        r.0@ == utf8::encode_utf8(name@).push(0),
        r.1@ == utf8::encode_utf8(value@).push(0),
{
    set_var_bytes(name.as_bytes(), value.as_bytes())
}

/// A variable's name and raw value as `setenv` takes them.
pub fn set_var_bytes(name: &[u8], value: &[u8]) -> (r: (Vec<u8>, Vec<u8>))
    ensures
        r.0@ == name@.push(0),
        r.1@ == value@.push(0),
{
    (bytes::nul_terminated(name), bytes::nul_terminated(value))
}

/// The value of a variable as UTF-8, from its bytes.
///
/// `None` covers both "unset" and "set to bytes that are not UTF-8".
pub fn var(value: Option<Vec<u8>>) -> (r: Option<String>)
    ensures
        match value {
            None => r is None,
            Some(v) => (r is Some <==> utf8::valid_utf8(v@)) && (r matches Some(s) ==> s@
                == utf8::decode_utf8(v@)),
        },
{
    match value {
        None => None,
        Some(v) => text::string_from_utf8(v),
    }
}

/// What stands before the first NUL of a buffer the kernel wrote a string into.
fn up_to_nul(buf: Vec<u8>) -> (r: Option<Vec<u8>>)
    ensures
        match r {
            Some(s) => bytes::first_of(buf@, 0) is Some && s@ == bytes::until(buf@, 0),
            None => bytes::first_of(buf@, 0) is None,
        },
{
    let mut out = buf;
    match bytes::position(out.as_slice(), 0) {
        None => None,
        Some(end) => {
            out.truncate(end);
            assert(out@ =~= buf@.take(end as int));
            Some(out)
        },
    }
}

/// The process working directory, from the buffer `getcwd` filled, if it did.
pub fn current_dir(filled: Option<Vec<u8>>) -> (r: Option<Vec<u8>>)
    ensures
        match filled {
            None => r is None,
            Some(buf) => match r {
                Some(d) => bytes::first_of(buf@, 0) is Some && d@ == bytes::until(buf@, 0),
                None => bytes::first_of(buf@, 0) is None,
            },
        },
{
    match filled {
        None => None,
        Some(buf) => up_to_nul(buf),
    }
}

/// The path of the running executable, from how much `readlink` of `/proc/self/exe` wrote.
pub fn current_exe(n: isize, buf: Vec<u8>) -> (r: Option<Vec<u8>>)
    requires
        n <= buf@.len(),
    ensures
        match r {
            Some(p) => n > 0 && p@ == buf@.take(n as int),
            None => n <= 0,
        },
{
    if n <= 0 {
        return None;
    }
    let mut out = buf;
    out.truncate(n as usize);
    assert(out@ =~= buf@.take(n as int));
    Some(out)
}

/// What asking for the executable's path where the caller supplies the buffer does next.
pub enum ExecutablePath {
    /// Ask again with a buffer of this many bytes.
    Retry(usize),
    /// The path, if there is one.
    Done(Option<Vec<u8>>),
}

/// Take the answer of one call that fills a buffer with the executable's path, or fails and says
/// how large the buffer has to be. One retry is enough because that size is authoritative.
pub fn executable_path(first: bool, returned: i32, size: u32, buf: Vec<u8>) -> (r: ExecutablePath)
    ensures
        match r {
            ExecutablePath::Retry(n) => returned != 0 && first && n == size,
            ExecutablePath::Done(None) => (returned != 0 && !first) || (returned == 0
                && bytes::first_of(buf@, 0) is None),
            ExecutablePath::Done(Some(p)) => returned == 0 && bytes::first_of(buf@, 0) is Some
                && p@ == bytes::until(buf@, 0),
        },
{
    if returned != 0 {
        if first {
            return ExecutablePath::Retry(size as usize);
        }
        return ExecutablePath::Done(None);
    }
    ExecutablePath::Done(up_to_nul(buf))
}

/// The directory for temporary files: `TMPDIR` if it is set, else `/tmp`.
///
/// A `TMPDIR` that is set to nothing is set.
pub open spec fn temp_dir_of(tmpdir: Option<Vec<u8>>) -> Seq<u8> {
    match tmpdir {
        Some(v) => v@,
        None => seq![47u8, 116u8, 109u8, 112u8],
    }
}

/// The directory for temporary files, given the value of `TMPDIR` if it is set.
pub fn temp_dir(tmpdir: Option<Vec<u8>>) -> (r: Vec<u8>)
    ensures
        r@ == temp_dir_of(tmpdir),
        tmpdir matches Some(v) ==> r@ == v@,
        tmpdir is None ==> r@ == utf8::encode_utf8("/tmp"@),
{
    match tmpdir {
        Some(v) => v,
        None => {
            proof {
                reveal_strlit("/tmp");
                utf8::is_ascii_chars_encode_utf8("/tmp"@);
                assert(utf8::encode_utf8("/tmp"@) =~= seq![47u8, 116u8, 109u8, 112u8]);
            }
            vstd::slice::slice_to_vec("/tmp".as_bytes())
        },
    }
}

/// The byte between the entries of a `PATH`-style variable.
pub const PATH_SEPARATOR: u8 = 58;

/// Split a `PATH`-style variable on `:`.
///
/// Empty entries are dropped. Treating one as the current directory is a shell convention no
/// caller relies on and a surprising way to search `.` by accident.
pub fn split_paths(value: &[u8]) -> (r: Vec<&[u8]>)
    ensures
        bytes::views(r@) == bytes::fields(value@, PATH_SEPARATOR),
{
    bytes::split_fields(value, PATH_SEPARATOR)
}

/// A list of C strings being read, such as the environment or the arguments of a process.
pub struct Strings {
    list: Vec<Vec<u8>>,
    current: CBytes,
}

/// A list of C strings being read.
#[verifier::ext_equal]
pub struct StringsView {
    /// The strings that have been read.
    pub list: Seq<Seq<u8>>,
    /// What has been read of the next one.
    pub current: Seq<u8>,
}

impl View for Strings {
    type V = StringsView;

    closed spec fn view(&self) -> StringsView {
        StringsView { list: bytes::owned_views(self.list@), current: self.current.so_far() }
    }
}

impl StringsView {
    /// The list after one more byte: a NUL ends a string, which may be empty.
    pub open spec fn after(self, b: u8) -> StringsView {
        if b == 0 {
            StringsView { list: self.list.push(self.current), current: Seq::empty() }
        } else {
            StringsView { current: self.current.push(b), ..self }
        }
    }
}

/// Every environment variable as a raw `KEY=VALUE` entry, in the order of the list that was read,
/// if the process has one.
///
/// For building a child's environment, which starts from this and overrides entries in it: a child
/// that inherits nothing loses everything a toolchain reads.
pub fn environ(found: Option<Strings>) -> (r: Vec<Vec<u8>>)
    ensures
        bytes::owned_views(r@) == (match found {
            Some(entries) => entries@.list,
            None => seq![],
        }),
{
    match found {
        Some(entries) => entries.finish(),
        None => Strings::new().finish(),
    }
}

impl Strings {
    /// Nothing read yet.
    pub fn new() -> (r: Strings)
        ensures
            r@.list == Seq::<Seq<u8>>::empty(),
            r@.current == Seq::<u8>::empty(),
    {
        let r = Strings { list: Vec::new(), current: CBytes::new() };
        assert(r@.list =~= Seq::<Seq<u8>>::empty());
        r
    }

    /// Take the next byte. `false` once it ended a string, and the next string comes.
    pub fn push(&mut self, b: u8) -> (more: bool)
        ensures
            more == (b != 0),
            final(self)@ == old(self)@.after(b),
            b == 0 ==> final(self)@.list == old(self)@.list.push(old(self)@.current),
            b == 0 ==> final(self)@.current.len() == 0,
            b != 0 ==> final(self)@.list == old(self)@.list,
            b != 0 ==> final(self)@.current == old(self)@.current.push(b),
    {
        let ghost before = self@;
        if self.current.push(b) {
            return true;
        }
        let mut whole = CBytes::new();
        std::mem::swap(&mut whole, &mut self.current);
        self.list.push(whole.finish());
        assert(self@ =~= before.after(b));
        false
    }

    /// The strings that were read.
    pub fn finish(self) -> (r: Vec<Vec<u8>>)
        ensures
            bytes::owned_views(r@) == self@.list,
    {
        self.list
    }
}

/// A list of C strings after some more bytes.
pub open spec fn read_strings(s: StringsView, feed: Seq<u8>) -> StringsView
    decreases feed.len(),
{
    if feed.len() == 0 {
        s
    } else {
        read_strings(s.after(feed[0]), feed.drop_first())
    }
}

/// The arguments in the list the kernel keeps, each with its NUL. What follows the last NUL is an
/// argument too, unless there is nothing.
pub open spec fn arguments(raw: Seq<u8>) -> Seq<Seq<u8>> {
    let read = read_strings(StringsView { list: Seq::empty(), current: Seq::empty() }, raw);
    if read.current.len() > 0 {
        read.list.push(read.current)
    } else {
        read.list
    }
}

/// The process's command-line arguments, from the list the kernel keeps, if it could be read.
///
/// This is what a `main` would have been handed, empty arguments included.
pub fn args(raw: Option<Vec<u8>>) -> (r: Vec<Vec<u8>>)
    ensures
        bytes::owned_views(r@) == (match raw {
            Some(list) => arguments(list@),
            None => seq![],
        }),
{
    let mut out = Strings::new();
    match raw {
        None => {},
        Some(list) => {
            let ghost whole = read_strings(out@, list@);
            assert(list@.skip(0) =~= list@);
            let mut i: usize = 0;
            while i < list.len()
                invariant
                    i <= list@.len(),
                    read_strings(out@, list@.skip(i as int)) == whole,
                decreases list@.len() - i,
            {
                assert(list@.skip(i as int).drop_first() =~= list@.skip(i + 1));
                let _more = out.push(list[i]);
                i = i + 1;
            }
            assert(out@ == whole);
            if out.current.bytes.len() > 0 {
                let _more = out.push(0);
            }
        },
    }
    out.finish()
}

/// Strings one after the other, each with its NUL.
pub open spec fn with_nuls(list: Seq<Seq<u8>>) -> Seq<u8>
    decreases list.len(),
{
    if list.len() == 0 {
        Seq::empty()
    } else {
        list[0].push(0) + with_nuls(list.drop_first())
    }
}

/// The bytes of a string without a NUL in it are taken into the string being read.
proof fn lemma_read_one(s: StringsView, one: Seq<u8>, feed: Seq<u8>)
    requires
        !one.contains(0),
    ensures
        read_strings(s, one.push(0) + feed) == read_strings(
            StringsView { list: s.list.push(s.current + one), current: Seq::empty() },
            feed,
        ),
    decreases one.len(),
{
    let all = one.push(0) + feed;
    if one.len() == 0 {
        assert(all[0] == 0);
        assert(all.drop_first() =~= feed);
        assert(s.current + one =~= s.current);
    } else {
        assert(one.contains(one[0]));
        let rest = one.drop_first();
        assert forall|j: int| 0 <= j < rest.len() implies rest[j] != 0 by {
            assert(one.contains(one[j + 1]));
        }
        assert(all[0] == one[0]);
        assert(all.drop_first() =~= rest.push(0) + feed);
        lemma_read_one(s.after(one[0]), rest, feed);
        assert(s.current.push(one[0]) + rest =~= s.current + one);
    }
}

/// Reading a list of C strings gives back the strings, empty ones included.
pub proof fn strings_read_back(s: StringsView, list: Seq<Seq<u8>>)
    requires
        s.current.len() == 0,
        forall|k: int| 0 <= k < list.len() ==> !(#[trigger] list[k]).contains(0),
    ensures
        read_strings(s, with_nuls(list)).list == s.list + list,
        read_strings(s, with_nuls(list)).current.len() == 0,
    decreases list.len(),
{
    if list.len() == 0 {
        assert(s.list + list =~= s.list);
    } else {
        let tail = list.drop_first();
        assert forall|k: int| 0 <= k < tail.len() implies !(#[trigger] tail[k]).contains(0) by {
            assert(tail[k] == list[k + 1]);
        }
        assert(!list[0].contains(0));
        let next = StringsView { list: s.list.push(s.current + list[0]), current: Seq::empty() };
        lemma_read_one(s, list[0], with_nuls(tail));
        strings_read_back(next, tail);
        assert(s.current + list[0] =~= list[0]);
        assert(s.list.push(list[0]) + tail =~= s.list + list);
    }
}

/// The arguments are those that were handed over, empty ones included.
pub proof fn arguments_read_back(list: Seq<Seq<u8>>)
    requires
        forall|k: int| 0 <= k < list.len() ==> !(#[trigger] list[k]).contains(0),
    ensures
        arguments(with_nuls(list)) == list,
{
    let none = StringsView { list: Seq::empty(), current: Seq::empty() };
    strings_read_back(none, list);
    assert(none.list + list =~= list);
}

/// What a C string read a byte at a time comes to: what stands before its terminator.
pub open spec fn read_c(so_far: Seq<u8>, rest: Seq<u8>) -> Seq<u8>
    decreases rest.len(),
{
    if rest.len() == 0 || rest[0] == 0 {
        so_far
    } else {
        read_c(so_far.push(rest[0]), rest.drop_first())
    }
}

/// Reading a C string a byte at a time gives what stands before its first NUL.
pub proof fn a_c_string_ends_at_its_nul(so_far: Seq<u8>, rest: Seq<u8>)
    ensures
        read_c(so_far, rest) == so_far + bytes::until(rest, 0),
    decreases rest.len(),
{
    bytes::lemma_first_of(rest, 0);
    if rest.len() == 0 {
        assert(so_far + bytes::until(rest, 0) =~= so_far);
    } else if rest[0] == 0 {
        bytes::lemma_first_is(rest, 0, 0);
        assert(so_far + rest.take(0) =~= so_far);
    } else {
        let tail = rest.drop_first();
        a_c_string_ends_at_its_nul(so_far.push(rest[0]), tail);
        bytes::lemma_first_of(tail, 0);
        match bytes::first_of(tail, 0) {
            Some(i) => {
                bytes::lemma_first_is(rest, 0, i + 1);
                assert(so_far.push(rest[0]) + tail.take(i) =~= so_far + rest.take(i + 1));
            },
            None => {
                if bytes::first_of(rest, 0) is Some {
                    let k = bytes::first_of(rest, 0)->0;
                    assert(tail.contains(tail[k - 1]));
                }
                assert(so_far.push(rest[0]) + tail =~= so_far + rest);
            },
        }
    }
}

/// What the value of a `PATH`-style variable lists, none of it empty and none of it with a
/// separator in it.
pub proof fn no_entry_is_empty(value: Seq<u8>, k: int)
    requires
        0 <= k < bytes::fields(value, PATH_SEPARATOR).len(),
    ensures
        bytes::fields(value, PATH_SEPARATOR)[k].len() > 0,
        !bytes::fields(value, PATH_SEPARATOR)[k].contains(PATH_SEPARATOR),
{
    bytes::fields_are_clean(value, PATH_SEPARATOR, k);
}


/// What follows the last NUL is an argument too.
pub proof fn the_last_argument_needs_no_nul(list: Seq<Seq<u8>>, last: Seq<u8>)
    requires
        forall|k: int| 0 <= k < list.len() ==> !(#[trigger] list[k]).contains(0),
        last.len() > 0,
        !last.contains(0),
    ensures
        arguments(with_nuls(list) + last) == list.push(last),
{
    let none = StringsView { list: Seq::empty(), current: Seq::empty() };
    strings_read_back(none, list);
    lemma_read_in_two(none, with_nuls(list), last);
    let mid = read_strings(none, with_nuls(list));
    lemma_read_on(mid, last);
    assert(mid.current + last =~= last);
    assert(none.list + list =~= list);
}

/// Bytes may be read in two goes.
proof fn lemma_read_in_two(s: StringsView, a: Seq<u8>, b: Seq<u8>)
    ensures
        read_strings(s, a + b) == read_strings(read_strings(s, a), b),
    decreases a.len(),
{
    if a.len() == 0 {
        assert(a + b =~= b);
    } else {
        assert((a + b).drop_first() =~= a.drop_first() + b);
        lemma_read_in_two(s.after(a[0]), a.drop_first(), b);
    }
}

/// Bytes other than NUL go on with the string being read.
proof fn lemma_read_on(s: StringsView, more: Seq<u8>)
    requires
        !more.contains(0),
    ensures
        read_strings(s, more) == (StringsView { list: s.list, current: s.current + more }),
    decreases more.len(),
{
    if more.len() == 0 {
        assert(s.current + more =~= s.current);
    } else {
        assert(more.contains(more[0]));
        let rest = more.drop_first();
        assert forall|j: int| 0 <= j < rest.len() implies rest[j] != 0 by {
            assert(more.contains(more[j + 1]));
        }
        lemma_read_on(s.after(more[0]), rest);
        assert(s.current.push(more[0]) + rest =~= s.current + more);
    }
}

} // verus!
