//! Paths, as what they are on this platform: bytes.
//!
//! A path is a sequence of bytes with `/` between the parts, because that is what the kernel this
//! runs on takes. [`Path`] borrows those bytes and [`PathBuf`] owns them.
//!
//! [`Path::as_c`] is why a path is more than a byte slice. Every system call wants a
//! NUL-terminated string, and the terminator is added on the way out, once.

use std::borrow::Cow;

use vstd::prelude::*;
use vstd::slice::{slice_subrange, slice_to_vec};
use vstd::utf8;

use crate::bytes;
use crate::bytes::{ends_with, extend, position, rposition, skip_leading, split_fields};
use crate::file;
use crate::file::{Error, Metadata};
use crate::text;
use crate::Errno;

pub mod laws;

verus! {

/// The character between path components.
pub const MAIN_SEPARATOR: char = '/';

/// The byte between path components.
pub const MAIN_SEPARATOR_BYTE: u8 = 47;

/// The byte that begins an extension.
pub const DOT: u8 = 46;

// ---------------------------------------------------------------------------------------------
// What the operations mean, over the bytes of a path.
// ---------------------------------------------------------------------------------------------

/// The root directory.
pub open spec fn root() -> Seq<u8> {
    seq![MAIN_SEPARATOR_BYTE]
}

/// Whether the path starts at the root.
pub open spec fn absolute_of(p: Seq<u8>) -> bool {
    p.len() > 0 && p[0] == MAIN_SEPARATOR_BYTE
}

/// Where the final component begins: after the last separator.
pub open spec fn name_start_of(p: Seq<u8>) -> int {
    match bytes::last_of(p, MAIN_SEPARATOR_BYTE) {
        Some(i) => i + 1,
        None => 0,
    }
}

/// The final component: what follows the last separator, unless that is nothing.
pub open spec fn file_name_of(p: Seq<u8>) -> Option<Seq<u8>> {
    let name = p.skip(name_start_of(p));
    if name.len() == 0 {
        None
    } else {
        Some(name)
    }
}

/// What stands before the last separator, which for a name in the root is the root itself.
pub open spec fn parent_of(p: Seq<u8>) -> Option<Seq<u8>> {
    match bytes::last_of(p, MAIN_SEPARATOR_BYTE) {
        None => None,
        Some(i) => Some(
            if i == 0 {
                root()
            } else {
                p.take(i)
            },
        ),
    }
}

/// The ancestor that follows a path: its parent, wherever that is shorter. The root alone is its
/// own parent.
pub open spec fn next_ancestor_of(p: Seq<u8>) -> Option<Seq<u8>> {
    match parent_of(p) {
        Some(q) => if q.len() < p.len() {
            Some(q)
        } else {
            None
        },
        None => None,
    }
}

/// Where a component's extension begins: at its last dot, unless that is its first byte.
pub open spec fn dot_of(name: Seq<u8>) -> Option<int> {
    match bytes::last_of(name, DOT) {
        None => None,
        Some(i) => if i == 0 {
            None
        } else {
            Some(i)
        },
    }
}

/// The extension of the final component, without the dot.
pub open spec fn extension_of(p: Seq<u8>) -> Option<Seq<u8>> {
    match file_name_of(p) {
        None => None,
        Some(name) => match dot_of(name) {
            None => None,
            Some(i) => Some(name.skip(i + 1)),
        },
    }
}

/// The final component without its extension.
pub open spec fn file_stem_of(p: Seq<u8>) -> Option<Seq<u8>> {
    match file_name_of(p) {
        None => None,
        Some(name) => match dot_of(name) {
            None => Some(name),
            Some(i) => Some(name.take(i)),
        },
    }
}

/// `other` resolved against `base`: an absolute path replaces it, any other follows it with
/// exactly one separator supplied where none is there.
pub open spec fn join_of(base: Seq<u8>, other: Seq<u8>) -> Seq<u8> {
    if absolute_of(other) {
        other
    } else if base.len() == 0 || base.last() == MAIN_SEPARATOR_BYTE {
        base + other
    } else {
        base + root() + other
    }
}

/// Several components joined on, one after the other.
pub open spec fn join_all_of(base: Seq<u8>, parts: Seq<Seq<u8>>) -> Seq<u8>
    decreases parts.len(),
{
    if parts.len() == 0 {
        base
    } else {
        join_of(join_all_of(base, parts.drop_last()), parts.last())
    }
}

/// The path without its final component, and without the separators around it. There is nothing
/// to drop from a path that is nothing but separators.
pub open spec fn pop_of(p: Seq<u8>) -> Option<Seq<u8>> {
    let named = bytes::trim_end(p, MAIN_SEPARATOR_BYTE);
    if named.len() == 0 {
        None
    } else {
        match bytes::last_of(named, MAIN_SEPARATOR_BYTE) {
            None => Some(Seq::empty()),
            Some(i) => Some(
                if i == 0 {
                    root()
                } else {
                    p.take(i)
                },
            ),
        }
    }
}

/// The path with its final component replaced.
pub open spec fn set_file_name_of(p: Seq<u8>, name: Seq<u8>) -> Seq<u8> {
    match pop_of(p) {
        Some(q) => join_of(q, name),
        None => join_of(p, name),
    }
}

/// The path with the extension of its final component replaced, or dropped for an empty `ext`.
pub open spec fn set_extension_of(p: Seq<u8>, ext: Seq<u8>) -> Seq<u8> {
    let start = name_start_of(p);
    let stem = match dot_of(p.skip(start)) {
        Some(i) => p.take(start + i),
        None => p,
    };
    if ext.len() == 0 {
        stem
    } else {
        stem.push(DOT) + ext
    }
}

/// Whether the components of `prefix` are the first ones of `p`.
pub open spec fn starts_with_of(p: Seq<u8>, prefix: Seq<u8>) -> bool {
    components_of(prefix).is_prefix_of(components_of(p))
}

/// What is left after the first `n` parts, from the part that comes next.
pub open spec fn after_parts(p: Seq<u8>, n: nat) -> Seq<u8>
    decreases n,
{
    if n == 0 {
        bytes::trim_start(p, MAIN_SEPARATOR_BYTE)
    } else {
        let t = after_parts(p, (n - 1) as nat);
        bytes::trim_start(
            t.skip(bytes::until(t, MAIN_SEPARATOR_BYTE).len() as int),
            MAIN_SEPARATOR_BYTE,
        )
    }
}

/// What is left after the first `n` components, of which the root is one.
pub open spec fn after_components(p: Seq<u8>, n: nat) -> Seq<u8> {
    if n == 0 {
        p
    } else if absolute_of(p) {
        after_parts(p, (n - 1) as nat)
    } else {
        after_parts(p, n)
    }
}

/// What follows a matching prefix, from the component that comes next.
pub open spec fn strip_prefix_of(p: Seq<u8>, prefix: Seq<u8>) -> Option<Seq<u8>> {
    if starts_with_of(p, prefix) {
        Some(after_components(p, components_of(prefix).len()))
    } else {
        None
    }
}

/// The `/`-separated parts, with empties dropped.
pub open spec fn parts_of(p: Seq<u8>) -> Seq<Seq<u8>> {
    bytes::fields(p, MAIN_SEPARATOR_BYTE)
}

/// The components by name: the root if the path starts there, then the parts.
pub open spec fn components_of(p: Seq<u8>) -> Seq<Seq<u8>> {
    if absolute_of(p) {
        seq![root()] + parts_of(p)
    } else {
        parts_of(p)
    }
}

/// A name as a directory lists it: not empty, and without separators.
pub open spec fn clean(name: Seq<u8>) -> bool {
    name.len() > 0 && !name.contains(MAIN_SEPARATOR_BYTE)
}

// ---------------------------------------------------------------------------------------------
// Borrowed paths.
// ---------------------------------------------------------------------------------------------

/// Anything that can be read as a path: paths themselves, text and bytes.
pub trait AsPath {
    /// The bytes of the path.
    spec fn path_bytes(&self) -> Seq<u8>;

    /// The value as a path.
    fn as_path(&self) -> (r: Path<'_>)
        ensures
            r@ == self.path_bytes(),
    ;
}

/// A borrowed path.
#[derive(Clone, Copy, PartialEq, Eq, PartialOrd, Ord, Hash, Debug)]
pub struct Path<'a> {
    inner: &'a [u8],
}

impl<'a> View for Path<'a> {
    type V = Seq<u8>;

    closed spec fn view(&self) -> Seq<u8> {
        self.inner@
    }
}

/// The prefix did not match. Carries nothing, because there is nothing else to say.
#[derive(Clone, Copy, PartialEq, Eq, Structural, Debug)]
pub struct StripPrefixError;

impl StripPrefixError {
    /// The reason, for a message.
    pub fn to_text(&self) -> (r: &'static str)
        ensures
            r@ == "prefix not found"@,
    {
        "prefix not found"
    }
}

impl<'a> Path<'a> {
    /// Borrow bytes as a path. No validation: the kernel is the authority on what it accepts.
    pub fn new(s: &'a [u8]) -> (r: Path<'a>)
        ensures
            r@ == s@,
    {
        Path { inner: s }
    }

    /// The bytes.
    pub fn as_bytes(&self) -> (r: &'a [u8])
        ensures
            r@ == self@,
    {
        self.inner
    }

    /// The path as text, when it happens to be UTF-8.
    ///
    /// `None` rather than a lossy conversion: a path that is not UTF-8 still names a real file,
    /// and silently replacing bytes would produce a name that opens nothing.
    pub fn to_str(&self) -> (r: Option<&'a str>)
        ensures
            r is Some <==> utf8::valid_utf8(self@),
            r matches Some(s) ==> s@ == utf8::decode_utf8(self@),
    {
        text::from_utf8(self.inner)
    }

    /// Whether the path starts at the root.
    pub fn is_absolute(&self) -> (r: bool)
        ensures
            r == absolute_of(self@),
            r <==> self@.len() > 0 && self@[0] == MAIN_SEPARATOR_BYTE,
    {
        self.inner.len() > 0 && self.inner[0] == MAIN_SEPARATOR_BYTE
    }

    /// Whether the path does not start at the root.
    pub fn is_relative(&self) -> (r: bool)
        ensures
            r == !absolute_of(self@),
            r <==> self@.len() == 0 || self@[0] != MAIN_SEPARATOR_BYTE,
    {
        !self.is_absolute()
    }

    /// Where the final component begins.
    fn name_start(&self) -> (r: usize)
        ensures
            r == name_start_of(self@),
            r <= self@.len(),
    {
        proof {
            bytes::lemma_last_of(self@, MAIN_SEPARATOR_BYTE);
        }
        match rposition(self.inner, MAIN_SEPARATOR_BYTE) {
            Some(i) => i + 1,
            None => 0,
        }
    }

    /// The final component, if there is one.
    pub fn file_name(&self) -> (r: Option<Path<'a>>)
        ensures
            match r {
                Some(n) => file_name_of(self@) == Some(n@),
                None => file_name_of(self@) is None,
            },
    {
        let start: usize = self.name_start();
        if start == self.inner.len() {
            return None;
        }
        let name = slice_subrange(self.inner, start, self.inner.len());
        assert(name@ =~= self@.skip(start as int));
        Some(Path::new(name))
    }

    /// Everything before the final component.
    pub fn parent(&self) -> (r: Option<Path<'a>>)
        ensures
            match r {
                Some(d) => parent_of(self@) == Some(d@),
                None => parent_of(self@) is None,
            },
    {
        proof {
            bytes::lemma_last_of(self@, MAIN_SEPARATOR_BYTE);
        }
        match rposition(self.inner, MAIN_SEPARATOR_BYTE) {
            None => None,
            Some(i) => {
                let n: usize = if i == 0 {
                    1
                } else {
                    i
                };
                let head = slice_subrange(self.inner, 0, n);
                proof {
                    if i == 0 {
                        assert(head@ =~= root());
                    } else {
                        assert(head@ =~= self@.take(i as int));
                    }
                }
                Some(Path::new(head))
            },
        }
    }

    /// The extension of the final component, without the dot.
    ///
    /// A leading dot is a hidden file, not an extension, so `.bashrc` has none.
    pub fn extension(&self) -> (r: Option<Path<'a>>)
        ensures
            match r {
                Some(e) => extension_of(self@) == Some(e@),
                None => extension_of(self@) is None,
            },
    {
        let name = match self.file_name() {
            Some(n) => n.as_bytes(),
            None => return None,
        };
        proof {
            bytes::lemma_last_of(name@, DOT);
        }
        match rposition(name, DOT) {
            None => None,
            Some(i) => {
                if i == 0 {
                    None
                } else {
                    let ext = slice_subrange(name, i + 1, name.len());
                    assert(ext@ =~= name@.skip(i + 1));
                    Some(Path::new(ext))
                }
            },
        }
    }

    /// The final component without its extension.
    pub fn file_stem(&self) -> (r: Option<Path<'a>>)
        ensures
            match r {
                Some(s) => file_stem_of(self@) == Some(s@),
                None => file_stem_of(self@) is None,
            },
    {
        let name = match self.file_name() {
            Some(n) => n.as_bytes(),
            None => return None,
        };
        proof {
            bytes::lemma_last_of(name@, DOT);
        }
        match rposition(name, DOT) {
            None => Some(Path::new(name)),
            Some(i) => {
                if i == 0 {
                    Some(Path::new(name))
                } else {
                    let stem = slice_subrange(name, 0, i);
                    assert(stem@ =~= name@.take(i as int));
                    Some(Path::new(stem))
                }
            },
        }
    }

    /// Join a component onto this path.
    pub fn join<P: AsPath>(&self, other: P) -> (r: PathBuf)
        ensures
            r@ == join_of(self@, other.path_bytes()),
    {
        let mut out = self.to_path_buf();
        out.push(other);
        out
    }

    /// Own a copy.
    pub fn to_path_buf(&self) -> (r: PathBuf)
        ensures
            r@ == self@,
    {
        PathBuf { inner: slice_to_vec(self.inner) }
    }

    /// The path with a NUL appended, ready for a system call.
    pub fn as_c(&self) -> (r: Vec<u8>)
        ensures
            r@ == self@.push(0),
    {
        bytes::nul_terminated(self.inner)
    }

    /// What follows the leading components that match those of `prefix`, if all of them do.
    fn after_prefix(&self, prefix: Path<'_>) -> (r: Option<Path<'a>>)
        ensures
            match r {
                Some(rest) => strip_prefix_of(self@, prefix@) == Some(rest@) && components_of(rest@)
                    == components_of(self@).skip(components_of(prefix@).len() as int),
                None => strip_prefix_of(self@, prefix@) is None,
            },
    {
        let ghost all = components_of(self@);
        let ghost wanted = components_of(prefix@);
        let mut have = self.components();
        let mut want = prefix.components();
        let ghost mut k: nat = 0;
        assert(all.skip(0) =~= all);
        assert(wanted.skip(0) =~= wanted);
        loop
            invariant
                all == components_of(self@),
                wanted == components_of(prefix@),
                k <= all.len(),
                k <= wanted.len(),
                have.remaining() == all.skip(k as int),
                want.remaining() == wanted.skip(k as int),
                forall|j: int| 0 <= j < k ==> all[j] == wanted[j],
                have.at_root() == (k == 0 && absolute_of(self@)),
                k == 0 ==> have.rest() == self@,
                have.left() == after_components(self@, k),
            decreases wanted.len() - k,
        {
            let w = match want.next() {
                None => {
                    assert(wanted =~= all.subrange(0, wanted.len() as int));
                    let rest = have.as_path();
                    return Some(rest);
                },
                Some(c) => c,
            };
            let ghost before = have;
            match have.next() {
                None => {
                    assert(all.len() == k);
                    return None;
                },
                Some(c) => {
                    if !bytes::equal(c.as_os_str(), w.as_os_str()) {
                        proof {
                            assert(all[k as int] == c.name());
                            assert(wanted[k as int] == w.name());
                            if starts_with_of(self@, prefix@) {
                                assert(all.subrange(0, wanted.len() as int)[k as int]
                                    == all[k as int]);
                            }
                        }
                        return None;
                    }
                },
            }
            proof {
                assert(all.skip(k as int).drop_first() =~= all.skip((k + 1) as int));
                assert(wanted.skip(k as int).drop_first() =~= wanted.skip((k + 1) as int));
                assert(all[k as int] == wanted[k as int]);
                reveal_with_fuel(after_parts, 2);
                if before.at_root() {
                    assert(have.left() == after_parts(self@, 0));
                } else {
                    let n: nat = if absolute_of(self@) {
                        (k - 1) as nat
                    } else {
                        k
                    };
                    assert(before.left() == after_parts(self@, n));
                    assert(have.left() == after_parts(self@, n + 1));
                }
                k = k + 1;
            }
        }
    }

    /// Whether the leading components match.
    pub fn starts_with<P: AsPath>(&self, prefix: P) -> (r: bool)
        ensures
            r == starts_with_of(self@, prefix.path_bytes()),
    {
        self.after_prefix(prefix.as_path()).is_some()
    }

    /// The remainder after a matching prefix.
    ///
    /// The failure carries no information beyond "it did not match", which is why the error type
    /// is empty.
    pub fn strip_prefix<P: AsPath>(&self, prefix: P) -> (r: Result<Path<'a>, StripPrefixError>)
        ensures
            match r {
                Ok(rest) => strip_prefix_of(self@, prefix.path_bytes()) == Some(rest@)
                    && components_of(rest@) == components_of(self@).skip(
                    components_of(prefix.path_bytes()).len() as int,
                ),
                Err(_) => !starts_with_of(self@, prefix.path_bytes()),
            },
    {
        match self.after_prefix(prefix.as_path()) {
            Some(rest) => Ok(rest),
            None => Err(StripPrefixError),
        }
    }

    /// The `/`-separated parts, with empties dropped.
    ///
    /// This does not resolve `.` or `..`, because resolving them without touching the filesystem
    /// is wrong in the presence of symlinks.
    pub fn parts(&self) -> (r: Vec<&'a [u8]>)
        ensures
            bytes::views(r@) == parts_of(self@),
    {
        split_fields(self.inner, MAIN_SEPARATOR_BYTE)
    }

    /// This path with a different extension.
    pub fn with_extension(&self, ext: &str) -> (r: PathBuf)
        ensures
            r@ == set_extension_of(self@, utf8::encode_utf8(ext@)),
    {
        let mut out = self.to_path_buf();
        out.set_extension(ext);
        out
    }

    /// The path as text, replacing invalid UTF-8.
    ///
    /// For messages. The replaced bytes name a different file, so never hand the result back to a
    /// system call.
    pub fn to_string_lossy(&self) -> (r: Cow<'a, str>)
        ensures
            r@ == text::lossy(self@),
    {
        text::to_text(self.inner)
    }

    /// The path as an opaque byte string.
    pub fn as_os_str(&self) -> (r: &'a [u8])
        ensures
            r@ == self@,
    {
        self.inner
    }

    /// The `/`-separated components.
    pub fn components(&self) -> (r: Components<'a>)
        ensures
            r.rest() == self@,
            r.at_root() == absolute_of(self@),
            r.remaining() == components_of(self@),
    {
        Components { rest: self.inner, root: self.is_absolute() }
    }

    /// This path and each of its parents, longest first.
    pub fn ancestors(&self) -> (r: Ancestors<'a>)
        ensures
            r.upcoming() == Some(self@),
    {
        Ancestors { next: Some(*self) }
    }

    /// Whether a file exists at this path, from what `access` returned.
    pub fn name_exists(&self, returned: i32) -> (r: bool)
        ensures
            r == (returned == 0),
    {
        file::name_exists(returned)
    }

    /// Whether this names a directory, from what `stat` found.
    pub fn is_dir(&self, found: &Result<Metadata, Error>) -> (r: bool)
        ensures
            r == (found matches Ok(m) && m.dir()),
    {
        file::is_dir(found)
    }

    /// Whether this names a regular file, from what `stat` found.
    pub fn is_file(&self, found: &Result<Metadata, Error>) -> (r: bool)
        ensures
            r == (found matches Ok(m) && m.regular()),
    {
        file::is_file(found)
    }

    /// What `stat` found at this path, or why it found nothing.
    pub fn metadata(&self, returned: i32, errno: Errno, found: Metadata) -> (r: Result<
        Metadata,
        Error,
    >)
        ensures
            match r {
                Ok(m) => returned == 0 && m == found,
                Err(e) => returned != 0 && e@ == file::failure(errno, "stat"@),
            },
    {
        file::metadata(returned, errno, found)
    }

    /// The absolute path with symlinks followed, from what `realpath` wrote.
    pub fn canonicalize(&self, resolved: Option<Vec<u8>>, errno: Errno) -> (r: Result<
        PathBuf,
        Error,
    >)
        ensures
            match resolved {
                Some(buf) => r matches Ok(p) && p@ == bytes::until(buf@, 0),
                None => r matches Err(e) && e@ == file::failure(errno, "realpath"@),
            },
    {
        file::canonicalize(resolved, errno)
    }

    /// How many bytes the path is.
    pub fn len(&self) -> (r: usize)
        ensures
            r == self@.len(),
    {
        self.inner.len()
    }

    /// Whether the path is empty.
    pub fn is_empty(&self) -> (r: bool)
        ensures
            r == (self@.len() == 0),
    {
        self.inner.len() == 0
    }

    /// Whether the path ends with these bytes.
    ///
    /// Byte-wise, not component-wise: the callers are testing for a suffix like `.rlib`.
    pub fn ends_with<P: AsPath>(&self, suffix: P) -> (r: bool)
        ensures
            r == bytes::ends(self@, suffix.path_bytes()),
    {
        ends_with(self.inner, suffix.as_path().as_bytes())
    }

    /// A displayable form, replacing invalid UTF-8 rather than failing.
    pub fn display(&self) -> (r: Display<'a>)
        ensures
            r@ == self@,
    {
        Display { path: *self }
    }
}

impl<'a> Default for Path<'a> {
    fn default() -> (r: Path<'a>)
        ensures
            r@ == Seq::<u8>::empty(),
    {
        let empty = "";
        proof {
            reveal_strlit("");
            assert(utf8::encode_utf8(""@) =~= Seq::<u8>::empty());
        }
        Path { inner: empty.as_bytes() }
    }
}

/// The result of [`Path::display`].
#[derive(Clone, Copy)]
pub struct Display<'a> {
    path: Path<'a>,
}

impl<'a> View for Display<'a> {
    type V = Seq<u8>;

    closed spec fn view(&self) -> Seq<u8> {
        self.path@
    }
}

impl<'a> Display<'a> {
    /// The text.
    pub fn to_text(&self) -> (r: String)
        ensures
            r@ == text::lossy(self@),
    {
        text::to_owned_text(self.path.inner)
    }
}

/// One `/`-separated part of a path.
#[derive(Clone, Copy, PartialEq, Eq, Debug)]
pub enum Component<'a> {
    /// The leading `/`.
    RootDir,
    /// `.`
    CurDir,
    /// `..`
    ParentDir,
    /// Anything else.
    Normal(&'a [u8]),
}

impl<'a> Component<'a> {
    /// The bytes the component stands for.
    pub open spec fn name(self) -> Seq<u8> {
        match self {
            Component::RootDir => root(),
            Component::CurDir => seq![DOT],
            Component::ParentDir => seq![DOT, DOT],
            Component::Normal(s) => s@,
        }
    }

    /// Whether this is the component that `name` spells, with the special names recognised.
    pub open spec fn reads(self, name: Seq<u8>) -> bool {
        &&& self.name() == name
        &&& self is Normal ==> name != root() && name != seq![DOT] && name != seq![DOT, DOT]
    }

    /// The component as bytes.
    pub fn as_os_str(&self) -> (r: &'a [u8])
        ensures
            r@ == self.name(),
            r@ == (match *self {
                Component::RootDir => seq![MAIN_SEPARATOR_BYTE],
                Component::CurDir => seq![DOT],
                Component::ParentDir => seq![DOT, DOT],
                Component::Normal(s) => s@,
            }),
    {
        proof {
            reveal_strlit("/");
            reveal_strlit(".");
            reveal_strlit("..");
            utf8::is_ascii_chars_encode_utf8("/"@);
            utf8::is_ascii_chars_encode_utf8("."@);
            utf8::is_ascii_chars_encode_utf8(".."@);
            assert(utf8::encode_utf8("/"@) =~= root());
            assert(utf8::encode_utf8("."@) =~= seq![DOT]);
            assert(utf8::encode_utf8(".."@) =~= seq![DOT, DOT]);
        }
        match self {
            Component::RootDir => "/".as_bytes(),
            Component::CurDir => ".".as_bytes(),
            Component::ParentDir => "..".as_bytes(),
            Component::Normal(s) => s,
        }
    }
}

/// The components of a path, handed out one at a time.
pub struct Components<'a> {
    rest: &'a [u8],
    root: bool,
}

impl<'a> Components<'a> {
    /// The bytes not yet handed out.
    pub closed spec fn rest(&self) -> Seq<u8> {
        self.rest@
    }

    /// Whether the root is still to come.
    pub closed spec fn at_root(&self) -> bool {
        self.root
    }

    /// The root is still to come only of a path that has one.
    #[verifier::type_invariant]
    spec fn well_formed(self) -> bool {
        self.root ==> absolute_of(self.rest@)
    }

    /// The names still to come.
    pub open spec fn remaining(&self) -> Seq<Seq<u8>> {
        if self.at_root() {
            seq![root()] + parts_of(self.rest())
        } else {
            parts_of(self.rest())
        }
    }

    /// The bytes left after one more step.
    pub open spec fn rest_after(&self) -> Seq<u8> {
        if self.at_root() {
            self.rest().drop_first()
        } else {
            let t = bytes::trim_start(self.rest(), MAIN_SEPARATOR_BYTE);
            t.skip(bytes::until(t, MAIN_SEPARATOR_BYTE).len() as int)
        }
    }

    /// The bytes of what is left: with its root while that is still to come, and without the
    /// separators in front of it afterwards.
    pub open spec fn left(&self) -> Seq<u8> {
        if self.at_root() {
            self.rest()
        } else {
            bytes::trim_start(self.rest(), MAIN_SEPARATOR_BYTE)
        }
    }

    /// What is left, as a path: with its root while that is still to come, and without the
    /// separators in front of it afterwards.
    pub fn as_path(&self) -> (r: Path<'a>)
        ensures
            r@ == self.left(),
            components_of(r@) == self.remaining(),
            self.at_root() ==> r@ == self.rest(),
            !self.at_root() ==> bytes::ends(self.rest(), r@),
            !self.at_root() ==> r@.len() == 0 || r@[0] != MAIN_SEPARATOR_BYTE,
    {
        proof {
            use_type_invariant(self);
            laws::lemma_trim(self.rest@);
            lemma_trim_keeps_parts(self.rest@);
            lemma_trimmed(self.rest@);
        }
        if self.root {
            Path::new(self.rest)
        } else {
            Path::new(skip_leading(self.rest, MAIN_SEPARATOR_BYTE))
        }
    }

    /// The next component.
    pub fn next(&mut self) -> (r: Option<Component<'a>>)
        ensures
            final(self).rest() == old(self).rest_after(),
            !final(self).at_root(),
            match r {
                None => old(self).remaining().len() == 0 && final(self).remaining().len() == 0,
                Some(c) => old(self).remaining().len() > 0 && c.reads(old(self).remaining()[0])
                    && final(self).remaining() == old(self).remaining().drop_first(),
            },
            r matches Some(c) ==> {
                let name = old(self).remaining()[0];
                match c {
                    Component::RootDir => name == seq![MAIN_SEPARATOR_BYTE],
                    Component::CurDir => name == seq![DOT],
                    Component::ParentDir => name == seq![DOT, DOT],
                    Component::Normal(s) => s@ == name && name != seq![MAIN_SEPARATOR_BYTE] && name
                        != seq![DOT] && name != seq![DOT, DOT],
                }
            },
    {
        proof {
            use_type_invariant(&*self);
        }
        if self.root {
            self.root = false;
            let ghost before = self.rest@;
            self.rest = slice_subrange(self.rest, 1, self.rest.len());
            assert(self.rest@ =~= before.drop_first());
            proof {
                assert(parts_of(self.rest@) == parts_of(before));
                assert(self.remaining() =~= old(self).remaining().drop_first());
            }
            return Some(Component::RootDir);
        }
        let ghost before = self.rest@;
        let trimmed = skip_leading(self.rest, MAIN_SEPARATOR_BYTE);
        proof {
            lemma_trim_keeps_parts(before);
            bytes::lemma_first_of(trimmed@, MAIN_SEPARATOR_BYTE);
            lemma_trimmed(before);
        }
        if trimmed.len() == 0 {
            self.rest = trimmed;
            proof {
                assert(trimmed@.skip(0) =~= trimmed@);
            }
            return None;
        }
        let end: usize = match position(trimmed, MAIN_SEPARATOR_BYTE) {
            Some(i) => i,
            None => trimmed.len(),
        };
        let (part, rest) = trimmed.split_at(end);
        self.rest = rest;
        proof {
            assert(part@ =~= bytes::until(trimmed@, MAIN_SEPARATOR_BYTE));
            assert(rest@ =~= trimmed@.skip(end as int));
            assert(parts_of(trimmed@) == seq![part@] + parts_of(rest@));
            assert(self.remaining() =~= old(self).remaining().drop_first());
        }
        if part.len() == 1 && part[0] == DOT {
            assert(part@ =~= seq![DOT]);
            Some(Component::CurDir)
        } else if part.len() == 2 && part[0] == DOT && part[1] == DOT {
            assert(part@ =~= seq![DOT, DOT]);
            Some(Component::ParentDir)
        } else {
            proof {
                assert(part@[0] != MAIN_SEPARATOR_BYTE);
                assert(root()[0] == MAIN_SEPARATOR_BYTE);
                assert(seq![DOT].len() == 1);
                assert(seq![DOT, DOT].len() == 2);
                assert(part@ != seq![DOT]) by {
                    assert(seq![DOT][0] == DOT);
                }
                assert(part@ != seq![DOT, DOT]) by {
                    assert(seq![DOT, DOT][0] == DOT);
                    assert(seq![DOT, DOT][1] == DOT);
                }
            }
            Some(Component::Normal(part))
        }
    }
}

/// A path and its parents, handed out one at a time.
pub struct Ancestors<'a> {
    next: Option<Path<'a>>,
}

impl<'a> Ancestors<'a> {
    /// The path the next step hands out.
    pub closed spec fn upcoming(&self) -> Option<Seq<u8>> {
        match self.next {
            Some(p) => Some(p@),
            None => None,
        }
    }

    /// The next ancestor. Each is shorter than the one before it, and the root is the last.
    pub fn next(&mut self) -> (r: Option<Path<'a>>)
        ensures
            match r {
                None => old(self).upcoming() is None && final(self).upcoming() is None,
                Some(p) => old(self).upcoming() == Some(p@) && final(self).upcoming()
                    == next_ancestor_of(p@),
            },
            r matches Some(p) ==> (final(self).upcoming() matches Some(q) ==> q.len() < p@.len()),
    {
        match self.next {
            None => None,
            Some(here) => {
                self.next = match here.parent() {
                    Some(up) => if up.len() < here.len() {
                        Some(up)
                    } else {
                        None
                    },
                    None => None,
                };
                Some(here)
            },
        }
    }
}

// ---------------------------------------------------------------------------------------------
// Owned paths.
// ---------------------------------------------------------------------------------------------

/// An owned path.
#[derive(PartialEq, Eq, PartialOrd, Ord, Hash, Debug)]
pub struct PathBuf {
    inner: Vec<u8>,
}

impl Clone for PathBuf {
    fn clone(&self) -> (r: PathBuf)
        ensures
            r@ == self@,
    {
        PathBuf { inner: slice_to_vec(self.inner.as_slice()) }
    }
}

impl View for PathBuf {
    type V = Seq<u8>;

    closed spec fn view(&self) -> Seq<u8> {
        self.inner@
    }
}

impl Default for PathBuf {
    fn default() -> (r: PathBuf)
        ensures
            r@ == Seq::<u8>::empty(),
    {
        PathBuf::new()
    }
}

impl PathBuf {
    /// An empty path.
    pub fn new() -> (r: PathBuf)
        ensures
            r@ == Seq::<u8>::empty(),
    {
        PathBuf { inner: Vec::new() }
    }

    /// Take ownership of bytes.
    pub fn from_bytes(bytes: Vec<u8>) -> (r: PathBuf)
        ensures
            r@ == bytes@,
    {
        PathBuf { inner: bytes }
    }

    /// Borrow as a `Path`.
    pub fn as_path(&self) -> (r: Path<'_>)
        ensures
            r@ == self@,
    {
        Path::new(self.inner.as_slice())
    }

    /// Give up the bytes, under the name call sites use for it.
    pub fn into_os_string(self) -> (r: Vec<u8>)
        ensures
            r@ == self@,
    {
        self.inner
    }

    /// Give up the bytes.
    pub fn into_bytes(self) -> (r: Vec<u8>)
        ensures
            r@ == self@,
    {
        self.inner
    }

    /// Append a component.
    ///
    /// An absolute component replaces the whole path: `join("/etc")` on any base is `/etc`,
    /// because that is what the caller asked for and silently making it relative would open the
    /// wrong file.
    pub fn push<P: AsPath>(&mut self, other: P)
        ensures
            final(self)@ == join_of(old(self)@, other.path_bytes()),
    {
        let o = other.as_path().as_bytes();
        if o.len() > 0 && o[0] == MAIN_SEPARATOR_BYTE {
            self.inner.clear();
            extend(&mut self.inner, o);
            assert(self@ =~= o@);
            return;
        }
        if self.inner.len() > 0 && self.inner[self.inner.len() - 1] != MAIN_SEPARATOR_BYTE {
            self.inner.push(MAIN_SEPARATOR_BYTE);
            assert(self@ =~= old(self)@ + root());
        }
        extend(&mut self.inner, o);
    }

    /// Drop the final component. `false` if there was nothing to drop.
    pub fn pop(&mut self) -> (r: bool)
        ensures
            match pop_of(old(self)@) {
                Some(q) => r && final(self)@ == q,
                None => !r && final(self)@ == old(self)@,
            },
            r == (parts_of(old(self)@).len() > 0),
            r ==> components_of(final(self)@) == components_of(old(self)@).drop_last(),
    {
        proof {
            laws::pop_drops_the_last_component(self@);
            bytes::lemma_trim_end(self@, MAIN_SEPARATOR_BYTE);
        }
        let end: usize = bytes::trimmed_len(self.inner.as_slice(), MAIN_SEPARATOR_BYTE);
        if end == 0 {
            return false;
        }
        let named = slice_subrange(self.inner.as_slice(), 0, end);
        proof {
            assert(named@ =~= self@.take(end as int));
            bytes::lemma_last_of(named@, MAIN_SEPARATOR_BYTE);
        }
        let n: usize = match rposition(named, MAIN_SEPARATOR_BYTE) {
            None => 0,
            Some(i) => if i == 0 {
                1
            } else {
                i
            },
        };
        self.inner.truncate(n);
        proof {
            match bytes::last_of(named@, MAIN_SEPARATOR_BYTE) {
                None => assert(self@ =~= Seq::empty()),
                Some(i) => if i == 0 {
                    assert(self@ =~= root());
                } else {
                    assert(self@ =~= old(self)@.take(i));
                },
            }
        }
        true
    }

    /// Replace the final component.
    pub fn set_file_name<P: AsPath>(&mut self, name: P)
        ensures
            final(self)@ == set_file_name_of(old(self)@, name.path_bytes()),
    {
        self.pop();
        self.push(name);
    }

    /// Replace the extension of the final component.
    pub fn set_extension(&mut self, ext: &str)
        ensures
            final(self)@ == set_extension_of(old(self)@, utf8::encode_utf8(ext@)),
    {
        let start: usize = self.as_path().name_start();
        let name = slice_subrange(self.inner.as_slice(), start, self.inner.len());
        proof {
            assert(name@ =~= self@.skip(start as int));
            bytes::lemma_last_of(name@, DOT);
        }
        let cut: usize = match rposition(name, DOT) {
            Some(dot) => if dot != 0 {
                start + dot
            } else {
                self.inner.len()
            },
            None => self.inner.len(),
        };
        self.inner.truncate(cut);
        let ghost stem = self@;
        proof {
            assert(stem =~= old(self)@.take(cut as int));
            assert(old(self)@.take(old(self)@.len() as int) =~= old(self)@);
        }
        let more = ext.as_bytes();
        if more.len() > 0 {
            self.inner.push(DOT);
            extend(&mut self.inner, more);
        }
    }

    /// Append several components, in order.
    pub fn extend<P: AsPath>(&mut self, parts: &[P])
        ensures
            final(self)@ == join_all_of(
                old(self)@,
                Seq::new(parts@.len(), |i: int| parts@[i].path_bytes()),
            ),
    {
        let ghost all = Seq::new(parts@.len(), |i: int| parts@[i].path_bytes());
        let mut i: usize = 0;
        while i < parts.len()
            invariant
                i <= parts.len(),
                all == Seq::new(parts@.len(), |i: int| parts@[i].path_bytes()),
                self@ == join_all_of(old(self)@, all.take(i as int)),
            decreases parts.len() - i,
        {
            self.push(&parts[i]);
            i = i + 1;
            assert(all.take(i as int).drop_last() =~= all.take(i - 1));
        }
        assert(all.take(i as int) =~= all);
    }

    /// A path made of several components.
    pub fn from_parts<P: AsPath>(parts: &[P]) -> (r: PathBuf)
        ensures
            r@ == join_all_of(
                Seq::empty(),
                Seq::new(parts@.len(), |i: int| parts@[i].path_bytes()),
            ),
    {
        let mut out = PathBuf::new();
        out.extend(parts);
        out
    }
}

impl From<Vec<u8>> for PathBuf {
    fn from(v: Vec<u8>) -> (r: PathBuf)
        ensures
            r@ == v@,
    {
        PathBuf { inner: v }
    }
}

impl vstd::std_specs::convert::FromSpecImpl<Vec<u8>> for PathBuf {
    open spec fn obeys_from_spec() -> bool {
        false
    }

    open spec fn from_spec(v: Vec<u8>) -> PathBuf {
        arbitrary()
    }
}

impl From<String> for PathBuf {
    fn from(s: String) -> (r: PathBuf)
        ensures
            r@ == utf8::encode_utf8(s@),
    {
        PathBuf { inner: slice_to_vec(s.as_str().as_bytes()) }
    }
}

impl vstd::std_specs::convert::FromSpecImpl<String> for PathBuf {
    open spec fn obeys_from_spec() -> bool {
        false
    }

    open spec fn from_spec(s: String) -> PathBuf {
        arbitrary()
    }
}

impl<'a> From<Path<'a>> for PathBuf {
    fn from(p: Path<'a>) -> (r: PathBuf)
        ensures
            r@ == p@,
    {
        p.to_path_buf()
    }
}

impl<'a> vstd::std_specs::convert::FromSpecImpl<Path<'a>> for PathBuf {
    open spec fn obeys_from_spec() -> bool {
        false
    }

    open spec fn from_spec(p: Path<'a>) -> PathBuf {
        arbitrary()
    }
}

impl<'a> From<&'a str> for PathBuf {
    fn from(s: &'a str) -> (r: PathBuf)
        ensures
            r@ == utf8::encode_utf8(s@),
    {
        PathBuf { inner: slice_to_vec(s.as_bytes()) }
    }
}

impl<'a> vstd::std_specs::convert::FromSpecImpl<&'a str> for PathBuf {
    open spec fn obeys_from_spec() -> bool {
        false
    }

    open spec fn from_spec(s: &'a str) -> PathBuf {
        arbitrary()
    }
}

// ---------------------------------------------------------------------------------------------
// What reads as a path.
// ---------------------------------------------------------------------------------------------

impl<'a> AsPath for Path<'a> {
    open spec fn path_bytes(&self) -> Seq<u8> {
        self@
    }

    fn as_path(&self) -> (r: Path<'_>) {
        *self
    }
}

impl AsPath for PathBuf {
    open spec fn path_bytes(&self) -> Seq<u8> {
        self@
    }

    fn as_path(&self) -> (r: Path<'_>) {
        Path::new(self.inner.as_slice())
    }
}

impl<'a> AsPath for Component<'a> {
    open spec fn path_bytes(&self) -> Seq<u8> {
        self.name()
    }

    fn as_path(&self) -> (r: Path<'_>) {
        Path::new(self.as_os_str())
    }
}

impl AsPath for str {
    open spec fn path_bytes(&self) -> Seq<u8> {
        utf8::encode_utf8(self@)
    }

    fn as_path(&self) -> (r: Path<'_>) {
        Path::new(self.as_bytes())
    }
}

impl AsPath for String {
    open spec fn path_bytes(&self) -> Seq<u8> {
        utf8::encode_utf8(self@)
    }

    fn as_path(&self) -> (r: Path<'_>) {
        Path::new(self.as_str().as_bytes())
    }
}

impl AsPath for [u8] {
    open spec fn path_bytes(&self) -> Seq<u8> {
        self@
    }

    fn as_path(&self) -> (r: Path<'_>) {
        Path::new(self)
    }
}

impl<const N: usize> AsPath for [u8; N] {
    open spec fn path_bytes(&self) -> Seq<u8> {
        self@
    }

    fn as_path(&self) -> (r: Path<'_>) {
        Path::new(self.as_slice())
    }
}

impl AsPath for Vec<u8> {
    open spec fn path_bytes(&self) -> Seq<u8> {
        self@
    }

    fn as_path(&self) -> (r: Path<'_>) {
        Path::new(self.as_slice())
    }
}

impl<T: AsPath + ?Sized> AsPath for &T {
    open spec fn path_bytes(&self) -> Seq<u8> {
        (**self).path_bytes()
    }

    fn as_path(&self) -> (r: Path<'_>) {
        (**self).as_path()
    }
}

// ---------------------------------------------------------------------------------------------
// Lemmas.
// ---------------------------------------------------------------------------------------------

/// Leading separators hold no parts.
proof fn lemma_trim_keeps_parts(p: Seq<u8>)
    ensures
        parts_of(bytes::trim_start(p, MAIN_SEPARATOR_BYTE)) == parts_of(p),
    decreases p.len(),
{
    if absolute_of(p) {
        lemma_trim_keeps_parts(p.drop_first());
    }
}

/// Nothing is left to trim.
proof fn lemma_trimmed(p: Seq<u8>)
    ensures
        !absolute_of(bytes::trim_start(p, MAIN_SEPARATOR_BYTE)),
    decreases p.len(),
{
    if absolute_of(p) {
        lemma_trimmed(p.drop_first());
    }
}

} // verus!
