//! The numbers of the C headers.
//!
//! Each constant here is what Linux on x86-64 and aarch64 gives the name. The functions read the
//! same numbers from `libc`, and the code uses those; the constants are what contracts speak of.

use vstd::prelude::*;

verus! {

pub const EPERM: i32 = 1;

pub const ENOENT: i32 = 2;

pub const EINTR: i32 = 4;

pub const EAGAIN: i32 = 11;

pub const EWOULDBLOCK: i32 = 11;

pub const EACCES: i32 = 13;

pub const EEXIST: i32 = 17;

pub const EISDIR: i32 = 21;

pub const EINVAL: i32 = 22;

pub const EFBIG: i32 = 27;

pub const EPIPE: i32 = 32;

pub const ENAMETOOLONG: i32 = 36;

pub const EILSEQ: i32 = 84;

pub const O_RDONLY: i32 = 0;

pub const O_WRONLY: i32 = 1;

pub const O_RDWR: i32 = 2;

pub const O_CREAT: i32 = 64;

pub const O_TRUNC: i32 = 512;

pub const O_APPEND: i32 = 1024;

pub const O_NONBLOCK: i32 = 2048;

pub const S_IFMT: u32 = 0o170000;

pub const S_IFDIR: u32 = 0o040000;

pub const S_IFREG: u32 = 0o100000;

pub const S_IFLNK: u32 = 0o120000;

pub const PROT_NONE: i32 = 0;

pub const PROT_READ: i32 = 1;

pub const PROT_WRITE: i32 = 2;

pub const PROT_EXEC: i32 = 4;

pub const MAP_PRIVATE: i32 = 2;

pub const MAP_ANON: i32 = 32;

pub const SIGKILL: i32 = 9;

pub const SIGTERM: i32 = 15;

/// The `errno` values the library tells apart.
pub(crate) struct Errnos {
    pub(crate) eperm: i32,
    pub(crate) enoent: i32,
    pub(crate) eintr: i32,
    pub(crate) eagain: i32,
    pub(crate) ewouldblock: i32,
    pub(crate) eacces: i32,
    pub(crate) eexist: i32,
    pub(crate) eisdir: i32,
    pub(crate) einval: i32,
    pub(crate) efbig: i32,
    pub(crate) epipe: i32,
    pub(crate) enametoolong: i32,
    pub(crate) eilseq: i32,
}

/// The constants `libc::EPERM`, `libc::ENOENT` and so on, which on Linux for x86-64 and aarch64
/// have the values of the constants of the same names in this module.
#[verifier::external_body]
pub(crate) fn errnos() -> (r: Errnos)
    ensures
        r.eperm == EPERM,
        r.enoent == ENOENT,
        r.eintr == EINTR,
        r.eagain == EAGAIN,
        r.ewouldblock == EWOULDBLOCK,
        r.eacces == EACCES,
        r.eexist == EEXIST,
        r.eisdir == EISDIR,
        r.einval == EINVAL,
        r.efbig == EFBIG,
        r.epipe == EPIPE,
        r.enametoolong == ENAMETOOLONG,
        r.eilseq == EILSEQ,
{
    let (eperm, enoent, eintr) = (libc::EPERM, libc::ENOENT, libc::EINTR);
    let (eagain, ewouldblock) = (libc::EAGAIN, libc::EWOULDBLOCK);
    let (eacces, eexist, eisdir) = (libc::EACCES, libc::EEXIST, libc::EISDIR);
    let (einval, efbig, epipe) = (libc::EINVAL, libc::EFBIG, libc::EPIPE);
    let (enametoolong, eilseq) = (libc::ENAMETOOLONG, libc::EILSEQ);
    Errnos {
        eperm, enoent, eintr, eagain, ewouldblock, eacces, eexist, eisdir, einval, efbig, epipe,
        enametoolong, eilseq,
    }
}

/// How a file is opened.
pub(crate) struct OpenFlags {
    pub(crate) rdonly: i32,
    pub(crate) wronly: i32,
    pub(crate) rdwr: i32,
    pub(crate) creat: i32,
    pub(crate) trunc: i32,
    pub(crate) append: i32,
    pub(crate) nonblock: i32,
}

/// The constants `libc::O_RDONLY`, `libc::O_WRONLY` and so on, which on Linux for x86-64 and
/// aarch64 have the values of the constants of the same names in this module.
#[verifier::external_body]
pub(crate) fn open_flags() -> (r: OpenFlags)
    ensures
        r.rdonly == O_RDONLY,
        r.wronly == O_WRONLY,
        r.rdwr == O_RDWR,
        r.creat == O_CREAT,
        r.trunc == O_TRUNC,
        r.append == O_APPEND,
        r.nonblock == O_NONBLOCK,
{
    OpenFlags {
        rdonly: libc::O_RDONLY,
        wronly: libc::O_WRONLY,
        rdwr: libc::O_RDWR,
        creat: libc::O_CREAT,
        trunc: libc::O_TRUNC,
        append: libc::O_APPEND,
        nonblock: libc::O_NONBLOCK,
    }
}

/// What a file's mode says about its type.
pub(crate) struct FileTypes {
    pub(crate) mask: u32,
    pub(crate) directory: u32,
    pub(crate) regular: u32,
    pub(crate) link: u32,
}

/// The constants `libc::S_IFMT`, `libc::S_IFDIR`, `libc::S_IFREG` and `libc::S_IFLNK`, which on
/// Linux for x86-64 and aarch64 have the values of the constants of the same names in this module.
#[verifier::external_body]
pub(crate) fn file_types() -> (r: FileTypes)
    ensures
        r.mask == S_IFMT,
        r.directory == S_IFDIR,
        r.regular == S_IFREG,
        r.link == S_IFLNK,
{
    FileTypes {
        mask: u32::from(libc::S_IFMT),
        directory: u32::from(libc::S_IFDIR),
        regular: u32::from(libc::S_IFREG),
        link: u32::from(libc::S_IFLNK),
    }
}

/// How memory is mapped.
pub(crate) struct MapBits {
    pub(crate) none: i32,
    pub(crate) read: i32,
    pub(crate) write: i32,
    pub(crate) execute: i32,
    pub(crate) private: i32,
    pub(crate) anon: i32,
}

/// The constants `libc::PROT_NONE`, `libc::PROT_READ`, `libc::PROT_WRITE`, `libc::PROT_EXEC`,
/// `libc::MAP_PRIVATE` and `libc::MAP_ANON`, which on Linux for x86-64 and aarch64 have the values
/// of the constants of the same names in this module.
#[verifier::external_body]
pub(crate) fn map_bits() -> (r: MapBits)
    ensures
        r.none == PROT_NONE,
        r.read == PROT_READ,
        r.write == PROT_WRITE,
        r.execute == PROT_EXEC,
        r.private == MAP_PRIVATE,
        r.anon == MAP_ANON,
{
    MapBits {
        none: libc::PROT_NONE,
        read: libc::PROT_READ,
        write: libc::PROT_WRITE,
        execute: libc::PROT_EXEC,
        private: libc::MAP_PRIVATE,
        anon: libc::MAP_ANON,
    }
}

/// The signals that end a process.
pub(crate) struct EndSignals {
    pub(crate) term: i32,
    pub(crate) kill: i32,
}

/// The constants `libc::SIGTERM` and `libc::SIGKILL`, which on Linux for x86-64 and aarch64 have
/// the values of the constants of the same names in this module.
#[verifier::external_body]
pub(crate) fn end_signals() -> (r: EndSignals)
    ensures
        r.term == SIGTERM,
        r.kill == SIGKILL,
{
    EndSignals { term: libc::SIGTERM, kill: libc::SIGKILL }
}

} // verus!
