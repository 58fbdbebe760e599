//! Memory mappings.
//!
//! **Private, not shared.** A shared mapping would let a writer change the bytes under a reader,
//! and the whole precondition of [`Mmap::map`] is that the file does not change while mapped. A
//! private mapping makes that unenforceable precondition harmless: a later write to the file
//! cannot be seen through it.

use vstd::prelude::*;

use crate::file;
use crate::file::{Error, Metadata};
use crate::sys;
use crate::Errno;

verus! {

/// What to call `mmap` with. The address is left to the kernel and the offset is zero.
#[derive(Debug, Clone, Copy, PartialEq, Eq, Structural)]
pub struct MapCall {
    pub len: usize,
    pub prot: i32,
    pub flags: i32,
    pub fd: i32,
}

/// What to call `mprotect` with.
#[derive(Debug, Clone, Copy, PartialEq, Eq, Structural)]
pub struct ProtectCall {
    pub len: usize,
    pub prot: i32,
}

/// Where a call put its mapping, or why it did not.
pub open spec fn mapped_to(addr: Option<usize>, errno: Errno, r: Result<usize, Error>) -> bool {
    match addr {
        Some(a) => r matches Ok(b) && a == b,
        None => r matches Err(e) && e@ == file::failure(errno, "mmap"@),
    }
}

/// Where a call put its mapping, or why it did not.
fn mapped(addr: Option<usize>, errno: Errno) -> (r: Result<usize, Error>)
    ensures
        mapped_to(addr, errno, r),
{
    match addr {
        Some(a) => Ok(a),
        None => Err(Error::from_errno(errno, "mmap")),
    }
}

/// Whether the protection was changed.
pub fn protected(returned: i32, errno: Errno) -> (r: Result<(), Error>)
    ensures
        match r {
            Ok(_) => returned == 0,
            Err(e) => returned != 0 && e@ == file::failure(errno, "mprotect"@),
        },
{
    file::status(returned, errno, "mprotect")
}

/// What is to be unmapped when a mapping is no longer needed. An empty one was never mapped.
pub open spec fn unmapping(addr: usize, len: usize) -> Option<(usize, usize)> {
    if len == 0 {
        None
    } else {
        Some((addr, len))
    }
}

/// A read-only private mapping.
#[derive(Debug, PartialEq, Eq, Structural)]
pub struct Mmap {
    addr: usize,
    len: usize,
}

impl Mmap {
    /// Where it is.
    pub closed spec fn address(&self) -> usize {
        self.addr
    }

    /// How many bytes it has.
    pub closed spec fn size(&self) -> usize {
        self.len
    }

    /// What to call to map a file read-only and privately, from what `fstat` found of it. An empty
    /// file is mapped by calling nothing, because `mmap` rejects a zero length.
    pub fn map(found: Result<Metadata, Error>, fd: i32) -> (r: Result<Option<MapCall>, Error>)
        ensures
            match found {
                Err(e) => r matches Err(f) && f == e,
                Ok(m) => r matches Ok(call) && call == (if m.size as u64 as usize == 0 {
                    None::<MapCall>
                } else {
                    Some(
                        MapCall {
                            len: m.size as u64 as usize,
                            prot: sys::PROT_READ,
                            flags: sys::MAP_PRIVATE,
                            fd,
                        },
                    )
                }),
            },
    {
        match found {
            Err(e) => Err(e),
            Ok(m) => {
                let len: usize = m.len() as usize;
                if len == 0 {
                    return Ok(None);
                }
                let bits = sys::map_bits();
                Ok(Some(MapCall { len, prot: bits.read, flags: bits.private, fd }))
            },
        }
    }

    /// The mapping of an empty file.
    pub fn empty() -> (r: Mmap)
        ensures
            r.address() == 0,
            r.size() == 0,
    {
        Mmap { addr: 0, len: 0 }
    }

    /// The mapping a call made, or why there is none.
    pub fn mapped(call: MapCall, addr: Option<usize>, errno: Errno) -> (r: Result<Mmap, Error>)
        ensures
            match addr {
                Some(a) => r matches Ok(m) && m.address() == a && m.size() == call.len,
                None => r matches Err(e) && e@ == file::failure(errno, "mmap"@),
            },
    {
        match mapped(addr, errno) {
            Ok(a) => Ok(Mmap { addr: a, len: call.len }),
            Err(e) => Err(e),
        }
    }

    /// How many bytes it has.
    pub fn len(&self) -> (r: usize)
        ensures
            r == self.size(),
    {
        self.len
    }

    /// Whether it has none.
    pub fn is_empty(&self) -> (r: bool)
        ensures
            r == (self.size() == 0),
    {
        self.len == 0
    }

    /// What to unmap when it is no longer needed.
    pub fn unmap(&self) -> (r: Option<(usize, usize)>)
        ensures
            r == unmapping(self.address(), self.size()),
            self.size() == 0 ==> r is None,
            self.size() != 0 ==> r == Some((self.address(), self.size())),
    {
        if self.len != 0 {
            Some((self.addr, self.len))
        } else {
            None
        }
    }
}

/// A writable anonymous mapping.
///
/// Used as an allocation rather than as a view of a file: the caller wants bytes it can write and
/// then freeze. Anonymous pages arrive zeroed from the kernel.
#[derive(Debug, PartialEq, Eq, Structural)]
pub struct MmapMut {
    addr: usize,
    len: usize,
}

impl MmapMut {
    /// Where it is.
    pub closed spec fn address(&self) -> usize {
        self.addr
    }

    /// How many bytes it has.
    pub closed spec fn size(&self) -> usize {
        self.len
    }

    /// What to call to map `len` zeroed, writable bytes backed by nothing. Nothing, for none.
    pub fn map_anon(len: usize) -> (r: Option<MapCall>)
        ensures
            r == (if len == 0 {
                None::<MapCall>
            } else {
                Some(
                    MapCall {
                        len,
                        prot: sys::PROT_READ | sys::PROT_WRITE,
                        flags: sys::MAP_PRIVATE | sys::MAP_ANON,
                        fd: (-1) as i32,
                    },
                )
            }),
    {
        if len == 0 {
            return None;
        }
        let bits = sys::map_bits();
        Some(
            MapCall { len, prot: bits.read | bits.write, flags: bits.private | bits.anon, fd: -1 },
        )
    }

    /// The mapping of no bytes.
    pub fn empty() -> (r: MmapMut)
        ensures
            r.address() == 0,
            r.size() == 0,
    {
        MmapMut { addr: 0, len: 0 }
    }

    /// The mapping a call made, or why there is none.
    pub fn mapped(call: MapCall, addr: Option<usize>, errno: Errno) -> (r: Result<MmapMut, Error>)
        ensures
            match addr {
                Some(a) => r matches Ok(m) && m.address() == a && m.size() == call.len,
                None => r matches Err(e) && e@ == file::failure(errno, "mmap"@),
            },
    {
        match mapped(addr, errno) {
            Ok(a) => Ok(MmapMut { addr: a, len: call.len }),
            Err(e) => Err(e),
        }
    }

    /// A no-op: there is no file behind it to flush to.
    pub fn flush(&mut self) -> (r: Result<(), Error>)
        ensures
            r is Ok,
            *final(self) == *old(self),
    {
        Ok(())
    }

    /// What to call to drop write permission. Nothing, for a mapping of no bytes.
    pub fn make_read_only(&self) -> (r: Option<ProtectCall>)
        ensures
            r == (if self.size() == 0 {
                None::<ProtectCall>
            } else {
                Some(ProtectCall { len: self.size(), prot: sys::PROT_READ })
            }),
    {
        if self.len == 0 {
            return None;
        }
        Some(ProtectCall { len: self.len, prot: sys::map_bits().read })
    }

    /// The same mapping, now that it is read-only, or why it is not. `returned` is what the call
    /// returned, or zero where none was needed.
    pub fn into_read_only(self, returned: i32, errno: Errno) -> (r: Result<Mmap, Error>)
        ensures
            match r {
                Ok(m) => returned == 0 && m.address() == self.address() && m.size() == self.size(),
                Err(e) => returned != 0 && e@ == file::failure(errno, "mprotect"@),
            },
    {
        match protected(returned, errno) {
            Ok(_) => Ok(Mmap { addr: self.addr, len: self.len }),
            Err(e) => Err(e),
        }
    }

    /// The start of the mapping, as an address.
    pub fn as_ptr_mut(&mut self) -> (r: usize)
        ensures
            r == old(self).address(),
            *final(self) == *old(self),
    {
        self.addr
    }

    /// How many bytes were mapped.
    pub fn mapped_len(&self) -> (r: usize)
        ensures
            r == self.size(),
    {
        self.len
    }

    /// What to unmap when it is no longer needed.
    pub fn unmap(&self) -> (r: Option<(usize, usize)>)
        ensures
            r == unmapping(self.address(), self.size()),
            self.size() == 0 ==> r is None,
            self.size() != 0 ==> r == Some((self.address(), self.size())),
    {
        if self.len != 0 {
            Some((self.addr, self.len))
        } else {
            None
        }
    }
}

// ---------------------------------------------------------------------------------------------
// Page protection: writing code into a page and then taking the write permission away before
// executing it.
// ---------------------------------------------------------------------------------------------

/// What a page may be used for: a set of `PROT_*` bits, because that is what `mprotect` takes.
#[derive(Clone, Copy, PartialEq, Eq, Structural, Debug)]
pub struct Protection(i32);

impl Protection {
    /// No access at all. Reserving address space without committing to it.
    pub fn none() -> (r: Protection)
        ensures
            r.bits_of() == sys::PROT_NONE,
    {
        Protection(sys::map_bits().none)
    }

    /// Readable.
    pub fn read() -> (r: Protection)
        ensures
            r.bits_of() == sys::PROT_READ,
    {
        Protection(sys::map_bits().read)
    }

    /// Readable and writable.
    pub fn read_write() -> (r: Protection)
        ensures
            r.bits_of() == sys::PROT_READ | sys::PROT_WRITE,
    {
        let bits = sys::map_bits();
        Protection(bits.read | bits.write)
    }

    /// Readable and executable. Not writable: a page that is both is what W^X forbids.
    pub fn read_execute() -> (r: Protection)
        ensures
            r.bits_of() == sys::PROT_READ | sys::PROT_EXEC,
            r.bits_of() & sys::PROT_WRITE == 0,
    {
        let bits = sys::map_bits();
        assert((1i32 | 4i32) & 2i32 == 0) by (bit_vector);
        Protection(bits.read | bits.execute)
    }

    /// The bits.
    pub closed spec fn bits_of(self) -> i32 {
        self.0
    }

    /// The raw `PROT_*` bits, for a caller that has to add one this type does not name.
    pub fn bits(self) -> (r: i32)
        ensures
            r == self.bits_of(),
    {
        self.0
    }

    /// This protection with extra `PROT_*` bits set.
    pub fn with(self, extra: i32) -> (r: Protection)
        ensures
            r.bits_of() == self.bits_of() | extra,
    {
        Protection(self.0 | extra)
    }
}

/// The size of a page, from what `sysconf` said. A system that says nothing is taken to have pages
/// of 4 KiB.
pub fn page_size(answer: i64) -> (r: usize)
    requires
        answer <= usize::MAX,
    ensures
        r == (if answer > 0 {
            answer as int
        } else {
            4096
        }),
{
    if answer > 0 {
        answer as usize
    } else {
        4096
    }
}

/// `n` rounded up to a whole number of pages.
pub open spec fn page_ceil_of(n: int, page: int) -> int {
    (n + page - 1) / page * page
}

/// Round `n` up to a whole number of pages.
pub fn page_ceil(n: usize, page: usize) -> (r: usize)
    requires
        page > 0,
        page_ceil_of(n as int, page as int) <= usize::MAX,
    ensures
        r == page_ceil_of(n as int, page as int),
        r as int % page as int == 0,
        n <= r < n + page,
{
    let whole: usize = n / page;
    let rest: usize = n % page;
    proof {
        lemma_ceil(n as int, page as int);
        pages_hold_everything(n as int, page as int);
    }
    if rest == 0 {
        whole * page
    } else {
        (whole + 1) * page
    }
}

/// Rounding up adds a page exactly when there is a rest.
proof fn lemma_ceil(n: int, page: int)
    requires
        n >= 0,
        page > 0,
    ensures
        page_ceil_of(n, page) == (if n % page == 0 {
            n / page * page
        } else {
            (n / page + 1) * page
        }),
        n / page * page >= 0,
        n / page >= 0,
        n / page <= n,
        n % page != 0 ==> n / page < n,
        n % page == 0 ==> n / page * page == n,
{
    let q = n / page;
    let r = n % page;
    vstd::arithmetic::div_mod::lemma_fundamental_div_mod(n, page);
    assert(n == page * q + r && 0 <= r < page);
    vstd::arithmetic::div_mod::lemma_div_pos_is_pos(n, page);
    assert(q * page == page * q) by (nonlinear_arith);
    assert(q * page >= q) by (nonlinear_arith)
        requires
            q >= 0,
            page > 0,
    ;
    if r == 0 {
        assert((n + page - 1) / page == q) by {
            vstd::arithmetic::div_mod::lemma_fundamental_div_mod_converse(
                n + page - 1,
                page,
                q,
                page - 1,
            );
        }
    } else {
        assert(page * (q + 1) == page * q + page) by (nonlinear_arith);
        assert((n + page - 1) / page == q + 1) by {
            vstd::arithmetic::div_mod::lemma_fundamental_div_mod_converse(
                n + page - 1,
                page,
                q + 1,
                r - 1,
            );
        }
    }
}

/// Rounding up to pages gives the smallest whole number of pages that holds everything, and
/// rounding what is already whole changes nothing.
pub proof fn pages_hold_everything(n: int, page: int)
    requires
        n >= 0,
        page > 0,
    ensures
        page_ceil_of(n, page) % page == 0,
        n <= page_ceil_of(n, page) < n + page,
        page_ceil_of(page_ceil_of(n, page), page) == page_ceil_of(n, page),
{
    lemma_ceil(n, page);
    let q = n / page;
    vstd::arithmetic::div_mod::lemma_fundamental_div_mod(n, page);
    assert(page * (q + 1) == page * q + page) by (nonlinear_arith);
    assert(q * page == page * q) by (nonlinear_arith);
    assert((q + 1) * page == page * (q + 1)) by (nonlinear_arith);
    let c = page_ceil_of(n, page);
    let k = (n + page - 1) / page;
    assert(c == k * page);
    vstd::arithmetic::div_mod::lemma_mod_multiples_basic(k, page);
    lemma_ceil(c, page);
}

/// What to call to change the protection of an already-mapped range. Nothing, for an empty one.
pub fn protect(len: usize, prot: Protection) -> (r: Option<ProtectCall>)
    ensures
        r == (if len == 0 {
            None::<ProtectCall>
        } else {
            Some(ProtectCall { len, prot: prot.bits_of() })
        }),
{
    if len == 0 {
        return None;
    }
    Some(ProtectCall { len, prot: prot.bits() })
}

/// A reserved range of address space.
///
/// Distinct from [`MmapMut`] because a reservation is not readable: it exists so that later
/// allocations get stable addresses without committing memory for them up front.
#[derive(Debug, PartialEq, Eq, Structural)]
pub struct Reservation {
    addr: usize,
    len: usize,
}

impl Reservation {
    /// Where it is.
    pub closed spec fn address(&self) -> usize {
        self.addr
    }

    /// How many bytes it has.
    pub closed spec fn size(&self) -> usize {
        self.len
    }

    /// What to call to reserve `len` bytes of address space, rounded up to a page, with no access.
    /// Nothing, for none.
    pub fn new(len: usize, page: usize) -> (r: Option<MapCall>)
        requires
            page > 0,
            page_ceil_of(len as int, page as int) <= usize::MAX,
        ensures
            r == (if len == 0 {
                None::<MapCall>
            } else {
                Some(
                    MapCall {
                        len: page_ceil_of(len as int, page as int) as usize,
                        prot: sys::PROT_NONE,
                        flags: sys::MAP_PRIVATE | sys::MAP_ANON,
                        fd: (-1) as i32,
                    },
                )
            }),
    {
        if len == 0 {
            return None;
        }
        let bits = sys::map_bits();
        let len: usize = page_ceil(len, page);
        Some(MapCall { len, prot: bits.none, flags: bits.private | bits.anon, fd: -1 })
    }

    /// The reservation of nothing.
    pub fn empty() -> (r: Reservation)
        ensures
            r.address() == 0,
            r.size() == 0,
    {
        Reservation { addr: 0, len: 0 }
    }

    /// The reservation a call made, or why there is none.
    pub fn mapped(call: MapCall, addr: Option<usize>, errno: Errno) -> (r: Result<
        Reservation,
        Error,
    >)
        ensures
            match addr {
                Some(a) => r matches Ok(m) && m.address() == a && m.size() == call.len,
                None => r matches Err(e) && e@ == file::failure(errno, "mmap"@),
            },
    {
        match mapped(addr, errno) {
            Ok(a) => Ok(Reservation { addr: a, len: call.len }),
            Err(e) => Err(e),
        }
    }

    /// The start of the reserved range, as an address.
    pub fn as_mut_ptr(&mut self) -> (r: usize)
        ensures
            r == old(self).address(),
            *final(self) == *old(self),
    {
        self.addr
    }

    /// How much was reserved, after rounding up to a page.
    pub fn len(&self) -> (r: usize)
        ensures
            r == self.size(),
    {
        self.len
    }

    /// Whether nothing was reserved.
    pub fn is_empty(&self) -> (r: bool)
        ensures
            r == (self.size() == 0),
    {
        self.len == 0
    }

    /// What to unmap when it is no longer needed.
    pub fn unmap(&self) -> (r: Option<(usize, usize)>)
        ensures
            r == unmapping(self.address(), self.size()),
            self.size() == 0 ==> r is None,
            self.size() != 0 ==> r == Some((self.address(), self.size())),
    {
        if self.len != 0 {
            Some((self.addr, self.len))
        } else {
            None
        }
    }
}

} // verus!
