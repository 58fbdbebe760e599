//! What a general-purpose allocator over `malloc` asks for.
//!
//! Alignment has three separate sharp edges that are easy to miss by reading the C documentation:
//!
//! - **`malloc` may return less than its usual alignment for a small allocation.** So the fast
//!   path needs the alignment to be no larger than the size as well.
//! - **Apple's `posix_memalign` returns a misaligned pointer for a very large alignment.** Over
//!   `1 << 31` it is refused rather than memory handed back that does not satisfy the layout.
//! - **`posix_memalign` requires the alignment to be a multiple of the size of a pointer**, which
//!   is why it is raised to at least that rather than passed through.

use vstd::arithmetic::power2;
use vstd::prelude::*;

verus! {

/// The alignment `malloc` guarantees on x86-64 and aarch64.
pub const WIDE_MIN_ALIGN: usize = 16;

/// The alignment `malloc` guarantees elsewhere.
pub const MIN_ALIGN: usize = 8;

/// The largest alignment Apple's `posix_memalign` is trusted with.
pub const APPLE_MAX_ALIGN: u64 = 0x8000_0000;

/// What the C library can be relied on for.
#[derive(Debug, Clone, Copy, PartialEq, Eq, Structural)]
pub struct Platform {
    /// Whether it is Apple's.
    pub apple: bool,
    /// Whether it is on x86-64 or aarch64.
    pub wide: bool,
}

impl Platform {
    /// The alignment `malloc` guarantees.
    pub open spec fn guaranteed(self) -> usize {
        if self.wide {
            WIDE_MIN_ALIGN
        } else {
            MIN_ALIGN
        }
    }

    /// The alignment `malloc` guarantees.
    pub fn min_align(self) -> (r: usize)
        ensures
            r == self.guaranteed(),
            self.wide ==> r == 16,
            !self.wide ==> r == 8,
    {
        if self.wide {
            WIDE_MIN_ALIGN
        } else {
            MIN_ALIGN
        }
    }
}

/// How much memory is wanted, and how it is to be aligned.
#[derive(Debug, Clone, Copy, PartialEq, Eq, Structural)]
pub struct Layout {
    pub size: usize,
    pub align: usize,
}

/// What to ask the C library for.
#[derive(Debug, Clone, Copy, PartialEq, Eq, Structural)]
pub enum Request {
    /// `malloc` of this size.
    Malloc(usize),
    /// `posix_memalign` with this alignment, of this size.
    Aligned(usize, usize),
    /// Nothing: it cannot be had.
    Refuse,
}

/// What to ask the C library for when the memory is to be zero.
#[derive(Debug, Clone, Copy, PartialEq, Eq, Structural)]
pub enum ZeroedRequest {
    /// `calloc` of this size.
    Calloc(usize),
    /// This, and then this many zeros written to it.
    ThenZero(Request, usize),
}

/// What to ask the C library for when memory is to grow or shrink.
#[derive(Debug, Clone, Copy, PartialEq, Eq, Structural)]
pub enum ResizeRequest {
    /// `realloc` to this size.
    Realloc(usize),
    /// This, and then this many bytes copied and the old memory freed, if it could be had.
    Move(Request, usize),
}

/// The size of a pointer.
pub open spec fn pointer_size() -> int {
    usize::BITS as int / 8
}

/// Whether `malloc` alone aligns an allocation of `size` to `align`.
pub open spec fn aligned_by_malloc(size: usize, align: usize, platform: Platform) -> bool {
    align <= platform.guaranteed() && align <= size
}

/// The larger of an alignment and the size of a pointer.
pub open spec fn raised(align: usize) -> int {
    if align > pointer_size() {
        align as int
    } else {
        pointer_size()
    }
}

/// What is asked for a layout.
pub open spec fn request_of(layout: Layout, platform: Platform) -> Request {
    if aligned_by_malloc(layout.size, layout.align, platform) {
        Request::Malloc(layout.size)
    } else if platform.apple && layout.align > APPLE_MAX_ALIGN {
        Request::Refuse
    } else {
        Request::Aligned(raised(layout.align) as usize, layout.size)
    }
}

/// `malloc` and `free`, as the global allocator.
#[derive(Debug, Clone, Copy, PartialEq, Eq, Structural)]
pub struct Malloc;

impl Malloc {
    /// What to ask for.
    pub fn allocate(&self, layout: Layout, platform: Platform) -> (r: Request)
        ensures
            r == request_of(layout, platform),
            ({
                let enough: usize = if platform.wide {
                    16
                } else {
                    8
                };
                let pointer = usize::BITS as int / 8;
                if layout.align <= enough && layout.align <= layout.size {
                    r == Request::Malloc(layout.size)
                } else if platform.apple && layout.align > 0x8000_0000u64 {
                    r is Refuse
                } else {
                    r matches Request::Aligned(align, size) && size == layout.size && align == (
                    if layout.align > pointer {
                        layout.align as int
                    } else {
                        pointer
                    })
                }
            }),
    {
        if layout.align <= platform.min_align() && layout.align <= layout.size {
            Request::Malloc(layout.size)
        } else {
            aligned_malloc(layout, platform)
        }
    }

    /// What to ask for when the memory is to be zero. Only memory that was had is written to.
    pub fn alloc_zeroed(&self, layout: Layout, platform: Platform) -> (r: ZeroedRequest)
        ensures
            r == (if aligned_by_malloc(layout.size, layout.align, platform) {
                ZeroedRequest::Calloc(layout.size)
            } else {
                ZeroedRequest::ThenZero(request_of(layout, platform), layout.size)
            }),
            r is Calloc <==> request_of(layout, platform) is Malloc,
            r matches ZeroedRequest::Calloc(size) ==> size == layout.size,
            r matches ZeroedRequest::ThenZero(request, zeros) ==> request == request_of(
                layout,
                platform,
            ) && zeros == layout.size,
    {
        if layout.align <= platform.min_align() && layout.align <= layout.size {
            ZeroedRequest::Calloc(layout.size)
        } else {
            ZeroedRequest::ThenZero(self.allocate(layout, platform), layout.size)
        }
    }

    /// What to ask for when memory is to grow or shrink.
    ///
    /// `realloc` cannot be asked to preserve an alignment it did not choose, so the over-aligned
    /// case is allocate, copy, free.
    pub fn realloc(&self, layout: Layout, new_size: usize, platform: Platform) -> (r: ResizeRequest)
        ensures
            r == (if aligned_by_malloc(new_size, layout.align, platform) {
                ResizeRequest::Realloc(new_size)
            } else {
                ResizeRequest::Move(
                    request_of(Layout { size: new_size, align: layout.align }, platform),
                    if layout.size < new_size {
                        layout.size
                    } else {
                        new_size
                    },
                )
            }),
            r is Realloc <==> request_of(
                Layout { size: new_size, align: layout.align },
                platform,
            ) is Malloc,
            r matches ResizeRequest::Realloc(size) ==> size == new_size,
            r matches ResizeRequest::Move(request, copied) ==> {
                &&& request == request_of(Layout { size: new_size, align: layout.align }, platform)
                &&& copied <= layout.size && copied <= new_size
                &&& copied == layout.size || copied == new_size
            },
    {
        if layout.align <= platform.min_align() && layout.align <= new_size {
            ResizeRequest::Realloc(new_size)
        } else {
            let request = self.allocate(Layout { size: new_size, align: layout.align }, platform);
            let copy: usize = if layout.size < new_size {
                layout.size
            } else {
                new_size
            };
            ResizeRequest::Move(request, copy)
        }
    }
}

/// What to ask for when `malloc` alone does not align it.
fn aligned_malloc(layout: Layout, platform: Platform) -> (r: Request)
    ensures
        r == (if platform.apple && layout.align > APPLE_MAX_ALIGN {
            Request::Refuse
        } else {
            Request::Aligned(raised(layout.align) as usize, layout.size)
        }),
{
    if platform.apple && layout.align as u64 > APPLE_MAX_ALIGN {
        return Request::Refuse;
    }
    let pointer: usize = usize::BITS as usize / 8;
    if layout.align > pointer {
        Request::Aligned(layout.align, layout.size)
    } else {
        Request::Aligned(pointer, layout.size)
    }
}

/// Of two powers of two, the larger is a multiple of the smaller.
proof fn lemma_powers(a: nat, b: nat)
    requires
        a <= b,
    ensures
        power2::pow2(b) % power2::pow2(a) == 0,
        power2::pow2(a) > 0,
{
    power2::lemma_pow2_pos(a);
    power2::lemma_pow2_adds(a, (b - a) as nat);
    let x = power2::pow2(a) as int;
    let y = power2::pow2((b - a) as nat) as int;
    assert((x * y) % x == 0) by (nonlinear_arith)
        requires
            x > 0,
    ;
}

/// Whatever is asked for satisfies the layout: it is of the wanted size, aligned to a multiple of
/// the wanted alignment, and `posix_memalign` gets a multiple of the size of a pointer.
pub proof fn requests_satisfy_the_layout(layout: Layout, platform: Platform, power: nat)
    requires
        layout.align == power2::pow2(power),
    ensures
        match request_of(layout, platform) {
            Request::Malloc(size) => size == layout.size && layout.align <= platform.guaranteed()
                && layout.align <= size,
            Request::Aligned(align, size) => {
                &&& size == layout.size
                &&& align as int % layout.align as int == 0
                &&& align as int % pointer_size() == 0
            },
            Request::Refuse => platform.apple && layout.align > APPLE_MAX_ALIGN,
        },
{
    power2::lemma2_to64();
    let p: nat = if usize::BITS == 64 {
        3
    } else {
        2
    };
    assert(pointer_size() == power2::pow2(p));
    if power <= p {
        lemma_powers(power, p);
        lemma_powers(p, p);
        if layout.align > pointer_size() {
            if power < p {
                power2::lemma_pow2_strictly_increases(power, p);
            }
        }
        if layout.align == pointer_size() {
            assert(raised(layout.align) == pointer_size());
        }
    } else {
        lemma_powers(p, power);
        lemma_powers(power, power);
        power2::lemma_pow2_strictly_increases(p, power);
    }
}


/// What is asked for, in numbers: `malloc` where the alignment is no more than it guarantees and no
/// more than the size, nothing where Apple's library cannot be trusted with the alignment, and
/// otherwise the alignment itself, raised to the size of a pointer.
pub proof fn what_is_asked_for(layout: Layout, platform: Platform)
    ensures
        request_of(layout, platform) == (if layout.align <= (if platform.wide {
            16usize
        } else {
            8usize
        }) && layout.align <= layout.size {
            Request::Malloc(layout.size)
        } else if platform.apple && layout.align > 0x8000_0000u64 {
            Request::Refuse
        } else if layout.align > usize::BITS as int / 8 {
            Request::Aligned(layout.align, layout.size)
        } else {
            Request::Aligned((usize::BITS as int / 8) as usize, layout.size)
        }),
{
}

} // verus!
