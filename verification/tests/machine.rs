use eko::cpu::{sysctl_flag, Aarch64Features, Leaf, Probe, Reading, Readings, X86Features};
use eko::file::{Error, Metadata};
use eko::heap::{Layout, Malloc, Platform, Request, ResizeRequest, ZeroedRequest};
use eko::mmap::{page_ceil, page_size, protect, protected, MapCall, Mmap, MmapMut, ProtectCall, Protection, Reservation};
use eko::print::{emit, is_terminal, write_fd};
use eko::Errno;

const NONE: Errno = Errno(0);

fn cpuid(leaf: u32, sub: u32) -> Leaf {
    let zero = Leaf { eax: 0, ebx: 0, ecx: 0, edx: 0 };
    match (leaf, sub) {
        (0, _) => Leaf { eax: 7, ..zero },
        (1, _) => Leaf { ecx: 0xffff_ffff, edx: 1 << 26, ..zero },
        (7, 0) => Leaf { ebx: 0xffff_ffff, ecx: 0xffff_ffff, ..zero },
        (7, 1) => Leaf { eax: 1 << 4, ..zero },
        (0x8000_0000, _) => Leaf { eax: 0x8000_0001, ..zero },
        (0x8000_0001, _) => Leaf { ecx: 1 << 5, ..zero },
        _ => panic!("a leaf that is not there"),
    }
}

fn probed(xcr0: u64) -> X86Features {
    let mut p = Probe::new();
    for _ in 0..7 {
        match p.next {
            Reading::Cpuid(leaf, sub) => p.leaf(cpuid(leaf, sub)),
            Reading::Xcr0 => p.xcr0(xcr0),
            Reading::Done => break,
        }
    }
    assert_eq!(p.next, Reading::Done);
    X86Features::detect(&p.readings)
}

#[test]
fn a_processor_that_has_everything() {
    let f = probed(0xe6);
    assert!(f.sse2 && f.cmpxchg16b && f.sse3 && f.ssse3 && f.sse41 && f.sse42 && f.popcnt);
    assert!(f.avx && f.avx2 && f.fma && f.avx_vnni && f.bmi1 && f.bmi2 && f.lzcnt);
    assert!(f.avx512f && f.avx512dq && f.avx512vl && f.avx512vbmi && f.avx512vnni && f.avx512bitalg);
}

#[test]
fn wide_registers_that_are_not_saved() {
    let f = probed(0x2);
    assert!(f.sse42 && f.bmi2);
    assert!(!f.avx && !f.avx2 && !f.fma && !f.avx_vnni && !f.avx512f);
    let half = probed(0x6);
    assert!(half.avx2 && half.fma && !half.avx512f);
}

#[test]
fn each_x86_bit() {
    let none = Probe::new().readings;
    assert_eq!(X86Features::detect(&none), X86Features::default());
    let only = |r: Readings| X86Features::detect(&r);
    assert!(only(Readings { info_ecx: 1, ..none }).sse3);
    assert!(only(Readings { info_ecx: 1 << 9, ..none }).ssse3);
    assert!(only(Readings { info_ecx: 1 << 13, ..none }).cmpxchg16b);
    assert!(only(Readings { info_ecx: 1 << 19, ..none }).sse41);
    assert!(only(Readings { info_ecx: 1 << 20, ..none }).sse42);
    assert!(only(Readings { info_ecx: 1 << 23, ..none }).popcnt);
    assert!(only(Readings { info_edx: 1 << 26, ..none }).sse2);
    assert!(only(Readings { ext_ebx: 1 << 3, ..none }).bmi1);
    assert!(only(Readings { ext_ebx: 1 << 8, ..none }).bmi2);
    assert!(only(Readings { ext_info_ecx: 1 << 5, ..none }).lzcnt);
    let saved = Readings { info_ecx: 3 << 26, xcr0: 0xe6, ..none };
    assert!(only(Readings { info_ecx: saved.info_ecx | 1 << 28, ..saved }).avx);
    assert!(only(Readings { ext_ebx: 1 << 5, ..saved }).avx2);
    assert!(only(Readings { ext_eax_1: 1 << 4, ..saved }).avx_vnni);
    let full = Readings { info_ecx: saved.info_ecx | 1 << 29 | 1 << 12, ..saved };
    assert!(only(full).fma);
    assert!(only(Readings { ext_ebx: 1 << 16, ..full }).avx512f);
    assert!(only(Readings { ext_ebx: 1 << 17, ..full }).avx512dq);
    assert!(only(Readings { ext_ebx: 1 << 31, ..full }).avx512vl);
    assert!(only(Readings { ext_ecx: 1 << 1, ..full }).avx512vbmi);
    assert!(only(Readings { ext_ecx: 1 << 11, ..full }).avx512vnni);
    assert!(only(Readings { ext_ecx: 1 << 12, ..full }).avx512bitalg);
    assert!(!only(Readings { ext_ebx: 1 << 16, ..saved }).avx512f);
}

#[test]
fn an_old_processor_is_not_asked_for_new_leaves() {
    let mut p = Probe::new();
    p.leaf(Leaf { eax: 0, ebx: 0, ecx: 0, edx: 0 });
    assert_eq!(p.next, Reading::Done);
    let mut q = Probe::new();
    q.leaf(Leaf { eax: 6, ebx: 0, ecx: 0, edx: 0 });
    q.leaf(Leaf { eax: 0, ebx: 0, ecx: 0, edx: 0 });
    assert_eq!(q.next, Reading::Cpuid(0x8000_0000, 0));
    q.leaf(Leaf { eax: 0x8000_0000, ebx: 0, ecx: 0, edx: 0 });
    assert_eq!(q.next, Reading::Done);
}

#[test]
fn each_arm_bit() {
    assert_eq!(Aarch64Features::detect(0, 0), Aarch64Features::default());
    assert!(Aarch64Features::detect(1 << 8, 0).lse);
    assert!(Aarch64Features::detect(1 << 30, 0).pauth);
    assert!(Aarch64Features::detect(1 << 20, 0).dotprod);
    assert!(Aarch64Features::detect(0, 1 << 13).i8mm);
    assert!(Aarch64Features::detect(0, 1 << 17).bti);
    assert!(!Aarch64Features::detect(1 << 9, 0).fp16);
    assert!(Aarch64Features::detect(1 << 9 | 1, 0).fp16);
    assert!(sysctl_flag(0, 1) && !sysctl_flag(0, 0) && !sysctl_flag(-1, 1));
}

#[test]
fn what_an_allocation_asks_for() {
    let l = |size: usize, align: usize| Layout { size, align };
    let linux = Platform { apple: false, wide: true };
    let apple = Platform { apple: true, wide: true };
    let narrow = Platform { apple: false, wide: false };
    assert_eq!(Malloc.allocate(l(64, 16), narrow), Request::Aligned(16, 64));
    assert_eq!(Malloc.allocate(l(64, 8), narrow), Request::Malloc(64));
    assert_eq!((linux.min_align(), narrow.min_align()), (16, 8));
    assert_eq!(Malloc.allocate(l(64, 16), linux), Request::Malloc(64));
    assert_eq!(Malloc.allocate(l(8, 16), linux), Request::Aligned(16, 8));
    assert_eq!(Malloc.allocate(l(1, 4), linux), Request::Aligned(8, 1));
    assert_eq!(Malloc.allocate(l(64, 64), linux), Request::Aligned(64, 64));
    assert_eq!(Malloc.allocate(l(64, 1 << 32), apple), Request::Refuse);
    assert_eq!(Malloc.allocate(l(64, 1 << 31), apple), Request::Aligned(1 << 31, 64));
    assert_eq!(Malloc.allocate(l(64, 1 << 32), linux), Request::Aligned(1 << 32, 64));
    assert_eq!(Malloc.alloc_zeroed(l(64, 8), linux), ZeroedRequest::Calloc(64));
    assert_eq!(Malloc.alloc_zeroed(l(64, 32), linux), ZeroedRequest::ThenZero(Request::Aligned(32, 64), 64));
    assert_eq!(Malloc.realloc(l(64, 8), 128, linux), ResizeRequest::Realloc(128));
    assert_eq!(Malloc.realloc(l(64, 32), 16, linux), ResizeRequest::Move(Request::Aligned(32, 16), 16));
    assert_eq!(Malloc.realloc(l(8, 32), 160, linux), ResizeRequest::Move(Request::Aligned(32, 160), 8));
}

#[test]
fn mapping_files() {
    let m = |size: i64| Metadata { size, mode_bits: 0o100644, mtime: 0 };
    let call = Mmap::map(Ok(m(10)), 4).unwrap().unwrap();
    assert_eq!(call, MapCall { len: 10, prot: libc::PROT_READ, flags: libc::MAP_PRIVATE, fd: 4 });
    assert_eq!(Mmap::map(Ok(m(0)), 4).unwrap(), None);
    assert!(Mmap::map(Err(Error::from_errno(Errno(9), "fstat")), 4).is_err());
    let mapped = Mmap::mapped(call, Some(4096), NONE).unwrap();
    assert_eq!((mapped.len(), mapped.unmap()), (10, Some((4096, 10))));
    assert_eq!(Mmap::mapped(call, None, Errno(12)).unwrap_err().what(), "mmap");
    assert_eq!(Mmap::empty().unmap(), None);
    assert!(Mmap::empty().is_empty());
}

#[test]
fn mapping_memory() {
    let call = MmapMut::map_anon(100).unwrap();
    assert_eq!(call.prot, libc::PROT_READ | libc::PROT_WRITE);
    assert_eq!((call.flags, call.fd), (libc::MAP_PRIVATE | libc::MAP_ANON, -1));
    assert_eq!(MmapMut::map_anon(0), None);
    let mut m = MmapMut::mapped(call, Some(8192), NONE).unwrap();
    assert_eq!(m.flush(), Ok(()));
    assert_eq!((m.as_ptr_mut(), m.mapped_len()), (8192, 100));
    assert_eq!(m.make_read_only(), Some(ProtectCall { len: 100, prot: libc::PROT_READ }));
    assert_eq!(m.unmap(), Some((8192, 100)));
    assert_eq!(m.into_read_only(0, NONE).unwrap().len(), 100);
    let e = MmapMut::mapped(call, Some(8192), NONE).unwrap().into_read_only(-1, Errno(13)).unwrap_err();
    assert_eq!(e.what(), "mprotect");
    assert_eq!(MmapMut::empty().make_read_only(), None);
}

#[test]
fn protecting_pages() {
    assert_eq!(Protection::none().bits(), libc::PROT_NONE);
    assert_eq!(Protection::read().bits(), libc::PROT_READ);
    assert_eq!(Protection::read_write().bits(), libc::PROT_READ | libc::PROT_WRITE);
    assert_eq!(Protection::read_execute().bits(), libc::PROT_READ | libc::PROT_EXEC);
    assert_eq!(Protection::read().with(0x100).bits(), libc::PROT_READ | 0x100);
    assert_eq!(protect(0, Protection::read()), None);
    assert_eq!(protect(5, Protection::read_execute()).unwrap().prot, 5);
    assert_eq!(protected(0, NONE), Ok(()));
    assert_eq!(protected(-1, Errno(13)).unwrap_err().what(), "mprotect");
}

#[test]
fn whole_pages() {
    assert_eq!(page_size(16384), 16384);
    assert_eq!(page_size(-1), 4096);
    assert_eq!(page_ceil(0, 4096), 0);
    assert_eq!(page_ceil(1, 4096), 4096);
    assert_eq!(page_ceil(4096, 4096), 4096);
    assert_eq!(page_ceil(4097, 4096), 8192);
    assert_eq!(page_ceil(page_ceil(5000, 4096), 4096), page_ceil(5000, 4096));
    let call = Reservation::new(5000, 4096).unwrap();
    assert_eq!((call.len, call.prot), (8192, libc::PROT_NONE));
    let mut r = Reservation::mapped(call, Some(65536), NONE).unwrap();
    assert_eq!((r.len(), r.is_empty(), r.as_mut_ptr()), (8192, false, 65536));
    assert_eq!(r.unmap(), Some((65536, 8192)));
    assert_eq!(Reservation::new(0, 4096), None);
    assert_eq!(Reservation::empty().unmap(), None);
    assert_eq!(Reservation::mapped(call, None, Errno(12)).unwrap_err().what(), "mmap");
}

#[test]
fn messages_give_up_quietly() {
    let mut w = write_fd(b"hello");
    w.step(2, NONE);
    assert_eq!(w.rest(), b"llo");
    w.step(-1, Errno(libc::EINTR));
    assert_eq!(w.rest(), b"llo");
    w.step(-1, Errno(libc::EPIPE));
    assert!(w.rest().is_empty());
    let mut zero = emit("x");
    assert_eq!(zero.rest(), b"x");
    zero.step(0, Errno(libc::EINTR));
    assert!(zero.rest().is_empty());
    assert!(is_terminal(1) && !is_terminal(0) && !is_terminal(-1));
}
