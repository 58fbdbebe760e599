//! What the host processor can do, asked at run time.
//!
//! Not feature detection in general: the predicates that a code generator actually reads, and
//! nothing else. Adding one is adding a field.
//!
//! A wrong bit here does not fail loudly: it silently tells the generator a feature is present that
//! is not, and the first symptom is an illegal instruction in generated code. That is why each
//! block names its source.

use vstd::prelude::*;

verus! {

/// Whether bit `n` of a word is set.
pub open spec fn bit_of(word: u32, n: u32) -> bool {
    word & (1u32 << n) != 0
}

/// Whether bit `n` of a word is set.
fn bit(word: u32, n: u32) -> (r: bool)
    requires
        n < 32,
    ensures
        r == bit_of(word, n),
{
    word & (1u32 << n) != 0
}

/// Whether bit `n` of a long word is set.
pub open spec fn long_bit_of(word: u64, n: u32) -> bool {
    word & (1u64 << n) != 0
}

/// Whether bit `n` of a long word is set.
fn long_bit(word: u64, n: u32) -> (r: bool)
    requires
        n < 64,
    ensures
        r == long_bit_of(word, n),
{
    word & (1u64 << n) != 0
}

// ---------------------------------------------------------------------------------------------
// aarch64.
// ---------------------------------------------------------------------------------------------

/// What the host aarch64 processor supports, of the features a code generator asks about.
#[derive(Debug, Clone, Copy, PartialEq, Eq, Structural)]
pub struct Aarch64Features {
    /// FEAT_LSE: the large-system atomics, `CAS`/`SWP`/`LDADD` and friends.
    pub lse: bool,
    /// FEAT_PAuth: pointer authentication, which is what signing a return address needs.
    pub pauth: bool,
    /// FEAT_FP16: half-precision floating point as an arithmetic type.
    pub fp16: bool,
    /// FEAT_DotProd: `SDOT`/`UDOT`.
    pub dotprod: bool,
    /// FEAT_I8MM: the 8-bit integer matrix-multiply instructions.
    pub i8mm: bool,
    /// FEAT_BTI: branch target identification, which changes how pages are mapped executable.
    pub bti: bool,
}

impl Aarch64Features {
    /// What the auxiliary vector of Linux says, from its two words of capabilities.
    ///
    /// Bit positions are `arch/arm64/include/uapi/asm/hwcap.h`. `fp16` is two bits, not one: the
    /// scalar half-precision support and the base floating point unit both have to be there before
    /// the type is usable.
    pub fn detect(hwcap: u64, hwcap2: u64) -> (r: Aarch64Features)
        ensures
            r.lse == long_bit_of(hwcap, 8),
            r.pauth == long_bit_of(hwcap, 30),
            r.fp16 == (long_bit_of(hwcap, 0) && long_bit_of(hwcap, 9)),
            r.dotprod == long_bit_of(hwcap, 20),
            r.i8mm == long_bit_of(hwcap2, 13),
            r.bti == long_bit_of(hwcap2, 17),
            r.lse == (hwcap & (1u64 << 8) != 0),
            r.pauth == (hwcap & (1u64 << 30) != 0),
            r.fp16 == (hwcap & (1u64 << 0) != 0 && hwcap & (1u64 << 9) != 0),
            r.dotprod == (hwcap & (1u64 << 20) != 0),
            r.i8mm == (hwcap2 & (1u64 << 13) != 0),
            r.bti == (hwcap2 & (1u64 << 17) != 0),
    {
        Aarch64Features {
            lse: long_bit(hwcap, 8),
            pauth: long_bit(hwcap, 30),
            fp16: long_bit(hwcap, 0) && long_bit(hwcap, 9),
            dotprod: long_bit(hwcap, 20),
            i8mm: long_bit(hwcap2, 13),
            bti: long_bit(hwcap2, 17),
        }
    }
}

impl Default for Aarch64Features {
    /// No feature at all, which is the conservative answer where nothing can be asked: claiming
    /// none produces code that runs everywhere.
    fn default() -> (r: Aarch64Features)
        ensures
            !r.lse && !r.pauth && !r.fp16 && !r.dotprod && !r.i8mm && !r.bti,
    {
        Aarch64Features {
            lse: false,
            pauth: false,
            fp16: false,
            dotprod: false,
            i8mm: false,
            bti: false,
        }
    }
}

/// What one `sysctl` node says, as a boolean. A node that does not exist says no.
pub fn sysctl_flag(returned: i32, enabled: i32) -> (r: bool)
    ensures
        r == (returned == 0 && enabled != 0),
{
    returned == 0 && enabled != 0
}

// ---------------------------------------------------------------------------------------------
// x86-64.
// ---------------------------------------------------------------------------------------------

/// What the host x86-64 processor supports, of the features a code generator asks about.
#[derive(Debug, Clone, Copy, PartialEq, Eq, Structural)]
pub struct X86Features {
    /// SSE2. Baseline for the target, but the backend still refuses to run without it.
    pub sse2: bool,
    /// `CMPXCHG16B`, which is how a 128-bit atomic is done.
    pub cmpxchg16b: bool,
    /// SSE3.
    pub sse3: bool,
    /// SSSE3.
    pub ssse3: bool,
    /// SSE4.1.
    pub sse41: bool,
    /// SSE4.2.
    pub sse42: bool,
    /// `POPCNT`.
    pub popcnt: bool,
    /// AVX. Requires the OS to have opted into saving the wide registers.
    pub avx: bool,
    /// AVX2.
    pub avx2: bool,
    /// FMA.
    pub fma: bool,
    /// AVX-VNNI, the VEX-encoded dot products.
    pub avx_vnni: bool,
    /// AVX-512 VNNI.
    pub avx512vnni: bool,
    /// BMI1.
    pub bmi1: bool,
    /// BMI2.
    pub bmi2: bool,
    /// AVX-512 BITALG.
    pub avx512bitalg: bool,
    /// AVX-512 DQ.
    pub avx512dq: bool,
    /// AVX-512 F, the foundation the rest of AVX-512 sits on.
    pub avx512f: bool,
    /// AVX-512 VL.
    pub avx512vl: bool,
    /// AVX-512 VBMI.
    pub avx512vbmi: bool,
    /// `LZCNT`, which is ABM on AMD.
    pub lzcnt: bool,
}

/// The words of `CPUID` and `XCR0` that say so. A word that could not be read is zero.
#[derive(Debug, Clone, Copy, PartialEq, Eq, Structural)]
pub struct Readings {
    /// The highest basic leaf: `EAX` of leaf 0.
    pub max_leaf: u32,
    /// `ECX` of leaf 1.
    pub info_ecx: u32,
    /// `EDX` of leaf 1.
    pub info_edx: u32,
    /// `EBX` of leaf 7.
    pub ext_ebx: u32,
    /// `ECX` of leaf 7.
    pub ext_ecx: u32,
    /// `EAX` of leaf 7, sub-leaf 1.
    pub ext_eax_1: u32,
    /// The highest extended leaf: `EAX` of leaf 0x8000_0000.
    pub max_ext_leaf: u32,
    /// `ECX` of leaf 0x8000_0001.
    pub ext_info_ecx: u32,
    /// Which registers the operating system saves.
    pub xcr0: u64,
}

impl Readings {
    /// Whether `XCR0` may be read: reading it is undefined unless the operating system says that it
    /// saves registers.
    pub open spec fn saves_of(self) -> bool {
        bit_of(self.info_ecx, 26) && bit_of(self.info_ecx, 27)
    }

    /// Whether the operating system saves the wide registers: `XCR0.SSE[1]` and `XCR0.AVX[2]`.
    ///
    /// A processor can report AVX while the operating system has not enabled saving the wide
    /// registers across a context switch, and using AVX then corrupts state rather than trapping.
    pub open spec fn wide_registers_of(self) -> bool {
        self.saves_of() && self.xcr0 & 0x6 == 0x6
    }

    /// Whether AVX-512 may be used: the operating system saves its registers (`XCR0.opmask[5]`,
    /// `XCR0.ZMM_hi256[6]` and `XCR0.Hi16_ZMM[7]`) and the processor has F16C and FMA, without
    /// which none ships.
    pub open spec fn widest_registers_of(self) -> bool {
        &&& self.wide_registers_of()
        &&& self.xcr0 & 0xe0 == 0xe0
        &&& bit_of(self.info_ecx, 29)
        &&& bit_of(self.info_ecx, 12)
    }

    /// What the readings say. The leaves and bit positions are Intel SDM Volume 2 "CPUID".
    pub open spec fn features_of(self) -> X86Features {
        X86Features {
            sse2: bit_of(self.info_edx, 26),
            cmpxchg16b: bit_of(self.info_ecx, 13),
            sse3: bit_of(self.info_ecx, 0),
            ssse3: bit_of(self.info_ecx, 9),
            sse41: bit_of(self.info_ecx, 19),
            sse42: bit_of(self.info_ecx, 20),
            popcnt: bit_of(self.info_ecx, 23),
            avx: self.wide_registers_of() && bit_of(self.info_ecx, 28),
            avx2: self.wide_registers_of() && bit_of(self.ext_ebx, 5),
            fma: self.wide_registers_of() && bit_of(self.info_ecx, 12),
            avx_vnni: self.wide_registers_of() && bit_of(self.ext_eax_1, 4),
            avx512vnni: self.widest_registers_of() && bit_of(self.ext_ecx, 11),
            bmi1: bit_of(self.ext_ebx, 3),
            bmi2: bit_of(self.ext_ebx, 8),
            avx512bitalg: self.widest_registers_of() && bit_of(self.ext_ecx, 12),
            avx512dq: self.widest_registers_of() && bit_of(self.ext_ebx, 17),
            avx512f: self.widest_registers_of() && bit_of(self.ext_ebx, 16),
            avx512vl: self.widest_registers_of() && bit_of(self.ext_ebx, 31),
            avx512vbmi: self.widest_registers_of() && bit_of(self.ext_ecx, 1),
            lzcnt: bit_of(self.ext_info_ecx, 5),
        }
    }

    /// Whether `XCR0` may be read.
    fn saves(&self) -> (r: bool)
        ensures
            r == self.saves_of(),
    {
        bit(self.info_ecx, 26) && bit(self.info_ecx, 27)
    }
}

impl X86Features {
    /// What the readings say.
    pub fn detect(r: &Readings) -> (f: X86Features)
        ensures
            f == r.features_of(),
            ({
                let wide = r.info_ecx & (1u32 << 26) != 0 && r.info_ecx & (1u32 << 27) != 0
                    && r.xcr0 & 0x6 == 0x6;
                let widest = r.xcr0 & 0xe0 == 0xe0 && r.info_ecx & (1u32 << 29) != 0 && r.info_ecx
                    & (1u32 << 12) != 0;
                &&& f.sse2 == (r.info_edx & (1u32 << 26) != 0)
                &&& f.cmpxchg16b == (r.info_ecx & (1u32 << 13) != 0)
                &&& f.sse3 == (r.info_ecx & (1u32 << 0) != 0)
                &&& f.ssse3 == (r.info_ecx & (1u32 << 9) != 0)
                &&& f.sse41 == (r.info_ecx & (1u32 << 19) != 0)
                &&& f.sse42 == (r.info_ecx & (1u32 << 20) != 0)
                &&& f.popcnt == (r.info_ecx & (1u32 << 23) != 0)
                &&& f.avx == (wide && r.info_ecx & (1u32 << 28) != 0)
                &&& f.avx2 == (wide && r.ext_ebx & (1u32 << 5) != 0)
                &&& f.fma == (wide && r.info_ecx & (1u32 << 12) != 0)
                &&& f.avx_vnni == (wide && r.ext_eax_1 & (1u32 << 4) != 0)
                &&& f.avx512vnni == (wide && widest && r.ext_ecx & (1u32 << 11) != 0)
                &&& f.bmi1 == (r.ext_ebx & (1u32 << 3) != 0)
                &&& f.bmi2 == (r.ext_ebx & (1u32 << 8) != 0)
                &&& f.avx512bitalg == (wide && widest && r.ext_ecx & (1u32 << 12) != 0)
                &&& f.avx512dq == (wide && widest && r.ext_ebx & (1u32 << 17) != 0)
                &&& f.avx512f == (wide && widest && r.ext_ebx & (1u32 << 16) != 0)
                &&& f.avx512vl == (wide && widest && r.ext_ebx & (1u32 << 31) != 0)
                &&& f.avx512vbmi == (wide && widest && r.ext_ecx & (1u32 << 1) != 0)
                &&& f.lzcnt == (r.ext_info_ecx & (1u32 << 5) != 0)
            }),
    {
        let f = X86Features::read(r);
        proof {
            each_feature_is_its_bit(*r);
        }
        f
    }

    /// What the readings say, bit by bit.
    fn read(r: &Readings) -> (f: X86Features)
        ensures
            f == r.features_of(),
    {
        let wide = r.saves() && r.xcr0 & 0x6 == 0x6;
        let widest = wide && r.xcr0 & 0xe0 == 0xe0 && bit(r.info_ecx, 29) && bit(r.info_ecx, 12);
        X86Features {
            sse2: bit(r.info_edx, 26),
            cmpxchg16b: bit(r.info_ecx, 13),
            sse3: bit(r.info_ecx, 0),
            ssse3: bit(r.info_ecx, 9),
            sse41: bit(r.info_ecx, 19),
            sse42: bit(r.info_ecx, 20),
            popcnt: bit(r.info_ecx, 23),
            avx: wide && bit(r.info_ecx, 28),
            avx2: wide && bit(r.ext_ebx, 5),
            fma: wide && bit(r.info_ecx, 12),
            avx_vnni: wide && bit(r.ext_eax_1, 4),
            avx512vnni: widest && bit(r.ext_ecx, 11),
            bmi1: bit(r.ext_ebx, 3),
            bmi2: bit(r.ext_ebx, 8),
            avx512bitalg: widest && bit(r.ext_ecx, 12),
            avx512dq: widest && bit(r.ext_ebx, 17),
            avx512f: widest && bit(r.ext_ebx, 16),
            avx512vl: widest && bit(r.ext_ebx, 31),
            avx512vbmi: widest && bit(r.ext_ecx, 1),
            lzcnt: bit(r.ext_info_ecx, 5),
        }
    }
}

impl Default for X86Features {
    /// No feature at all.
    fn default() -> (r: X86Features)
        ensures
            r == nothing_read().features_of(),
            !r.sse2 && !r.cmpxchg16b && !r.sse3 && !r.ssse3 && !r.sse41 && !r.sse42 && !r.popcnt,
            !r.bmi1 && !r.bmi2 && !r.lzcnt && !r.avx && !r.avx2 && !r.fma && !r.avx_vnni,
            !r.avx512vnni && !r.avx512bitalg && !r.avx512dq && !r.avx512f && !r.avx512vl,
            !r.avx512vbmi,
    {
        proof {
            an_unread_processor_has_nothing();
        }
        X86Features::detect(&Probe::new().readings)
    }
}

/// What `CPUID` leaves in its four registers.
#[derive(Debug, Clone, Copy, PartialEq, Eq, Structural)]
pub struct Leaf {
    pub eax: u32,
    pub ebx: u32,
    pub ecx: u32,
    pub edx: u32,
}

/// What to read next.
#[derive(Debug, Clone, Copy, PartialEq, Eq, Structural)]
pub enum Reading {
    /// `CPUID` with this leaf and sub-leaf.
    Cpuid(u32, u32),
    /// `XGETBV` of register 0.
    Xcr0,
    /// Nothing: everything that can be read has been.
    Done,
}

/// A processor being read.
#[derive(Debug, Clone, Copy, PartialEq, Eq, Structural)]
pub struct Probe {
    /// What is read next.
    pub next: Reading,
    /// What has been read.
    pub readings: Readings,
}

/// What is read after the basic leaves.
pub open spec fn after_basic() -> Reading {
    Reading::Cpuid(0x8000_0000, 0)
}

/// What is read after the extended leaves: `XCR0`, where it may be read.
pub open spec fn after_extended(r: Readings) -> Reading {
    if r.saves_of() {
        Reading::Xcr0
    } else {
        Reading::Done
    }
}

impl Probe {
    /// The probe once a leaf has been read. A leaf above the highest one is not asked for.
    pub open spec fn after_leaf(self, leaf: Leaf) -> Probe {
        let r = self.readings;
        match self.next {
            Reading::Cpuid(0, _) => Probe {
                next: if leaf.eax < 1 {
                    Reading::Done
                } else {
                    Reading::Cpuid(1, 0)
                },
                readings: Readings { max_leaf: leaf.eax, ..r },
            },
            Reading::Cpuid(1, _) => Probe {
                next: if r.max_leaf >= 7 {
                    Reading::Cpuid(7, 0)
                } else {
                    after_basic()
                },
                readings: Readings { info_ecx: leaf.ecx, info_edx: leaf.edx, ..r },
            },
            Reading::Cpuid(7, 0) => Probe {
                next: Reading::Cpuid(7, 1),
                readings: Readings { ext_ebx: leaf.ebx, ext_ecx: leaf.ecx, ..r },
            },
            Reading::Cpuid(7, _) => Probe {
                next: after_basic(),
                readings: Readings { ext_eax_1: leaf.eax, ..r },
            },
            Reading::Cpuid(0x8000_0000, _) => Probe {
                next: if leaf.eax >= 0x8000_0001 {
                    Reading::Cpuid(0x8000_0001, 0)
                } else {
                    after_extended(r)
                },
                readings: Readings { max_ext_leaf: leaf.eax, ..r },
            },
            Reading::Cpuid(0x8000_0001, _) => Probe {
                next: after_extended(r),
                readings: Readings { ext_info_ecx: leaf.ecx, ..r },
            },
            _ => self,
        }
    }

    /// The probe once `XCR0` has been read.
    pub open spec fn after_xcr0(self, xcr0: u64) -> Probe {
        match self.next {
            Reading::Xcr0 => Probe {
                next: Reading::Done,
                readings: Readings { xcr0, ..self.readings },
            },
            _ => self,
        }
    }

    /// Nothing read yet.
    pub fn new() -> (r: Probe)
        ensures
            r.next == Reading::Cpuid(0, 0),
            r.readings == nothing_read(),
    {
        Probe {
            next: Reading::Cpuid(0, 0),
            readings: Readings {
                max_leaf: 0,
                info_ecx: 0,
                info_edx: 0,
                ext_ebx: 0,
                ext_ecx: 0,
                ext_eax_1: 0,
                max_ext_leaf: 0,
                ext_info_ecx: 0,
                xcr0: 0,
            },
        }
    }

    /// Take what a leaf held.
    pub fn leaf(&mut self, leaf: Leaf)
        ensures
            *final(self) == old(self).after_leaf(leaf),
    {
        let mut r = self.readings;
        let mut next = self.next;
        match self.next {
            Reading::Cpuid(0, _) => {
                r.max_leaf = leaf.eax;
                next = if leaf.eax < 1 {
                    Reading::Done
                } else {
                    Reading::Cpuid(1, 0)
                };
            },
            Reading::Cpuid(1, _) => {
                r.info_ecx = leaf.ecx;
                r.info_edx = leaf.edx;
                next = if r.max_leaf >= 7 {
                    Reading::Cpuid(7, 0)
                } else {
                    Reading::Cpuid(0x8000_0000, 0)
                };
            },
            Reading::Cpuid(7, 0) => {
                r.ext_ebx = leaf.ebx;
                r.ext_ecx = leaf.ecx;
                next = Reading::Cpuid(7, 1);
            },
            Reading::Cpuid(7, _) => {
                r.ext_eax_1 = leaf.eax;
                next = Reading::Cpuid(0x8000_0000, 0);
            },
            Reading::Cpuid(0x8000_0000, _) => {
                r.max_ext_leaf = leaf.eax;
                next = if leaf.eax >= 0x8000_0001 {
                    Reading::Cpuid(0x8000_0001, 0)
                } else if r.saves() {
                    Reading::Xcr0
                } else {
                    Reading::Done
                };
            },
            Reading::Cpuid(0x8000_0001, _) => {
                r.ext_info_ecx = leaf.ecx;
                next = if r.saves() {
                    Reading::Xcr0
                } else {
                    Reading::Done
                };
            },
            _ => {},
        }
        *self = Probe { next, readings: r };
    }

    /// Take what `XCR0` held.
    pub fn xcr0(&mut self, xcr0: u64)
        ensures
            *final(self) == old(self).after_xcr0(xcr0),
    {
        match self.next {
            Reading::Xcr0 => {
                self.readings.xcr0 = xcr0;
                self.next = Reading::Done;
            },
            _ => {},
        }
    }
}

/// The readings of a processor that has not been read.
pub open spec fn nothing_read() -> Readings {
    Readings {
        max_leaf: 0,
        info_ecx: 0,
        info_edx: 0,
        ext_ebx: 0,
        ext_ecx: 0,
        ext_eax_1: 0,
        max_ext_leaf: 0,
        ext_info_ecx: 0,
        xcr0: 0,
    }
}

// ---------------------------------------------------------------------------------------------
// What a reading of a whole processor comes to.
// ---------------------------------------------------------------------------------------------

/// A processor: what each leaf holds, and what `XCR0` does.
pub struct Processor {
    pub leaf: spec_fn(u32, u32) -> Leaf,
    pub xcr0: u64,
}

impl Processor {
    /// Everything that may be read of it, with zeros for what may not.
    pub open spec fn readings(self) -> Readings {
        let max_leaf = (self.leaf)(0, 0).eax;
        let info = (self.leaf)(1, 0);
        let ext = (self.leaf)(7, 0);
        let max_ext_leaf = (self.leaf)(0x8000_0000, 0).eax;
        if max_leaf < 1 {
            nothing_read()
        } else {
            let all = Readings {
                max_leaf,
                info_ecx: info.ecx,
                info_edx: info.edx,
                ext_ebx: if max_leaf >= 7 { ext.ebx } else { 0 },
                ext_ecx: if max_leaf >= 7 { ext.ecx } else { 0 },
                ext_eax_1: if max_leaf >= 7 { (self.leaf)(7, 1).eax } else { 0 },
                max_ext_leaf,
                ext_info_ecx: if max_ext_leaf >= 0x8000_0001 {
                    (self.leaf)(0x8000_0001, 0).ecx
                } else {
                    0
                },
                xcr0: 0,
            };
            Readings { xcr0: if all.saves_of() { self.xcr0 } else { 0 }, ..all }
        }
    }
}

/// A probe after one more reading of a processor.
pub open spec fn read_on(p: Probe, cpu: Processor) -> Probe {
    match p.next {
        Reading::Cpuid(leaf, sub) => p.after_leaf((cpu.leaf)(leaf, sub)),
        Reading::Xcr0 => p.after_xcr0(cpu.xcr0),
        Reading::Done => p,
    }
}

/// A probe after `n` readings.
pub open spec fn read_times(p: Probe, cpu: Processor, n: nat) -> Probe
    decreases n,
{
    if n == 0 {
        p
    } else {
        read_times(read_on(p, cpu), cpu, (n - 1) as nat)
    }
}

/// Seven readings are enough for every processor, and they read everything that may be read and
/// nothing else.
pub proof fn a_probe_reads_the_processor(cpu: Processor)
    ensures
        ({
            let start = Probe { next: Reading::Cpuid(0, 0), readings: nothing_read() };
            let end = read_times(start, cpu, 7);
            end.next is Done && end.readings == cpu.readings()
        }),
{
    reveal_with_fuel(read_times, 8);
}

/// What a whole reading comes to, word by word: the words of leaf 1 where there is one, those of
/// leaf 7 where the basic leaves go that far, that of the first extended leaf where there is one,
/// `XCR0` where it may be read, and zero for each that is not there.
pub proof fn each_word_is_where_the_processor_has_it(cpu: Processor)
    ensures
        ({
            let leaf = cpu.leaf;
            let zero = Readings {
                max_leaf: 0,
                info_ecx: 0,
                info_edx: 0,
                ext_ebx: 0,
                ext_ecx: 0,
                ext_eax_1: 0,
                max_ext_leaf: 0,
                ext_info_ecx: 0,
                xcr0: 0,
            };
            let r = read_times(
                Probe { next: Reading::Cpuid(0, 0), readings: zero },
                cpu,
                7,
            ).readings;
            let basic = leaf(0, 0).eax >= 1;
            let seven = leaf(0, 0).eax >= 7;
            let extended = basic && leaf(0x8000_0000, 0).eax >= 0x8000_0001;
            let saves = basic && leaf(1, 0).ecx & (1u32 << 26) != 0 && leaf(1, 0).ecx & (1u32 << 27)
                != 0;
            &&& r.max_leaf == leaf(0, 0).eax
            &&& r.info_ecx == (if basic { leaf(1, 0).ecx } else { 0 })
            &&& r.info_edx == (if basic { leaf(1, 0).edx } else { 0 })
            &&& r.ext_ebx == (if seven { leaf(7, 0).ebx } else { 0 })
            &&& r.ext_ecx == (if seven { leaf(7, 0).ecx } else { 0 })
            &&& r.ext_eax_1 == (if seven { leaf(7, 1).eax } else { 0 })
            &&& r.max_ext_leaf == (if basic { leaf(0x8000_0000, 0).eax } else { 0 })
            &&& r.ext_info_ecx == (if extended { leaf(0x8000_0001, 0).ecx } else { 0 })
            &&& r.xcr0 == (if saves { cpu.xcr0 } else { 0 })
        }),
{
    reveal_with_fuel(read_times, 8);
}

/// `XCR0` is read only where the operating system says that it saves registers, which is exactly
/// where reading it is defined.
pub proof fn xcr0_is_read_only_where_it_may_be(p: Probe, leaf: Leaf)
    requires
        !(p.next is Xcr0),
        p.after_leaf(leaf).next is Xcr0,
    ensures
        p.after_leaf(leaf).readings.saves_of(),
{
}

/// AVX and everything above it is reported only when the operating system saves the wide
/// registers, and AVX-512 only when it saves its registers too and FMA is there.
pub proof fn wide_features_need_the_operating_system(r: Readings)
    ensures
        ({
            let f = r.features_of();
            &&& f.avx || f.avx2 || f.fma || f.avx_vnni ==> r.wide_registers_of()
            &&& f.avx512f || f.avx512dq || f.avx512vl || f.avx512vbmi || f.avx512vnni
                || f.avx512bitalg ==> r.wide_registers_of() && r.xcr0 & 0xe0 == 0xe0 && f.fma
        }),
{
}

/// Each feature is its own bit of the word that the manual gives it: present where that bit is set
/// and, for the wide ones, the operating system saves their registers, and never otherwise.
pub proof fn each_feature_is_its_bit(r: Readings)
    ensures
        ({
            let f = r.features_of();
            let wide = r.info_ecx & (1u32 << 26) != 0 && r.info_ecx & (1u32 << 27) != 0 && r.xcr0
                & 0x6 == 0x6;
            let widest = r.xcr0 & 0xe0 == 0xe0 && r.info_ecx & (1u32 << 29) != 0 && r.info_ecx & (
            1u32 << 12) != 0;
            &&& f.sse2 == (r.info_edx & (1u32 << 26) != 0)
            &&& f.cmpxchg16b == (r.info_ecx & (1u32 << 13) != 0)
            &&& f.sse3 == (r.info_ecx & (1u32 << 0) != 0)
            &&& f.ssse3 == (r.info_ecx & (1u32 << 9) != 0)
            &&& f.sse41 == (r.info_ecx & (1u32 << 19) != 0)
            &&& f.sse42 == (r.info_ecx & (1u32 << 20) != 0)
            &&& f.popcnt == (r.info_ecx & (1u32 << 23) != 0)
            &&& f.avx == (wide && r.info_ecx & (1u32 << 28) != 0)
            &&& f.avx2 == (wide && r.ext_ebx & (1u32 << 5) != 0)
            &&& f.fma == (wide && r.info_ecx & (1u32 << 12) != 0)
            &&& f.avx_vnni == (wide && r.ext_eax_1 & (1u32 << 4) != 0)
            &&& f.avx512vnni == (wide && widest && r.ext_ecx & (1u32 << 11) != 0)
            &&& f.bmi1 == (r.ext_ebx & (1u32 << 3) != 0)
            &&& f.bmi2 == (r.ext_ebx & (1u32 << 8) != 0)
            &&& f.avx512bitalg == (wide && widest && r.ext_ecx & (1u32 << 12) != 0)
            &&& f.avx512dq == (wide && widest && r.ext_ebx & (1u32 << 17) != 0)
            &&& f.avx512f == (wide && widest && r.ext_ebx & (1u32 << 16) != 0)
            &&& f.avx512vl == (wide && widest && r.ext_ebx & (1u32 << 31) != 0)
            &&& f.avx512vbmi == (wide && widest && r.ext_ecx & (1u32 << 1) != 0)
            &&& f.lzcnt == (r.ext_info_ecx & (1u32 << 5) != 0)
        }),
{
}

/// A processor that cannot be read has no feature at all.
pub proof fn an_unread_processor_has_nothing()
    ensures
        ({
            let f = nothing_read().features_of();
            &&& !f.sse2 && !f.cmpxchg16b && !f.sse3 && !f.ssse3 && !f.sse41 && !f.sse42
            &&& !f.popcnt && !f.bmi1 && !f.bmi2 && !f.lzcnt
            &&& !f.avx && !f.avx2 && !f.fma && !f.avx_vnni && !f.avx512f && !f.avx512vnni
            &&& !f.avx512bitalg && !f.avx512dq && !f.avx512vl && !f.avx512vbmi
        }),
{
    assert forall|n: u32| !bit_of(0, n) by {
        assert(0u32 & (1u32 << n) == 0) by (bit_vector);
    }
}


/// Once everything has been read, nothing that comes changes the readings.
pub proof fn the_end_is_the_end(p: Probe, leaf: Leaf, xcr0: u64)
    ensures
        p.next is Done ==> p.after_leaf(leaf) == p && p.after_xcr0(xcr0) == p,
        p.next is Xcr0 ==> p.after_leaf(leaf) == p && p.after_xcr0(xcr0).next is Done,
        p.next is Cpuid ==> p.after_xcr0(xcr0) == p,
{
}

} // verus!
