//! Clock readings.
//!
//! Taking a reading is a system call; what two readings mean together is arithmetic.

use vstd::prelude::*;

verus! {

/// Nanoseconds in a second.
pub const NANOS_PER_SEC: u128 = 1_000_000_000;

/// What the kernel's clocks are read into and its sleeps are asked in.
#[derive(Debug, Clone, Copy, PartialEq, Eq, Structural)]
pub struct Timespec {
    pub secs: i64,
    pub nanos: i64,
}

/// A span of time.
#[derive(Debug, Clone, Copy, PartialEq, Eq, Structural)]
pub struct Duration {
    secs: u64,
    nanos: u32,
}

impl View for Duration {
    /// The span in nanoseconds.
    type V = int;

    closed spec fn view(&self) -> int {
        self.secs * 1_000_000_000 + self.nanos
    }
}

impl Duration {
    /// Less than a second is kept apart from the whole seconds.
    #[verifier::type_invariant]
    spec fn well_formed(self) -> bool {
        self.nanos < 1_000_000_000
    }

    /// A span of whole seconds and nanoseconds, of which whole seconds are carried over.
    pub fn new(secs: u64, nanos: u32) -> (r: Duration)
        requires
            secs + nanos / 1_000_000_000 <= u64::MAX,
        ensures
            r@ == secs * 1_000_000_000 + nanos,
    {
        let carried: u64 = (nanos / 1_000_000_000) as u64;
        Duration { secs: secs + carried, nanos: nanos % 1_000_000_000 }
    }

    /// The whole seconds.
    pub fn as_secs(&self) -> (r: u64)
        ensures
            r == self@ / 1_000_000_000,
    {
        proof {
            use_type_invariant(self);
        }
        self.secs
    }

    /// The nanoseconds beyond the whole seconds.
    pub fn subsec_nanos(&self) -> (r: u32)
        ensures
            r == self@ % 1_000_000_000,
    {
        proof {
            use_type_invariant(self);
        }
        self.nanos
    }

    /// The whole milliseconds.
    pub fn as_millis(&self) -> (r: u128)
        ensures
            r == self@ / 1_000_000,
    {
        proof {
            use_type_invariant(self);
        }
        self.secs as u128 * 1000 + (self.nanos / 1_000_000) as u128
    }

    /// Whether no time passes in it.
    pub fn is_zero(&self) -> (r: bool)
        ensures
            r == (self@ == 0),
    {
        self.secs == 0 && self.nanos == 0
    }
}

/// The time between two readings, in nanoseconds, and none when they are in the wrong order.
pub open spec fn span(later: int, earlier: int) -> int {
    if later >= earlier {
        later - earlier
    } else {
        0
    }
}

/// A point on the monotonic clock.
///
/// Monotonic, so it does not move when the system clock is adjusted.
#[derive(Copy, Clone, PartialEq, Eq, PartialOrd, Ord, Debug)]
pub struct Instant {
    nanos: u128,
}

impl View for Instant {
    /// Nanoseconds since the clock started.
    type V = int;

    closed spec fn view(&self) -> int {
        self.nanos as int
    }
}

impl Instant {
    /// A reading counts whole seconds in 64 bits.
    #[verifier::type_invariant]
    spec fn well_formed(self) -> bool {
        self.nanos < 0x1_0000_0000_0000_0000 * 1_000_000_000
    }

    /// The point that a clock reading names.
    pub fn now(reading: Timespec) -> (r: Instant)
        requires
            0 <= reading.secs,
            0 <= reading.nanos,
        ensures
            r@ == reading.secs * 1_000_000_000 + reading.nanos,
    {
        Instant { nanos: (reading.secs as u128) * NANOS_PER_SEC + (reading.nanos as u128) }
    }

    /// Time since an earlier reading.
    ///
    /// Saturates at zero: comparing two readings in the wrong order is a bug worth a wrong number
    /// rather than a killed process.
    pub fn duration_since(&self, earlier: Instant) -> (r: Duration)
        ensures
            r@ == span(self@, earlier@),
            self@ >= earlier@ ==> r@ == self@ - earlier@,
            self@ < earlier@ ==> r@ == 0,
    {
        proof {
            use_type_invariant(self);
        }
        let d: u128 = if self.nanos >= earlier.nanos {
            self.nanos - earlier.nanos
        } else {
            0
        };
        let secs: u128 = d / NANOS_PER_SEC;
        let nanos: u128 = d % NANOS_PER_SEC;
        Duration { secs: secs as u64, nanos: nanos as u32 }
    }

    /// Time from this reading to a later one.
    pub fn elapsed(&self, now: Instant) -> (r: Duration)
        ensures
            r@ == span(now@, self@),
            now@ >= self@ ==> r@ == now@ - self@,
            now@ < self@ ==> r@ == 0,
    {
        now.duration_since(*self)
    }
}

impl core::ops::Sub for Instant {
    type Output = Duration;

    fn sub(self, earlier: Instant) -> (r: Duration)
        ensures
            r@ == span(self@, earlier@),
            self@ >= earlier@ ==> r@ == self@ - earlier@,
            self@ < earlier@ ==> r@ == 0,
    {
        self.duration_since(earlier)
    }
}

impl vstd::std_specs::ops::SubSpecImpl for Instant {
    open spec fn obeys_sub_spec() -> bool {
        false
    }

    open spec fn sub_req(self, earlier: Instant) -> bool {
        true
    }

    open spec fn sub_spec(self, earlier: Instant) -> Duration {
        arbitrary()
    }
}

/// Seconds since the Unix epoch, from a reading of the wall clock.
///
/// Not an `Instant`: the wall clock moves when the system clock is adjusted, and the two must not
/// be confused.
pub fn epoch_secs(reading: Timespec) -> (r: i64)
    ensures
        r == reading.secs,
{
    reading.secs
}

/// Spans between readings in order add up.
pub proof fn spans_add_up(first: int, middle: int, last: int)
    requires
        first <= middle <= last,
    ensures
        span(last, middle) + span(middle, first) == span(last, first),
{
}

/// Readings in the wrong order are no time apart, and only equal readings are so both ways.
pub proof fn spans_saturate(a: int, b: int)
    ensures
        span(a, b) >= 0,
        a <= b ==> span(a, b) == 0,
        span(a, b) == 0 && span(b, a) == 0 ==> a == b,
{
}


/// The time between two readings in order is their difference: added to the earlier one it gives
/// the later one.
pub proof fn a_span_leads_from_one_to_the_other(earlier: int, later: int)
    requires
        earlier <= later,
    ensures
        earlier + span(later, earlier) == later,
{
}

} // verus!
