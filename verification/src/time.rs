//! Durations and the wall clock.

use vstd::prelude::*;

use crate::text::push_decimal_wide;

verus! {

/// How many nanoseconds a second has.
pub const NANOS_PER_SEC: u32 = 1_000_000_000;

/// A span of time.
#[derive(Debug, Clone, Copy, PartialEq, Eq, Structural)]
pub struct Duration {
    pub secs: u64,
    /// Nanoseconds past the whole seconds.
    pub nanos: u32,
}

impl Duration {
    /// The nanoseconds stay below a second.
    pub open spec fn wf(self) -> bool {
        self.nanos < NANOS_PER_SEC
    }

    /// The span in whole milliseconds.
    pub open spec fn millis(self) -> nat {
        (self.secs * 1000 + self.nanos / 1_000_000) as nat
    }

    pub fn from_secs(secs: u64) -> (res: Self)
        ensures
            res == (Duration { secs, nanos: 0 }),
    {
        Duration { secs, nanos: 0 }
    }

    /// The span of this many milliseconds.
    pub open spec fn of_millis(millis: u64) -> Duration {
        Duration { secs: millis / 1000, nanos: (millis % 1000 * 1_000_000) as u32 }
    }

    pub fn from_millis(millis: u64) -> (res: Self)
        ensures
            res == Duration::of_millis(millis),
            res.wf(),
            res.millis() == millis,
    {
        Duration { secs: millis / 1000, nanos: (millis % 1000) as u32 * 1_000_000 }
    }

    pub fn from_nanos(nanos: u64) -> (res: Self)
        ensures
            res.wf(),
            res.secs * NANOS_PER_SEC + res.nanos == nanos,
    {
        Duration { secs: nanos / 1_000_000_000, nanos: (nanos % 1_000_000_000) as u32 }
    }

    /// The span in whole milliseconds.
    pub fn as_millis(&self) -> (res: u128)
        ensures
            res == self.millis(),
    {
        self.secs as u128 * 1000 + (self.nanos / 1_000_000) as u128
    }

    /// The low 64 bits of the span in whole milliseconds.
    pub fn as_millis_u64(&self) -> (res: u64)
        ensures
            res == self.millis() % 0x1_0000_0000_0000_0000,
    {
        (self.as_millis() % 0x1_0000_0000_0000_0000) as u64
    }

    pub fn is_zero(&self) -> (res: bool)
        ensures
            res == (self.secs == 0 && self.nanos == 0),
    {
        self.secs == 0 && self.nanos == 0
    }
}

/// `SystemTime::elapsed` on the Unix epoch reads the wall clock: the time
/// since then, or an error where the clock stands before it. The reading is
/// the machine's, so only the form of the result is stated.
#[verifier::external_body]
fn since_epoch() -> (res: Option<Duration>)
    ensures
        res matches Some(d) ==> d.wf(),
{
    let elapsed = std::time::UNIX_EPOCH.elapsed().ok();
    elapsed.map(|d| Duration { secs: d.as_secs(), nanos: d.subsec_nanos() })
}

/// Milliseconds since the Unix epoch for a clock reading, as an unsigned
/// 64-bit count; zero for a clock before the epoch.
pub open spec fn unix_millis_of(reading: Option<Duration>) -> nat {
    match reading {
        Some(d) => d.millis() % 0x1_0000_0000_0000_0000,
        None => 0,
    }
}

/// Unix time in whole milliseconds for a clock reading.
pub fn unix_ms_at(reading: Option<Duration>) -> (res: u64)
    ensures
        res == unix_millis_of(reading),
{
    match reading {
        Some(d) => d.as_millis_u64(),
        None => 0,
    }
}

/// Current Unix time in whole milliseconds, for `observed_at` stamps: that of
/// some clock reading.
pub fn unix_ms_now() -> (res: u64)
    ensures
        exists|reading: Option<Duration>| res == #[trigger] unix_millis_of(reading),
{
    unix_ms_at(since_epoch())
}

/// Current Unix time in whole milliseconds, for candidate lifetimes and frame
/// stamps: that of some clock reading.
pub fn unix_millis() -> (res: u64)
    ensures
        exists|reading: Option<Duration>| res == #[trigger] unix_millis_of(reading),
{
    unix_ms_at(since_epoch())
}

/// What tells the runs of one experiment apart: the milliseconds since the
/// Unix epoch in decimal, zero for a clock before the epoch.
pub open spec fn suffix_of(reading: Option<Duration>) -> Seq<char> {
    match reading {
        Some(d) => crate::text::decimal(d.millis()),
        None => crate::text::decimal(0),
    }
}

/// The run suffix for a clock reading.
pub fn run_suffix_at(reading: Option<Duration>) -> (res: String)
    ensures
        res@ == suffix_of(reading),
{
    let mut out = String::new();
    match reading {
        Some(d) => push_decimal_wide(&mut out, d.as_millis()),
        None => push_decimal_wide(&mut out, 0),
    }
    assert(out@ =~= suffix_of(reading));
    out
}

/// The run suffix for the current time: that of some clock reading.
pub fn run_suffix() -> (res: String)
    ensures
        exists|reading: Option<Duration>| res@ == #[trigger] suffix_of(reading),
{
    run_suffix_at(since_epoch())
}

/// A point in time as the wall clock shows it.
#[derive(Debug, Clone, Copy, PartialEq, Eq, Structural)]
pub enum Timestamp {
    /// Some time before the Unix epoch.
    BeforeEpoch,
    /// This long after the Unix epoch.
    SinceEpoch(Duration),
}

impl Timestamp {
    /// The nanoseconds stay below a second.
    pub open spec fn wf(self) -> bool {
        self matches Timestamp::SinceEpoch(d) ==> d.wf()
    }

    /// What the wall clock shows.
    pub fn now() -> (res: Self)
        ensures
            res.wf(),
    {
        Timestamp::of_reading(since_epoch())
    }

    /// The point in time of a clock reading.
    pub fn of_reading(reading: Option<Duration>) -> (res: Self)
        ensures
            match reading {
                Some(d) => res == Timestamp::SinceEpoch(d),
                None => res == Timestamp::BeforeEpoch,
            },
    {
        match reading {
            Some(d) => Timestamp::SinceEpoch(d),
            None => Timestamp::BeforeEpoch,
        }
    }
}

// ---------------------------------------------------------------------------
// Laws
// ---------------------------------------------------------------------------

/// Whole milliseconds are what fits in a span, and a span made of milliseconds
/// is exactly that long.
pub proof fn law_milliseconds(d: Duration, millis: u64)
    requires
        d.nanos < 1_000_000_000,
    ensures
        d.millis() * 1_000_000 <= d.secs * 1_000_000_000 + d.nanos < (d.millis() + 1) * 1_000_000,
        Duration::of_millis(millis).secs * 1_000_000_000 + Duration::of_millis(millis).nanos
            == millis * 1_000_000,
        Duration::of_millis(millis).nanos < 1_000_000_000,
        d.wf() <==> d.nanos < 1_000_000_000,
{
}

/// A clock reading counts for its whole milliseconds, as a number and as text;
/// a clock before the Unix epoch counts for zero.
pub proof fn law_clock_readings(d: Duration)
    requires
        d.nanos < 1_000_000_000,
        d.secs < 0x20_0000_0000_0000,
    ensures
        unix_millis_of(Some(d)) == d.secs * 1000 + d.nanos / 1_000_000,
        unix_millis_of(None) == 0,
        suffix_of(Some(d)) == crate::text::decimal((d.secs * 1000 + d.nanos / 1_000_000) as nat),
        suffix_of(None) == crate::text::decimal(0),
{
}

/// Whole milliseconds that do not fit 64 bits count for what is left of them
/// after taking off 2^64 as often as it goes.
pub proof fn law_milliseconds_wrap(d: Duration, times: nat, rest: nat)
    requires
        d.millis() == times * 18446744073709551616 + rest,
        rest <= u64::MAX,
    ensures
        unix_millis_of(Some(d)) == rest,
{
}

} // verus!
