//! RFC 3339 timestamps.

use vstd::prelude::*;

use crate::time::{Duration, Timestamp};

verus! {

/// The first second after the year 9999, counted from the Unix epoch.
pub const YEAR_10000: u64 = 253_402_300_800;

/// Why a text is not an RFC 3339 timestamp.
#[derive(Debug, Clone, Copy, PartialEq, Eq, Structural)]
pub enum TimestampError {
    OutOfRange,
    InvalidDigit,
    InvalidFormat,
}

impl TimestampError {
    /// The diagnostic.
    pub open spec fn text(self) -> Seq<char> {
        match self {
            TimestampError::OutOfRange => "numeric component is out of range"@,
            TimestampError::InvalidDigit => "bad character where digit is expected"@,
            TimestampError::InvalidFormat => "timestamp format is invalid"@,
        }
    }

    pub fn to_string(&self) -> (res: String)
        ensures
            res@ == self.text(),
    {
        match self {
            TimestampError::OutOfRange => "numeric component is out of range".to_owned(),
            TimestampError::InvalidDigit => "bad character where digit is expected".to_owned(),
            TimestampError::InvalidFormat => "timestamp format is invalid".to_owned(),
        }
    }
}

/// The RFC 3339 text, to the second, of a time so many seconds after the
/// Unix epoch.
pub uninterp spec fn rfc3339_text(secs: u64) -> Seq<char>;

/// The seconds and nanoseconds after the Unix epoch that a text stands for
/// as an RFC 3339 timestamp, up to the year 9999, or why it is none.
pub uninterp spec fn rfc3339_instant(text: Seq<char>) -> Result<(u64, u32), TimestampError>;

/// The start of a second, as a reading.
pub open spec fn whole_second(secs: u64) -> Result<(u64, u32), TimestampError> {
    Ok((secs, 0u32))
}

/// `humantime::format_rfc3339_seconds` prints a time up to the year 9999 to
/// the second, in UTC; `humantime::parse_rfc3339` reads what it printed as
/// the same second. How the text looks is left unsaid.
#[verifier::external_body]
fn format_rfc3339_seconds(d: Duration) -> (res: String)
    requires
        d.wf(),
        d.secs < YEAR_10000,
    ensures
        res@ == rfc3339_text(d.secs),
        rfc3339_instant(res@) == whole_second(d.secs),
{
    let since = std::time::Duration::new(d.secs, d.nanos);
    humantime::format_rfc3339_seconds(std::time::UNIX_EPOCH + since).to_string()
}

/// Whether a reading lies past January 2038, where seconds no longer fit 31
/// bits.
pub open spec fn past_2038(reading: Result<(u64, u32), TimestampError>) -> bool {
    reading matches Ok((secs, _)) && secs > 0x7fff_ffff
}

/// Whether this machine reads such a timestamp: where pointers have 32 bits
/// the platform's clock may end in January 2038.
pub open spec fn in_reach(reading: Result<(u64, u32), TimestampError>) -> bool {
    usize::BITS == 64 || !past_2038(reading)
}

/// `humantime::parse_rfc3339` reads a timestamp in UTC, not before the Unix
/// epoch and not after the year 9999. Which second a text stands for, or why
/// it is no timestamp, depends on the text alone and is named, not spelled
/// out. Of a fraction the platform's clock keeps as much as its precision
/// allows, so only whole seconds are exact. Where pointers have 32 bits some
/// platforms refuse what lies past January 2038, so nothing is claimed of
/// such a text there.
#[verifier::external_body]
fn parse_rfc3339(s: &str) -> (res: Result<Duration, TimestampError>)
    ensures
        res matches Ok(d) ==> d.wf() && d.secs < YEAR_10000,
        in_reach(rfc3339_instant(s@)) ==> match res {
            Ok(d) => rfc3339_instant(s@) matches Ok((secs, nanos)) && d.secs == secs && d.nanos
                <= nanos,
            Err(e) => rfc3339_instant(s@) == Err::<(u64, u32), TimestampError>(e),
        },
{
    match humantime::parse_rfc3339(s) {
        Ok(t) => {
            let d = t.duration_since(std::time::UNIX_EPOCH).unwrap_or_default();
            Ok(Duration { secs: d.as_secs(), nanos: d.subsec_nanos() })
        },
        Err(humantime::TimestampError::OutOfRange) => Err(TimestampError::OutOfRange),
        Err(humantime::TimestampError::InvalidDigit) => Err(TimestampError::InvalidDigit),
        Err(humantime::TimestampError::InvalidFormat) => Err(TimestampError::InvalidFormat),
    }
}

/// The point in time that a text stands for, or why it is none.
pub open spec fn timestamp_of(text: Seq<char>) -> Result<Timestamp, TimestampError> {
    match rfc3339_instant(text) {
        Ok((secs, nanos)) => Ok(Timestamp::SinceEpoch(Duration { secs, nanos })),
        Err(e) => Err(e),
    }
}

/// The diagnostic for a timestamp that RFC 3339 cannot express.
pub open spec fn before_epoch_text() -> Seq<char> {
    "timestamp before unix epoch cannot be formatted as RFC 3339"@
}

/// Whether a text is the RFC 3339 text of a timestamp: it prints the second,
/// and reads as the start of it.
pub open spec fn written(t: Timestamp, text: Seq<char>) -> bool {
    t matches Timestamp::SinceEpoch(d) && text == rfc3339_text(d.secs) && timestamp_of(text) == Ok::<
        Timestamp,
        TimestampError,
    >(Timestamp::SinceEpoch(Duration { secs: d.secs, nanos: 0 }))
}

/// Whether this is what reading a text gives: the second that it stands for,
/// with as much of the fraction as the platform's clock keeps, or why it is no
/// timestamp.
pub open spec fn read(text: Seq<char>, res: Result<Timestamp, TimestampError>) -> bool {
    &&& in_reach(rfc3339_instant(text)) ==> match rfc3339_instant(text) {
        Ok((secs, nanos)) => res matches Ok(Timestamp::SinceEpoch(d)) && d.secs == secs && d.nanos
            <= nanos,
        Err(e) => res == Err::<Timestamp, TimestampError>(e),
    }
    &&& res matches Ok(t) ==> t.wf() && (t matches Timestamp::SinceEpoch(d) && d.secs < YEAR_10000)
}

/// Write a timestamp as RFC 3339 text, to the second. A time before the Unix
/// epoch is refused. What was written reads back as the same second.
pub fn serialize(t: &Timestamp) -> (res: Result<String, String>)
    requires
        t.wf(),
        t matches Timestamp::SinceEpoch(d) ==> d.secs < YEAR_10000,
    ensures
        match res {
            Ok(s) => *t is SinceEpoch && written(*t, s@),
            Err(e) => *t is BeforeEpoch && e@ == before_epoch_text(),
        },
{
    match t {
        Timestamp::BeforeEpoch => Err(
            "timestamp before unix epoch cannot be formatted as RFC 3339".to_owned(),
        ),
        Timestamp::SinceEpoch(d) => Ok(format_rfc3339_seconds(*d)),
    }
}

/// Read a timestamp from RFC 3339 text. Whole seconds are exact; a fraction is
/// cut down to what the platform's clock can tell apart.
pub fn deserialize(s: &str) -> (res: Result<Timestamp, TimestampError>)
    ensures
        read(s@, res),
{
    match parse_rfc3339(s) {
        Ok(d) => Ok(Timestamp::SinceEpoch(d)),
        Err(e) => Err(e),
    }
}

// ---------------------------------------------------------------------------
// Laws
// ---------------------------------------------------------------------------

/// What was written reads back as the same time cut down to the second, and
/// writing that gives the same text again. Where pointers have 32 bits this
/// is stated up to January 2038.
pub proof fn law_timestamp_roundtrip(
    d: Duration,
    text: Seq<char>,
    back: Result<Timestamp, TimestampError>,
    again: Seq<char>,
)
    requires
        written(Timestamp::SinceEpoch(d), text),
        read(text, back),
        usize::BITS == 64 || d.secs <= 0x7fff_ffff,
        back matches Ok(t) ==> written(t, again),
    ensures
        back == Ok::<Timestamp, TimestampError>(
            Timestamp::SinceEpoch(Duration { secs: d.secs, nanos: 0 }),
        ),
        again == text,
{
}

/// A text that is a timestamp reads as its second, with no more of a fraction
/// than it spells; a text that is none is refused with the reason. Where
/// pointers have 32 bits this is stated up to January 2038.
pub proof fn law_reading(text: Seq<char>, res: Result<Timestamp, TimestampError>)
    requires
        read(text, res),
        usize::BITS == 64 || !(rfc3339_instant(text) matches Ok((secs, _)) && secs > 0x7fff_ffff),
    ensures
        rfc3339_instant(text) matches Ok((secs, nanos)) ==> (res matches Ok(
            Timestamp::SinceEpoch(d),
        ) && d.secs == secs && d.nanos <= nanos),
        rfc3339_instant(text) matches Err(e) ==> res == Err::<Timestamp, TimestampError>(e),
        YEAR_10000 == 253_402_300_800,
{
}

/// Two times within one second are written alike, and times that are written
/// alike lie within one second.
pub proof fn law_written_to_the_second(a: Duration, b: Duration, x: Seq<char>, y: Seq<char>)
    requires
        written(Timestamp::SinceEpoch(a), x),
        written(Timestamp::SinceEpoch(b), y),
    ensures
        x == y <==> a.secs == b.secs,
{
}

} // verus!
