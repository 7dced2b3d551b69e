//! Instants and lengths of time, in nanoseconds.
use vstd::prelude::*;

verus! {

/// An instant, in nanoseconds since the start of 1970.
#[derive(Debug, Clone, Copy, PartialEq, Eq, Structural)]
pub struct Timestamp {
    pub nanos: i128,
}

/// A length of time, in nanoseconds.
#[derive(Debug, Clone, Copy, PartialEq, Eq, Structural)]
pub struct Delay {
    pub nanos: u128,
}

/// The instant that lies `seconds` and `nanos` after the start of 1970.
pub fn timestamp(seconds: i64, nanos: u32) -> (at: Timestamp)
    ensures
        at.nanos == seconds * 1_000_000_000 + nanos,
{
    Timestamp { nanos: (seconds as i128) * 1_000_000_000 + (nanos as i128) }
}

/// An instant that is far from the ends of what the type holds.
pub open spec fn in_calendar(at: Timestamp) -> bool {
    -9_000_000_000_000_000_000_000 <= at.nanos <= 9_000_000_000_000_000_000_000
}

/// `chrono::Utc::now`: whole seconds and the nanoseconds beyond them. What the clock says is
/// open, but that a `DateTime<Utc>` lies between `MIN_UTC` and `MAX_UTC`, some quarter of a
/// million years to either side of the year 0.
#[verifier::external_body]
fn clock_reading() -> (reading: (i64, u32))
    ensures
        -8_400_000_000_000 <= reading.0 <= 8_400_000_000_000,
{
    let now = chrono::Utc::now();
    (now.timestamp(), now.timestamp_subsec_nanos())
}

/// The present instant.
pub fn utc_now() -> (now: Timestamp)
    ensures
        in_calendar(now),
{
    let (seconds, nanos): (i64, u32) = clock_reading();
    timestamp(seconds, nanos)
}

impl Delay {
    /// Whole seconds.
    pub fn from_secs(seconds: u64) -> (delay: Delay)
        ensures
            delay.nanos == seconds * 1_000_000_000,
    {
        Delay { nanos: (seconds as u128) * 1_000_000_000 }
    }

    /// The whole seconds in it.
    pub fn as_secs(&self) -> (seconds: u128)
        ensures
            seconds == self.nanos as int / 1_000_000_000int,
    {
        self.nanos / 1_000_000_000
    }
}

/// The whole seconds of an instant since the start of 1970.
pub fn whole_seconds(at: Timestamp) -> (seconds: i128)
    requires
        in_calendar(at),
    ensures
        seconds == at.nanos as int / 1_000_000_000int,
{
    if at.nanos >= 0 {
        ((at.nanos as u128) / 1_000_000_000) as i128
    } else {
        let back: u128 = (-at.nanos) as u128;
        -(((back + 999_999_999) / 1_000_000_000) as i128)
    }
}

/// The microseconds of an instant since the start of 1970.
pub fn whole_micros(at: Timestamp) -> (micros: i64)
    requires
        in_calendar(at),
    ensures
        micros == at.nanos as int / 1_000int,
{
    if at.nanos >= 0 {
        ((at.nanos as u128) / 1_000) as i64
    } else {
        let back: u128 = (-at.nanos) as u128;
        -(((back + 999) / 1_000) as i64)
    }
}

/// What `std` writes for a length of time in seconds: `Duration::as_secs_f64`, displayed.
pub uninterp spec fn seconds_text(seconds: u64, nanos: u32) -> Seq<char>;

/// `std::time::Duration::as_secs_f64`, displayed: a text that depends on the length of time alone.
#[verifier::external_body]
fn displayed_seconds(seconds: u64, nanos: u32) -> (text: String)
    requires
        nanos < 1_000_000_000,
    ensures
        text@ == seconds_text(seconds, nanos),
{
    std::time::Duration::new(seconds, nanos).as_secs_f64().to_string()
}

/// A length of time that `std` can hold.
pub open spec fn in_range(delay: Delay) -> bool {
    delay.nanos as int / 1_000_000_000int <= u64::MAX
}

/// A length of time in seconds, as text.
pub open spec fn delay_text(delay: Delay) -> Seq<char> {
    seconds_text(
        (delay.nanos as int / 1_000_000_000int) as u64,
        (delay.nanos as int % 1_000_000_000int) as u32,
    )
}

/// A length of time in seconds, as text.
pub fn render_seconds(delay: Delay) -> (text: String)
    requires
        in_range(delay),
    ensures
        text@ == delay_text(delay),
{
    let seconds: u64 = (delay.nanos / 1_000_000_000) as u64;
    let nanos: u32 = (delay.nanos % 1_000_000_000) as u32;
    displayed_seconds(seconds, nanos)
}

}
