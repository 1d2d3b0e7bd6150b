//! Spans of time and points in time as plain numbers, and the clock text
//! that renderers put in front of messages.
use vstd::prelude::*;
use vstd::string::StrSliceExecFns;

verus! {

/// The number of nanoseconds in a second.
pub const NANOS_PER_SEC: u32 = 1_000_000_000;

/// The first second that no longer has a four-digit year.
pub const END_OF_YEAR_9999: u64 = 253_402_300_800;

/// The number of characters in a time of day, as in `00:51:45`.
pub const DATE_TIME_HMS: usize = 8;

/// The number of characters in front of the time of day, as in `2020-02-13T`.
pub const DATE_TIME_YMD: usize = 11;

/// A span of time: whole seconds and the nanoseconds of the last, unfinished
/// second.
#[derive(Copy, Clone, Hash, PartialEq, Eq, Structural, PartialOrd, Ord, Debug)]
pub struct Duration {
    secs: u64,
    nanos: u32,
}

/// A point in time, as the span that has passed since the Unix epoch.
#[derive(Copy, Clone, Hash, PartialEq, Eq, Structural, PartialOrd, Ord, Debug)]
pub struct Time {
    since_epoch: Duration,
}

impl View for Duration {
    type V = nat;

    /// The span in nanoseconds.
    closed spec fn view(&self) -> nat {
        (self.secs * NANOS_PER_SEC + self.nanos) as nat
    }
}

impl Default for Duration {
    fn default() -> (r: Self)
        ensures
            r@ == 0,
    {
        Duration { secs: 0, nanos: 0 }
    }
}

impl Duration {
    #[verifier::type_invariant]
    closed spec fn subsecond(self) -> bool {
        self.nanos < NANOS_PER_SEC
    }

    /// The longest span that can be held, in nanoseconds.
    pub open spec fn max_nanos() -> nat {
        (u64::MAX as nat) * (NANOS_PER_SEC as nat) + (NANOS_PER_SEC as nat - 1) as nat
    }

    /// The span of `secs` whole seconds.
    pub closed spec fn of_secs(secs: u64) -> Duration {
        Duration { secs, nanos: 0 }
    }

    /// A span of `secs` whole seconds.
    pub fn from_secs(secs: u64) -> (r: Duration)
        ensures
            r == Duration::of_secs(secs),
            r@ == secs * NANOS_PER_SEC,
    {
        Duration { secs, nanos: 0 }
    }

    /// A span of `millis` milliseconds.
    pub fn from_millis(millis: u64) -> (r: Duration)
        ensures
            r@ == millis * 1_000_000,
    {
        let secs = millis / 1000;
        let rest = (millis % 1000) as u32;
        Duration { secs, nanos: rest * 1_000_000 }
    }

    /// A span of `secs` seconds and `nanos` nanoseconds, where whole seconds
    /// among the nanoseconds carry over. `None` if the sum cannot be held.
    pub fn new(secs: u64, nanos: u32) -> (r: Option<Duration>)
        ensures
            secs * NANOS_PER_SEC + nanos <= Duration::max_nanos() ==> r.is_some() && r.unwrap()@
                == secs * NANOS_PER_SEC + nanos,
            secs * NANOS_PER_SEC + nanos > Duration::max_nanos() ==> r.is_none(),
    {
        let carry = (nanos / NANOS_PER_SEC) as u64;
        let rest = nanos % NANOS_PER_SEC;
        if secs > u64::MAX - carry {
            None
        } else {
            Some(Duration { secs: secs + carry, nanos: rest })
        }
    }

    /// The whole seconds of the span.
    pub fn as_secs(&self) -> (r: u64)
        ensures
            r == self@ / (NANOS_PER_SEC as nat),
    {
        proof {
            use_type_invariant(self);
        }
        self.secs
    }

    /// The nanoseconds past the last whole second.
    pub fn subsec_nanos(&self) -> (r: u32)
        ensures
            r == self@ % (NANOS_PER_SEC as nat),
            r < NANOS_PER_SEC,
    {
        proof {
            use_type_invariant(self);
        }
        self.nanos
    }

    /// The whole milliseconds of the span.
    pub fn as_millis(&self) -> (r: u128)
        ensures
            r == self@ / 1_000_000,
    {
        proof {
            use_type_invariant(self);
        }
        let secs: u128 = self.secs as u128;
        let nanos: u128 = self.nanos as u128;
        secs * 1000 + nanos / 1_000_000
    }

    /// The span in nanoseconds.
    pub fn as_nanos(&self) -> (r: u128)
        ensures
            r == self@,
            r <= Duration::max_nanos(),
    {
        proof {
            use_type_invariant(self);
        }
        let secs: u128 = self.secs as u128;
        let nanos: u128 = self.nanos as u128;
        secs * 1_000_000_000 + nanos
    }

    /// True if the span has no length.
    pub fn is_zero(&self) -> (r: bool)
        ensures
            r == (self@ == 0),
    {
        proof {
            use_type_invariant(self);
        }
        self.secs == 0 && self.nanos == 0
    }

    /// True if `self` is shorter than `other`.
    pub fn shorter_than(&self, other: &Duration) -> (r: bool)
        ensures
            r == (self@ < other@),
    {
        proof {
            use_type_invariant(self);
            use_type_invariant(other);
        }
        self.secs < other.secs || (self.secs == other.secs && self.nanos < other.nanos)
    }

    /// The sum of both spans, or `None` if it cannot be held.
    pub fn checked_add(&self, other: &Duration) -> (r: Option<Duration>)
        ensures
            self@ + other@ <= Duration::max_nanos() ==> r.is_some() && r.unwrap()@ == self@
                + other@,
            self@ + other@ > Duration::max_nanos() ==> r.is_none(),
    {
        proof {
            use_type_invariant(self);
            use_type_invariant(other);
        }
        let mut nanos: u32 = self.nanos + other.nanos;
        let mut carry: u64 = 0;
        if nanos >= NANOS_PER_SEC {
            nanos = nanos - NANOS_PER_SEC;
            carry = 1;
        }
        if self.secs > u64::MAX - other.secs {
            return None;
        }
        let secs = self.secs + other.secs;
        if secs > u64::MAX - carry {
            return None;
        }
        Some(Duration { secs: secs + carry, nanos })
    }

    /// The sum of both spans, or the longest span if the sum cannot be held.
    pub fn saturating_add(&self, other: &Duration) -> (r: Duration)
        ensures
            r@ == if self@ + other@ <= Duration::max_nanos() {
                self@ + other@
            } else {
                Duration::max_nanos()
            },
    {
        match self.checked_add(other) {
            Some(sum) => sum,
            None => Duration { secs: u64::MAX, nanos: NANOS_PER_SEC - 1 },
        }
    }

    /// What is left of `self` after `other`, or `None` if `other` is longer.
    pub fn checked_sub(&self, other: &Duration) -> (r: Option<Duration>)
        ensures
            other@ <= self@ ==> r.is_some() && r.unwrap()@ == self@ - other@,
            other@ > self@ ==> r.is_none(),
    {
        proof {
            use_type_invariant(self);
            use_type_invariant(other);
        }
        if self.secs < other.secs {
            return None;
        }
        let secs = self.secs - other.secs;
        if self.nanos >= other.nanos {
            Some(Duration { secs, nanos: self.nanos - other.nanos })
        } else if secs > 0 {
            Some(Duration { secs: secs - 1, nanos: self.nanos + NANOS_PER_SEC - other.nanos })
        } else {
            None
        }
    }

    /// What is left of `self` after `other`, or nothing if `other` is longer.
    pub fn saturating_sub(&self, other: &Duration) -> (r: Duration)
        ensures
            r@ == if other@ <= self@ {
                self@ - other@
            } else {
                0
            },
    {
        match self.checked_sub(other) {
            Some(rest) => rest,
            None => Duration { secs: 0, nanos: 0 },
        }
    }
}

impl View for Time {
    type V = nat;

    /// The nanoseconds since the Unix epoch.
    closed spec fn view(&self) -> nat {
        self.since_epoch@
    }
}

impl Time {
    /// The point in time that lies `since_epoch` after the Unix epoch.
    pub fn from_epoch(since_epoch: Duration) -> (r: Time)
        ensures
            r@ == since_epoch@,
    {
        Time { since_epoch }
    }

    /// The span between the Unix epoch and this point in time.
    pub fn since_epoch(&self) -> (r: Duration)
        ensures
            r@ == self@,
    {
        self.since_epoch
    }

    /// The wall-clock time of this moment. A clock that stands before the
    /// Unix epoch reads as the epoch.
    pub fn now() -> Time {
        Time { since_epoch: clock_since_epoch() }
    }

    /// The span from `earlier` to `self`, or `None` if `earlier` is the later
    /// of the two.
    pub fn duration_since(&self, earlier: &Time) -> (r: Option<Duration>)
        ensures
            earlier@ <= self@ ==> r.is_some() && r.unwrap()@ == self@ - earlier@,
            earlier@ > self@ ==> r.is_none(),
    {
        self.since_epoch.checked_sub(&earlier.since_epoch)
    }

    /// True if `self` is later than `other`.
    pub fn later_than(&self, other: &Time) -> (r: bool)
        ensures
            r == (self@ > other@),
    {
        other.since_epoch.shorter_than(&self.since_epoch)
    }
}

/// Reads the system clock with `std::time::SystemTime::now` and measures it
/// from the Unix epoch. Nothing is claimed of the reading.
#[verifier::external_body]
fn clock_since_epoch() -> Duration {
    match std::time::SystemTime::now().duration_since(std::time::UNIX_EPOCH) {
        Ok(d) => Duration { secs: d.as_secs(), nanos: d.subsec_nanos() },
        Err(_) => Duration { secs: 0, nanos: 0 },
    }
}

/// The text that `humantime::format_rfc3339_seconds` gives for the second
/// `secs` after the Unix epoch, as in `2018-02-14T00:28:07Z`.
pub uninterp spec fn rfc3339_seconds(secs: u64) -> Seq<char>;

/// Calls `humantime::format_rfc3339_seconds` on the moment `secs` seconds
/// after the Unix epoch. The text is a function of `secs` alone: it is in UTC
/// and has no fraction, so that it always takes twenty characters, the date
/// and the time with a `Z` behind them. From year 10000 on humantime refuses
/// to format.
#[verifier::external_body]
fn format_rfc3339_seconds(secs: u64) -> (r: String)
    requires
        secs < END_OF_YEAR_9999,
    ensures
        r@ == rfc3339_seconds(secs),
        r@.len() == DATE_TIME_YMD + DATE_TIME_HMS + 1,
{
    let moment = std::time::UNIX_EPOCH + std::time::Duration::from_secs(secs);
    humantime::format_rfc3339_seconds(moment).to_string()
}

/// The text that `humantime::format_duration` gives for a span of `nanos`
/// nanoseconds, as in `2h 37m`.
pub uninterp spec fn duration_text(nanos: nat) -> Seq<char>;

/// Calls `humantime::format_duration` on the span `span`. The text is a
/// function of the length of the span alone.
#[verifier::external_body]
pub(crate) fn format_duration(span: Duration) -> (r: String)
    ensures
        r@ == duration_text(span@),
{
    humantime::format_duration(std::time::Duration::new(span.secs, span.nanos)).to_string()
}

/// The characters `from..to` of `text`.
pub fn section(text: &str, from: usize, to: usize) -> (r: String)
    requires
        from <= to <= text@.len(),
    ensures
        r@ == text@.subrange(from as int, to as int),
{
    text.substring_char(from, to).to_owned()
}

/// The date and time of a timestamp without its zone, as in
/// `2020-02-13T00:51:45`: the first nineteen characters.
pub fn date_time_of(timestamp: &str) -> (r: String)
    requires
        timestamp@.len() >= DATE_TIME_YMD + DATE_TIME_HMS,
    ensures
        r@ == timestamp@.subrange(0, DATE_TIME_YMD + DATE_TIME_HMS),
{
    section(timestamp, 0, DATE_TIME_YMD + DATE_TIME_HMS)
}

/// The time of day of a timestamp, as in `00:51:45`: the eight characters
/// after the date.
pub fn time_of_day_of(timestamp: &str) -> (r: String)
    requires
        timestamp@.len() >= DATE_TIME_YMD + DATE_TIME_HMS,
    ensures
        r@ == timestamp@.subrange(DATE_TIME_YMD as int, DATE_TIME_YMD + DATE_TIME_HMS),
{
    section(timestamp, DATE_TIME_YMD, DATE_TIME_YMD + DATE_TIME_HMS)
}

/// True if `time` can be written as a timestamp: it lies before the year
/// 10000.
pub open spec fn has_clock_text(time: Time) -> bool {
    let secs = time@ / (NANOS_PER_SEC as nat);
    secs < END_OF_YEAR_9999
}

/// The UTC time of day of `time`, or nothing where it cannot be written.
pub open spec fn time_of_day_text(time: Time) -> Seq<char> {
    if has_clock_text(time) {
        rfc3339_seconds((time@ / (NANOS_PER_SEC as nat)) as u64).subrange(
            DATE_TIME_YMD as int,
            DATE_TIME_YMD + DATE_TIME_HMS,
        )
    } else {
        Seq::empty()
    }
}

/// The UTC date and time of `time` to the second, or nothing where it
/// cannot be written.
pub open spec fn date_time_text(time: Time) -> Seq<char> {
    if has_clock_text(time) {
        rfc3339_seconds((time@ / (NANOS_PER_SEC as nat)) as u64).subrange(
            0,
            DATE_TIME_YMD + DATE_TIME_HMS,
        )
    } else {
        Seq::empty()
    }
}

/// The UTC time of day of `time`, or an empty text where it cannot be
/// written.
pub fn time_column(time: Time) -> (r: String)
    ensures
        r@ == time_of_day_text(time),
{
    match format_time_for_messages(time) {
        Some(text) => text,
        None => String::new(),
    }
}

/// The UTC date and time of `time` to the second, or an empty text where it
/// cannot be written.
pub fn date_time_column(time: Time) -> (r: String)
    ensures
        r@ == date_time_text(time),
{
    match format_datetime_seconds(time) {
        Some(text) => text,
        None => String::new(),
    }
}

/// The UTC time of day of `time`, as shown in front of a message. `None` for
/// a time past the year 9999.
pub fn format_time_for_messages(time: Time) -> (r: Option<String>)
    ensures
        has_clock_text(time) ==> r.is_some() && r.unwrap()@ == rfc3339_seconds(
            (time@ / (NANOS_PER_SEC as nat)) as u64,
        ).subrange(DATE_TIME_YMD as int, DATE_TIME_YMD + DATE_TIME_HMS),
        !has_clock_text(time) ==> r.is_none(),
        r is Some ==> r.unwrap()@.len() == DATE_TIME_HMS,
{
    let secs = time.since_epoch().as_secs();
    if secs >= END_OF_YEAR_9999 {
        return None;
    }
    let text = format_rfc3339_seconds(secs);
    Some(time_of_day_of(text.as_str()))
}

/// The UTC date and time of `time` to the second. `None` for a time past the
/// year 9999.
pub fn format_datetime_seconds(time: Time) -> (r: Option<String>)
    ensures
        has_clock_text(time) ==> r.is_some() && r.unwrap()@ == rfc3339_seconds(
            (time@ / (NANOS_PER_SEC as nat)) as u64,
        ).subrange(0, DATE_TIME_YMD + DATE_TIME_HMS),
        !has_clock_text(time) ==> r.is_none(),
        r is Some ==> r.unwrap()@.len() == DATE_TIME_YMD + DATE_TIME_HMS,
{
    let secs = time.since_epoch().as_secs();
    if secs >= END_OF_YEAR_9999 {
        return None;
    }
    let text = format_rfc3339_seconds(secs);
    Some(date_time_of(text.as_str()))
}

/// The UTC date and time to the second of the moment that the clock shows,
/// as `format_datetime_seconds` gives it: nineteen characters.
pub fn format_now_datetime_seconds() -> (r: Option<String>)
    ensures
        exists|now: Time| is_date_time_of(r, now),
        r is Some ==> r.unwrap()@.len() == DATE_TIME_YMD + DATE_TIME_HMS,
{
    let now = Time::now();
    let r = format_datetime_seconds(now);
    assert(is_date_time_of(r, now));
    r
}

/// True if `text` is what the date and time of `time` are written as: the
/// UTC date and time to the second, and no text at all where `time` cannot
/// be written.
pub open spec fn is_date_time_of(text: Option<String>, time: Time) -> bool {
    match text {
        Some(text) => has_clock_text(time) && text@ == date_time_text(time),
        None => !has_clock_text(time),
    }
}

} // verus!
