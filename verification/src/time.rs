//! Instants in UTC, as the bot handles them: whole unix seconds plus a
//! sub-second part, within the range that `chrono` can represent.

use vstd::prelude::*;

verus! {

/// Unix seconds of the earliest instant `chrono::DateTime<Utc>` can hold
/// (January 1st of year -262143, 00:00:00).
pub const MIN_UNIX_SECS: i64 = -8334601228800;

/// Unix seconds of the latest whole second `chrono::DateTime<Utc>` can hold
/// (December 31st of year 262142, 23:59:59).
pub const MAX_UNIX_SECS: i64 = 8210266876799;

/// The largest number of whole seconds a `chrono::TimeDelta` can hold
/// (`i64::MAX` milliseconds, rounded down to seconds).
pub const MAX_DELTA_SECS: i64 = 9223372036854775;

/// The longest span, in whole days, that can be taken from any instant at
/// or after the unix epoch without leaving `chrono`'s range.
pub const MAX_SPAN_DAYS_FROM_EPOCH: i64 = 96465292;

/// Number of seconds in a day.
pub const SECS_PER_DAY: i64 = 86400;

/// Whether `secs` unix seconds name an instant that `chrono` can represent.
pub open spec fn secs_in_range(secs: int) -> bool {
    MIN_UNIX_SECS <= secs <= MAX_UNIX_SECS
}

/// An instant in UTC: `secs` seconds after the unix epoch plus `nanos`
/// nanoseconds. Leap seconds are not represented.
#[derive(Clone, Copy, Debug, PartialEq, Eq, Structural)]
pub struct Moment {
    pub secs: i64,
    pub nanos: u32,
}

impl Moment {
    /// The instant lies in `chrono`'s range and its sub-second part is below
    /// one second.
    pub open spec fn wf(self) -> bool {
        &&& secs_in_range(self.secs as int)
        &&& self.nanos < 1_000_000_000
    }

    /// Strict chronological order.
    pub open spec fn is_after(self, other: Moment) -> bool {
        self.secs > other.secs || (self.secs == other.secs && self.nanos > other.nanos)
    }

    /// Builds an instant from its parts; `None` where the parts name no
    /// instant that `chrono` can hold.
    pub fn from_parts(secs: i64, nanos: u32) -> (r: Option<Moment>)
        ensures
            r matches Some(m) ==> m.wf() && m.secs == secs && m.nanos == nanos,
            r is None <==> !(Moment { secs, nanos }).wf(),
    {
        if MIN_UNIX_SECS <= secs && secs <= MAX_UNIX_SECS && nanos < 1_000_000_000 {
            Some(Moment { secs, nanos })
        } else {
            None
        }
    }

    /// The instant at the start of the whole second `secs`.
    pub fn whole_second(secs: i64) -> (r: Moment)
        requires
            secs_in_range(secs as int),
        ensures
            r.wf(),
            r.secs == secs,
            r.nanos == 0,
    {
        Moment { secs, nanos: 0 }
    }

    /// Whether `self` is strictly later than `other`.
    pub fn after(&self, other: &Moment) -> (r: bool)
        ensures
            r == self.is_after(*other),
    {
        self.secs > other.secs || (self.secs == other.secs && self.nanos > other.nanos)
    }
}

/// Chronological order is a strict total order: irreflexive, transitive,
/// and any two distinct instants are ordered one way.
pub proof fn lemma_is_after_strict_total(a: Moment, b: Moment, c: Moment)
    ensures
        !a.is_after(a),
        a.is_after(b) && b.is_after(c) ==> a.is_after(c),
        a != b ==> a.is_after(b) || b.is_after(a),
        !(a.is_after(b) && b.is_after(a)),
{
}

/// What `chrono::TimeDelta::try_days(days)` holds, in whole seconds: `None`
/// where the span does not fit in a `TimeDelta`.
pub open spec fn spec_day_span(days: int) -> Option<int> {
    if -MAX_DELTA_SECS <= days * SECS_PER_DAY <= MAX_DELTA_SECS {
        Some(days * SECS_PER_DAY)
    } else {
        None
    }
}

/// What `DateTime::checked_sub_signed` gives for `m` minus `secs` seconds:
/// `None` where the span is no `TimeDelta` or the result leaves `chrono`'s
/// range.
pub open spec fn spec_minus_secs(m: Moment, secs: int) -> Option<Moment> {
    if -MAX_DELTA_SECS <= secs <= MAX_DELTA_SECS && secs_in_range(m.secs - secs) {
        Some(Moment { secs: (m.secs - secs) as i64, nanos: m.nanos })
    } else {
        None
    }
}

/// `m` minus `days` whole days, as `DateTime<Utc> - TimeDelta::days(days)`
/// computes it; `None` exactly where that expression panics.
pub open spec fn spec_days_before(m: Moment, days: int) -> Option<Moment> {
    match spec_day_span(days) {
        Some(span) => spec_minus_secs(m, span),
        None => None,
    }
}

/// From an instant at or after the epoch, a span of up to
/// `MAX_SPAN_DAYS_FROM_EPOCH` days back always has a result, itself in range.
pub proof fn lemma_days_before_defined(m: Moment, days: int)
    requires
        m.wf(),
        m.secs >= 0,
        0 <= days <= MAX_SPAN_DAYS_FROM_EPOCH,
    ensures
        spec_days_before(m, days) == Some(Moment { secs: (m.secs - days * SECS_PER_DAY) as i64, nanos: m.nanos }),
{
}

/// Calls `chrono::Utc::now()`. Claims that the result is an instant of
/// `chrono`'s range, not before the unix epoch (`Utc::now` panics when the
/// system clock is), without a leap second (it is built by
/// `DateTime::from_timestamp` from `SystemTime`, whose sub-second part is
/// below one second). Which instant it is depends on the clock.
#[verifier::external_body]
pub(crate) fn utc_now() -> (r: Moment)
    ensures
        r.wf(),
        r.secs >= 0,
{
    let t = chrono::Utc::now();
    Moment { secs: t.timestamp(), nanos: t.timestamp_subsec_nanos() }
}

/// Calls `chrono::TimeDelta::try_days(days)` and reads the span back with
/// `num_seconds`. Claims what the source shows: the span is `days * 86400`
/// seconds, and there is none when that product leaves the range of a
/// `TimeDelta` (which `TimeDelta::new` checks after `checked_mul`).
#[verifier::external_body]
fn day_span(days: i64) -> (r: Option<i64>)
    ensures
        r matches Some(s) ==> spec_day_span(days as int) == Some(s as int),
        r is None <==> spec_day_span(days as int) is None,
{
    match chrono::TimeDelta::try_days(days) {
        Some(d) => Some(d.num_seconds()),
        None => None,
    }
}

/// Calls `DateTime::<Utc>::checked_sub_signed` on `m` with a span of `secs`
/// seconds (made by `TimeDelta::try_seconds`). Claims what the source shows
/// for an instant without a leap second: the time of day and the sub-second
/// part carry over, the seconds decrease by `secs`, and there is no result
/// where the span is no `TimeDelta` or the date leaves `chrono`'s range.
#[verifier::external_body]
fn minus_secs(m: Moment, secs: i64) -> (r: Option<Moment>)
    requires
        m.wf(),
    ensures
        r == spec_minus_secs(m, secs as int),
{
    let start = match chrono::DateTime::from_timestamp(m.secs, m.nanos) {
        Some(t) => t,
        None => return None,
    };
    let span = match chrono::TimeDelta::try_seconds(secs) {
        Some(s) => s,
        None => return None,
    };
    match start.checked_sub_signed(span) {
        Some(t) => Some(Moment { secs: t.timestamp(), nanos: t.timestamp_subsec_nanos() }),
        None => None,
    }
}

/// `m` minus `days` whole days, computed by `chrono` as the bot computes
/// `now - Duration::days(days)`; `None` exactly where that panics.
pub fn days_before(m: Moment, days: i64) -> (r: Option<Moment>)
    requires
        m.wf(),
    ensures
        r == spec_days_before(m, days as int),
        r matches Some(x) ==> x.wf(),
{
    match day_span(days) {
        Some(span) => minus_secs(m, span),
        None => None,
    }
}

/// What serenity's `Timestamp::from_unix_timestamp(secs)` accepts: a whole
/// second within `chrono`'s range.
pub open spec fn spec_timestamp_from_unix(secs: int) -> Option<int> {
    if secs_in_range(secs) {
        Some(secs)
    } else {
        None
    }
}

/// Calls serenity's `Timestamp::from_unix_timestamp(secs)` and reads the
/// result back with `unix_timestamp`. That function computes `secs * 1000`
/// (so `requires` keeps the product in `i64`) and hands it to
/// `Utc.timestamp_millis_opt`; claims that it succeeds exactly within
/// `chrono`'s range and that the round trip gives `secs` back, as chrono
/// documents for `from_timestamp`.
#[verifier::external_body]
pub(crate) fn unix_timestamp_checked(secs: i64) -> (r: Option<i64>)
    requires
        -MAX_DELTA_SECS <= secs <= MAX_DELTA_SECS,
    ensures
        r matches Some(s) ==> spec_timestamp_from_unix(secs as int) == Some(s as int),
        r is None <==> spec_timestamp_from_unix(secs as int) is None,
{
    match serenity::model::Timestamp::from_unix_timestamp(secs) {
        Ok(t) => Some(t.unix_timestamp()),
        Err(_) => None,
    }
}

/// Calls serenity's `Timestamp::now()` and reads it back with
/// `unix_timestamp`. Claims only that the result is a whole second of
/// `chrono`'s range, not before the unix epoch (`Utc::now` panics when the
/// system clock is); which second depends on the clock.
#[verifier::external_body]
pub(crate) fn timestamp_now_secs() -> (r: i64)
    ensures
        0 <= r,
        secs_in_range(r as int),
{
    serenity::model::Timestamp::now().unix_timestamp()
}

/// The text that serenity's derived `Debug` prints for the `Timestamp` of
/// whole second `secs`.
pub uninterp spec fn timestamp_debug_text(secs: i64) -> Seq<char>;

/// Formats with `{:?}` the serenity `Timestamp` of whole second `secs`.
/// Claims that the text is `timestamp_debug_text(secs)` and that it is
/// ASCII: the derived `Debug` of the newtype writes `Timestamp(`, chrono's
/// `Debug` of the date and time (digits, signs, `-`, `T`, `:`, `.`), `Z` and
/// `)`.
#[verifier::external_body]
pub(crate) fn timestamp_debug(secs: i64) -> (r: String)
    requires
        secs_in_range(secs as int),
    ensures
        r@ == timestamp_debug_text(secs),
        vstd::utf8::is_ascii_chars(r@),
{
    match serenity::model::Timestamp::from_unix_timestamp(secs) {
        Ok(t) => format!("{:?}", t),
        Err(_) => String::new(),
    }
}

} // verus!
