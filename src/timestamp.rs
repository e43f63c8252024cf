//! Unix timestamps and their truncation to the start of a UTC day.
use chrono::{DateTime, Utc};
use vstd::prelude::*;

verus! {

/// Number of seconds in a UTC day (there are no leap seconds in Unix time).
pub const SECS_PER_DAY: u64 = 86400;

/// The last second that the calendar can represent: 262142-12-31 23:59:59 UTC.
pub const MAX_CALENDAR_SECS: u64 = 8_210_266_876_799;

/// The UTC calendar day (days since 1970-01-01) that holds second `t`.
pub open spec fn utc_day(t: nat) -> nat {
    t / (SECS_PER_DAY as nat)
}

/// The first second of the UTC day that holds second `t`.
pub open spec fn day_start(t: nat) -> nat {
    (t - t % (SECS_PER_DAY as nat)) as nat
}

/// Whether second `t` falls on a date that the calendar can represent.
pub open spec fn on_calendar(t: nat) -> bool {
    t <= MAX_CALENDAR_SECS
}

/// Relies on chrono's `DateTime::from_timestamp`, `DateTime::date_naive`,
/// `NaiveDate::and_hms_opt`, `NaiveDateTime::and_utc` and `DateTime::timestamp`:
/// a non-negative second maps to a date exactly when it is at most
/// `MAX_CALENDAR_SECS`, and midnight of that date is the second rounded down to a
/// multiple of a day.
#[verifier::external_body]
fn utc_midnight_secs(secs: i64) -> (r: Option<i64>)
    requires
        secs >= 0,
    ensures
        r is Some <==> secs <= MAX_CALENDAR_SECS,
        r matches Some(m) ==> m as int == secs as int - (secs as int) % (SECS_PER_DAY as int),
{
    let dt: DateTime<Utc> = DateTime::from_timestamp(secs, 0)?;
    let midnight = dt.date_naive().and_hms_opt(0, 0, 0)?;
    Some(midnight.and_utc().timestamp())
}

/// A point in time, as whole seconds since the Unix epoch.
#[derive(Clone, Copy, Debug, PartialEq, Eq, Structural, PartialOrd, Ord, Hash)]
pub struct UnixTimestamp {
    secs: u64,
}

impl View for UnixTimestamp {
    type V = nat;

    closed spec fn view(&self) -> nat {
        self.secs as nat
    }
}

impl UnixTimestamp {
    /// The timestamp `secs` seconds after the epoch.
    pub fn from_secs(secs: u64) -> (r: Self)
        ensures
            r@ == secs as nat,
    {
        UnixTimestamp { secs }
    }

    /// Seconds since the epoch.
    pub fn as_secs(&self) -> (r: u64)
        ensures
            r as nat == self@,
    {
        self.secs
    }
}

/// A Unix timestamp truncated to 00:00:00 UTC of its day.
#[derive(Clone, Copy, Debug, PartialEq, Eq, Structural, PartialOrd, Ord, Hash)]
pub struct StartOfDayUnixTimestamp {
    ts: UnixTimestamp,
}

impl View for StartOfDayUnixTimestamp {
    type V = nat;

    closed spec fn view(&self) -> nat {
        self.ts@
    }
}

impl StartOfDayUnixTimestamp {
    /// Every value is the start of a day on the calendar.
    #[verifier::type_invariant]
    closed spec fn at_midnight(self) -> bool {
        &&& self.ts@ % (SECS_PER_DAY as nat) == 0
        &&& on_calendar(self.ts@)
    }

    /// Truncates `ts` to the start of its UTC day; `None` when the calendar cannot
    /// represent its date.
    pub fn new(ts: UnixTimestamp) -> (r: Option<Self>)
        ensures
            r is Some <==> on_calendar(ts@),
            r matches Some(d) ==> d@ == day_start(ts@),
    {
        let secs = ts.as_secs();
        if secs > i64::MAX as u64 {
            return None;
        }
        let midnight = utc_midnight_secs(secs as i64)?;
        proof {
            assert(day_start(ts@) == midnight);
        }
        Some(StartOfDayUnixTimestamp { ts: UnixTimestamp::from_secs(midnight as u64) })
    }

    /// The truncated timestamp.
    pub fn as_timestamp(&self) -> (r: UnixTimestamp)
        ensures
            r@ == self@,
            r@ % (SECS_PER_DAY as nat) == 0,
            on_calendar(r@),
    {
        proof {
            use_type_invariant(self);
        }
        self.ts
    }
}

impl core::ops::Deref for StartOfDayUnixTimestamp {
    type Target = UnixTimestamp;

    fn deref(&self) -> (r: &UnixTimestamp)
        ensures
            r@ == self@,
    {
        &self.ts
    }
}

/// Two timestamps are equal exactly when they hold the same second.
pub proof fn lemma_unix_view_eq(a: UnixTimestamp, b: UnixTimestamp)
    ensures
        a@ == b@ <==> a == b,
{
}

/// Two days are equal exactly when they start at the same second.
pub proof fn lemma_day_view_eq(a: StartOfDayUnixTimestamp, b: StartOfDayUnixTimestamp)
    ensures
        a@ == b@ <==> a == b,
{
    lemma_unix_view_eq(a.ts, b.ts);
}

/// Truncating twice is truncating once: the start of a representable day is
/// itself representable and is its own day's start.
pub proof fn lemma_truncate_idempotent(t: nat)
    requires
        on_calendar(t),
    ensures
        on_calendar(day_start(t)),
        day_start(day_start(t)) == day_start(t),
{
    let d = SECS_PER_DAY as nat;
    assert(day_start(t) == (t / d) * d) by {
        vstd::arithmetic::div_mod::lemma_fundamental_div_mod(t as int, d as int);
    }
    assert(((t / d) * d) % d == 0) by {
        vstd::arithmetic::div_mod::lemma_mod_multiples_basic((t / d) as int, d as int);
    }
}

/// Two seconds of one UTC day truncate to the same value; a second of an
/// earlier day truncates to a smaller value.
pub proof fn lemma_day_grouping(t1: nat, t2: nat)
    ensures
        utc_day(t1) == utc_day(t2) ==> day_start(t1) == day_start(t2),
        utc_day(t1) < utc_day(t2) ==> day_start(t1) < day_start(t2),
{
    let d = SECS_PER_DAY as nat;
    vstd::arithmetic::div_mod::lemma_fundamental_div_mod(t1 as int, d as int);
    vstd::arithmetic::div_mod::lemma_fundamental_div_mod(t2 as int, d as int);
    assert(day_start(t1) == (t1 / d) * d);
    assert(day_start(t2) == (t2 / d) * d);
    if utc_day(t1) < utc_day(t2) {
        vstd::arithmetic::mul::lemma_mul_strict_inequality((t1 / d) as int, (t2 / d) as int, d as int);
    }
}

/// Truncating a day again gives back that very day.
pub proof fn lemma_truncate_value_idempotent(d: StartOfDayUnixTimestamp, e: StartOfDayUnixTimestamp)
    requires
        d@ % (SECS_PER_DAY as nat) == 0,
        e@ == day_start(d@),
    ensures
        e == d,
{
    lemma_day_view_eq(d, e);
}

/// Two seconds of one UTC day truncate to the same day.
pub proof fn lemma_same_day_same_value(t1: nat, t2: nat, a: StartOfDayUnixTimestamp, b: StartOfDayUnixTimestamp)
    requires
        utc_day(t1) == utc_day(t2),
        a@ == day_start(t1),
        b@ == day_start(t2),
    ensures
        a == b,
{
    lemma_day_grouping(t1, t2);
    lemma_day_view_eq(a, b);
}

} // verus!
