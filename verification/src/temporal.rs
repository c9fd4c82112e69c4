//! The calls into `temporal_rs`. Instants are held in the heap as their
//! epoch nanoseconds; these wrappers turn them into `temporal_rs` values
//! for the computation and back.
use vstd::prelude::*;

use temporal_rs::options::{DifferenceSettings as RsDifferenceSettings, RoundingIncrement};
use temporal_rs::{Duration, Instant};

use crate::instant::rounding_mode_str;
use crate::options::RoundingMode;

verus! {

/// The largest absolute epoch-nanoseconds value of an instant: 10^8 days.
pub open spec fn max_epoch_nanoseconds() -> int {
    8_640_000_000_000_000_000_000
}

/// IsValidEpochNanoseconds: the instant lies within 10^8 days of the epoch.
pub open spec fn is_valid_epoch_nanoseconds(ns: int) -> bool {
    -max_epoch_nanoseconds() <= ns <= max_epoch_nanoseconds()
}

#[verifier::external_type_specification]
#[verifier::external_body]
pub struct ExZonedDateTime(temporal_rs::ZonedDateTime);

/// The fields of a Temporal duration record, each signed.
#[derive(Clone, Copy, Debug, PartialEq, Eq, Structural)]
pub struct DurationRecord {
    pub years: i64,
    pub months: i64,
    pub weeks: i64,
    pub days: i64,
    pub hours: i64,
    pub minutes: i64,
    pub seconds: i64,
    pub milliseconds: i64,
    pub microseconds: i128,
    pub nanoseconds: i128,
}

/// The blank duration: every field zero.
pub open spec fn blank_duration() -> DurationRecord {
    DurationRecord {
        years: 0,
        months: 0,
        weeks: 0,
        days: 0,
        hours: 0,
        minutes: 0,
        seconds: 0,
        milliseconds: 0,
        microseconds: 0,
        nanoseconds: 0,
    }
}

/// The duration with every field negated.
pub open spec fn negated_duration(d: DurationRecord) -> DurationRecord {
    DurationRecord {
        years: (-d.years) as i64,
        months: (-d.months) as i64,
        weeks: (-d.weeks) as i64,
        days: (-d.days) as i64,
        hours: (-d.hours) as i64,
        minutes: (-d.minutes) as i64,
        seconds: (-d.seconds) as i64,
        milliseconds: (-d.milliseconds) as i64,
        microseconds: (-d.microseconds) as i128,
        nanoseconds: (-d.nanoseconds) as i128,
    }
}

/// The negated duration, where there is one.
pub open spec fn negated_option(r: Option<DurationRecord>) -> Option<DurationRecord> {
    match r {
        Some(d) => Some(negated_duration(d)),
        None => None,
    }
}

/// The duration has a non-zero date unit: years, months, weeks or days.
pub open spec fn has_date_part(d: DurationRecord) -> bool {
    d.years != 0 || d.months != 0 || d.weeks != 0 || d.days != 0
}

/// The time part of a duration in nanoseconds.
pub open spec fn duration_time_nanoseconds(d: DurationRecord) -> int {
    d.hours * 3_600_000_000_000 + d.minutes * 60_000_000_000 + d.seconds * 1_000_000_000 + d.milliseconds
        * 1_000_000 + d.microseconds * 1_000 + d.nanoseconds
}

/// 2^53, the bound below which an integer is exact as an `f64`.
pub open spec fn two_pow_53() -> int {
    9_007_199_254_740_992
}

/// No two fields of the duration have opposite signs.
pub open spec fn signs_agree(d: DurationRecord) -> bool {
    ||| (d.years >= 0 && d.months >= 0 && d.weeks >= 0 && d.days >= 0 && d.hours >= 0 && d.minutes >= 0
        && d.seconds >= 0 && d.milliseconds >= 0 && d.microseconds >= 0 && d.nanoseconds >= 0)
    ||| (d.years <= 0 && d.months <= 0 && d.weeks <= 0 && d.days <= 0 && d.hours <= 0 && d.minutes <= 0
        && d.seconds <= 0 && d.milliseconds <= 0 && d.microseconds <= 0 && d.nanoseconds <= 0)
}

/// The largest time part of a duration, in nanoseconds, that `temporal_rs`
/// holds as a time duration: 2^53 seconds less one nanosecond.
pub open spec fn max_time_duration() -> int {
    9_007_199_254_740_991_999_999_999
}

/// The time part of the duration lies within [`max_time_duration`].
pub open spec fn time_part_in_range(d: DurationRecord) -> bool {
    -max_time_duration() <= duration_time_nanoseconds(d) <= max_time_duration()
}

/// Whether no two fields of `d` have opposite signs.
pub fn signs_agree_exec(d: &DurationRecord) -> (r: bool)
    ensures
        r == signs_agree(*d),
{
    (d.years >= 0 && d.months >= 0 && d.weeks >= 0 && d.days >= 0 && d.hours >= 0 && d.minutes >= 0 && d.seconds >= 0
        && d.milliseconds >= 0 && d.microseconds >= 0 && d.nanoseconds >= 0) || (d.years <= 0 && d.months <= 0
        && d.weeks <= 0 && d.days <= 0 && d.hours <= 0 && d.minutes <= 0 && d.seconds <= 0 && d.milliseconds <= 0
        && d.microseconds <= 0 && d.nanoseconds <= 0)
}

/// Whether the time part of `d`, whose fields agree in sign, lies within
/// [`max_time_duration`]: one field beyond it puts the whole beyond it,
/// and otherwise the sum is taken exactly.
pub fn time_part_in_range_exec(d: &DurationRecord) -> (r: bool)
    requires
        signs_agree(*d),
    ensures
        r == time_part_in_range(*d),
{
    if d.hours > 2_501_999_792_983 || d.hours < -2_501_999_792_983 {
        return false;
    }
    if d.minutes > 150_119_987_579_016 || d.minutes < -150_119_987_579_016 {
        return false;
    }
    if d.seconds > 9_007_199_254_740_991 || d.seconds < -9_007_199_254_740_991 {
        return false;
    }
    if d.milliseconds > 9_007_199_254_740_991_999 || d.milliseconds < -9_007_199_254_740_991_999 {
        return false;
    }
    if d.microseconds > 9_007_199_254_740_991_999_999 || d.microseconds < -9_007_199_254_740_991_999_999 {
        return false;
    }
    if d.nanoseconds > 9_007_199_254_740_991_999_999_999 || d.nanoseconds < -9_007_199_254_740_991_999_999_999 {
        return false;
    }
    let t: i128 = d.hours as i128 * 3_600_000_000_000 + d.minutes as i128 * 60_000_000_000 + d.seconds as i128
        * 1_000_000_000 + d.milliseconds as i128 * 1_000_000 + d.microseconds * 1_000 + d.nanoseconds;
    -9_007_199_254_740_991_999_999_999 <= t && t <= 9_007_199_254_740_991_999_999_999
}

/// Difference settings, by `temporal_rs` unit numbers, that its
/// difference of instants accepts: time units (1 to 6) with the largest at
/// least the smallest, and an increment that lies below the maximum for the
/// smallest unit (24 for hours, 60 for minutes and seconds, else 1000) and
/// divides it.
pub open spec fn valid_time_difference_settings(largest: usize, smallest: usize, increment: u32) -> bool {
    let maximum: int = if smallest == 6 {
        24
    } else if smallest >= 4 {
        60
    } else {
        1000
    };
    &&& 1 <= smallest <= largest <= 6
    &&& 1 <= increment < maximum
    &&& maximum % (increment as int) == 0
}

/// The length in nanoseconds of the time unit with the given `temporal_rs`
/// number (1 nanosecond up to 6 hour), 0 for any other number.
pub open spec fn unit_nanoseconds(n: usize) -> int {
    if n == 1 {
        1
    } else if n == 2 {
        1_000
    } else if n == 3 {
        1_000_000
    } else if n == 4 {
        1_000_000_000
    } else if n == 5 {
        60_000_000_000
    } else if n == 6 {
        3_600_000_000_000
    } else {
        0
    }
}

/// RoundNumberToIncrement(x, m, mode) on integers, for `m > 0`: `x` where
/// it is a multiple of `m`, else the multiple below (`lo`) or above (`hi`)
/// it that the mode picks: ceil and floor toward positive and negative
/// infinity, expand away from zero and trunc toward it; the half modes take
/// the nearer multiple and break a tie as their name says, halfEven toward
/// the even multiple of `m`.
pub open spec fn round_to_increment(x: int, m: int, mode: RoundingMode) -> int {
    let q = x / m;
    let r = x % m;
    let lo = q * m;
    let hi = lo + m;
    if r == 0 {
        x
    } else {
        match mode {
            RoundingMode::Ceil => hi,
            RoundingMode::Floor => lo,
            RoundingMode::Expand => if x < 0 { lo } else { hi },
            RoundingMode::Trunc => if x < 0 { hi } else { lo },
            _ => if 2 * r < m {
                lo
            } else if 2 * r > m {
                hi
            } else {
                match mode {
                    RoundingMode::HalfCeil => hi,
                    RoundingMode::HalfFloor => lo,
                    RoundingMode::HalfExpand => if x < 0 { lo } else { hi },
                    RoundingMode::HalfTrunc => if x < 0 { hi } else { lo },
                    _ => if q % 2 == 0 { lo } else { hi },
                }
            },
        }
    }
}

/// A time duration balanced up to the unit with the given `temporal_rs`
/// number: no date part, no opposite signs, nothing in units above the
/// largest, and each unit below it under one of the next unit.
pub open spec fn balanced_time_duration(d: DurationRecord, largest: usize) -> bool {
    &&& !has_date_part(d)
    &&& signs_agree(d)
    &&& largest < 6 ==> d.hours == 0
    &&& largest < 5 ==> d.minutes == 0
    &&& largest < 4 ==> d.seconds == 0
    &&& largest < 3 ==> d.milliseconds == 0
    &&& largest < 2 ==> d.microseconds == 0
    &&& largest > 5 ==> -60 < d.minutes < 60
    &&& largest > 4 ==> -60 < d.seconds < 60
    &&& largest > 3 ==> -1000 < d.milliseconds < 1000
    &&& largest > 2 ==> -1000 < d.microseconds < 1000
    &&& largest > 1 ==> -1000 < d.nanoseconds < 1000
}

/// A time-only duration that `Duration::new` accepts and keeps exactly:
/// no date part, no opposite signs, the fields that its validity check
/// reads as `f64` exact there, and a time part below 2^53 seconds.
pub open spec fn exact_time_duration(d: DurationRecord) -> bool {
    &&& !has_date_part(d)
    &&& signs_agree(d)
    &&& -two_pow_53() <= d.seconds <= two_pow_53()
    &&& -two_pow_53() <= d.milliseconds <= two_pow_53()
    &&& -two_pow_53() <= d.microseconds <= two_pow_53()
    &&& -two_pow_53() <= d.nanoseconds <= two_pow_53()
    &&& -two_pow_53() * 1_000_000_000 < duration_time_nanoseconds(d) < two_pow_53() * 1_000_000_000
}

/// The epoch nanoseconds that `temporal_rs` parses from an instant string,
/// or `None` where it refuses the string.
pub uninterp spec fn instant_from_utf8(s: Seq<u8>) -> Option<i128>;

/// The epoch nanoseconds of `ns` plus the duration `d`, as `temporal_rs`
/// computes AddDurationToInstant, or `None` where it throws.
pub uninterp spec fn instant_add_duration(ns: i128, d: DurationRecord) -> Option<i128>;

/// The epoch nanoseconds of `ns` minus the duration `d`, or `None` where
/// `temporal_rs` throws.
pub uninterp spec fn instant_subtract_duration(ns: i128, d: DurationRecord) -> Option<i128>;

/// The duration from `ns` until `other` under the given settings (units by
/// their `temporal_rs` numbers, the rounding mode by its name), or `None`
/// where `temporal_rs` throws.
pub uninterp spec fn instant_until(
    ns: i128,
    other: i128,
    largest_unit: usize,
    smallest_unit: usize,
    rounding_mode: Seq<char>,
    increment: u32,
) -> Option<DurationRecord>;

/// The epoch nanoseconds of a `temporal_rs` zoned date-time.
pub uninterp spec fn zoned_date_time_epoch_nanoseconds(z: temporal_rs::ZonedDateTime) -> i128;

/// Calls `temporal_rs::ZonedDateTime::epoch_nanoseconds` and reads the
/// value as an `i128`. What it is for a given zoned date-time is left to
/// the name `zoned_date_time_epoch_nanoseconds`.
#[verifier::external_body]
pub(crate) fn zoned_epoch_nanoseconds(z: &temporal_rs::ZonedDateTime) -> (r: i128)
    ensures
        r == zoned_date_time_epoch_nanoseconds(*z),
{
    z.epoch_nanoseconds().as_i128()
}

/// The duration record that `temporal_rs` parses from an ISO 8601 duration
/// string, or `None` where it refuses the string.
pub uninterp spec fn duration_from_utf8(s: Seq<u8>) -> Option<DurationRecord>;

/// Calls `temporal_rs::Duration::from_utf8` and reads the fields of the
/// duration it parses. What the parse accepts and gives is left to the
/// name `duration_from_utf8`.
#[verifier::external_body]
pub(crate) fn parse_duration(s: &[u8]) -> (r: Option<DurationRecord>)
    ensures
        r == duration_from_utf8(s@),
{
    let d = Duration::from_utf8(s).ok()?;
    Some(DurationRecord { years: d.years(), months: d.months(), weeks: d.weeks(), days: d.days(), hours: d.hours(),
        minutes: d.minutes(), seconds: d.seconds(), milliseconds: d.milliseconds(), microseconds: d.microseconds(), nanoseconds: d.nanoseconds() })
}

/// Calls `temporal_rs::Instant::from_utf8` and reads the epoch nanoseconds
/// of the instant it parses. Its source checks the result against the
/// valid range before it returns it; what the parse accepts is left to the
/// name `instant_from_utf8`.
#[verifier::external_body]
pub(crate) fn parse_instant(s: &[u8]) -> (r: Option<i128>)
    ensures
        r == instant_from_utf8(s@),
        r matches Some(ns) ==> is_valid_epoch_nanoseconds(ns as int),
{
    match Instant::from_utf8(s) {
        Ok(instant) => Some(instant.as_i128()),
        Err(_) => None,
    }
}

/// Calls `temporal_rs::Instant::add` on the instant `ns` and the duration
/// that `Duration::new` builds from `d`. Its source throws where the
/// largest non-zero unit of the duration is a date unit (years, months,
/// weeks or days), and otherwise adds the time part of the duration in
/// nanoseconds and checks the sum against the valid range; subtracting
/// the same duration from the sum passes the same checks and gives `ns`
/// back. Where `Duration::new` refuses a duration whose fields are not
/// exact as `f64` is left to the name `instant_add_duration`. A duration
/// whose fields agree in sign and whose time part lies beyond
/// [`max_time_duration`] can pass that `f64` check and then fail an
/// assertion when the time part is summed, so `requires` leaves it out.
#[verifier::external_body]
pub(crate) fn add_duration(ns: i128, d: DurationRecord) -> (r: Option<i128>)
    requires
        signs_agree(d) ==> time_part_in_range(d),
    ensures
        r == instant_add_duration(ns, d),
        r matches Some(x) ==> instant_subtract_duration(x, d) == Some(ns),
        r matches Some(x) ==> is_valid_epoch_nanoseconds(x as int),
        r matches Some(x) ==> x as int == ns as int + duration_time_nanoseconds(d),
        has_date_part(d) ==> r is None,
        (is_valid_epoch_nanoseconds(ns as int) && exact_time_duration(d)) ==> (r is Some <==> is_valid_epoch_nanoseconds(
            ns as int + duration_time_nanoseconds(d),
        )),
{
    let instant = Instant::try_new(ns).ok()?;
    let duration = Duration::new(
        d.years, d.months, d.weeks, d.days, d.hours, d.minutes, d.seconds, d.milliseconds, d.microseconds, d.nanoseconds,
    ).ok()?;
    match instant.add(&duration) {
        Ok(result) => Some(result.as_i128()),
        Err(_) => None,
    }
}

/// Calls `temporal_rs::Instant::subtract`, as [`add_duration`] calls `add`;
/// its source negates the duration and adds it, so the same checks hold,
/// the time part is subtracted, adding the duration back gives `ns`, and
/// the same durations are left out.
#[verifier::external_body]
pub(crate) fn subtract_duration(ns: i128, d: DurationRecord) -> (r: Option<i128>)
    requires
        signs_agree(d) ==> time_part_in_range(d),
    ensures
        r == instant_subtract_duration(ns, d),
        r matches Some(x) ==> instant_add_duration(x, d) == Some(ns),
        r matches Some(x) ==> is_valid_epoch_nanoseconds(x as int),
        r matches Some(x) ==> x as int == ns as int - duration_time_nanoseconds(d),
        has_date_part(d) ==> r is None,
        (is_valid_epoch_nanoseconds(ns as int) && exact_time_duration(d)) ==> (r is Some <==> is_valid_epoch_nanoseconds(
            ns as int - duration_time_nanoseconds(d),
        )),
{
    let instant = Instant::try_new(ns).ok()?;
    let duration = Duration::new(
        d.years, d.months, d.weeks, d.days, d.hours, d.minutes, d.seconds, d.milliseconds, d.microseconds, d.nanoseconds,
    ).ok()?;
    match instant.subtract(&duration) {
        Ok(result) => Some(result.as_i128()),
        Err(_) => None,
    }
}

/// Calls `temporal_rs::Instant::until` with the difference settings given
/// by unit numbers, rounding-mode name and increment, and reads the fields
/// of the duration it returns. The duration is left to the name
/// `instant_until`; of it the contract states that an instant until
/// itself is blank, as the source rounds a zero difference to zero and
/// balances it to zero fields, and that the call succeeds for two valid
/// instants and settings it accepts: the difference of two valid instants,
/// rounded, stays far below the largest time duration and balances to a
/// valid duration. For such settings the contract also states the
/// duration itself as far as the source computes it in a few lines: the
/// difference `other - ns` rounded to a multiple of the increment times the
/// smallest unit with the rounding mode of that name (RoundNumberToIncrement,
/// `IncrementRounder::round`), balanced up to the largest unit with no date
/// part (`Duration::from_internal`). Under `trunc`, which rounds toward zero either way, the
/// duration from `other` to `ns` is this one negated: the rounding and the
/// balancing work on the magnitude, and the sign is put back last.
#[verifier::external_body]
pub(crate) fn difference_until(ns: i128, other: i128, largest: usize, smallest: usize, mode: &str, increment: u32) -> (r: Option<DurationRecord>)
    ensures
        r == instant_until(ns, other, largest, smallest, mode@, increment),
        ns == other ==> (r matches Some(d) ==> d == blank_duration()),
        mode@ == "trunc"@ ==> instant_until(other, ns, largest, smallest, mode@, increment) == negated_option(r),
        (is_valid_epoch_nanoseconds(ns as int) && is_valid_epoch_nanoseconds(other as int)
            && valid_time_difference_settings(largest, smallest, increment)) ==> r is Some,
        valid_time_difference_settings(largest, smallest, increment) ==> (r matches Some(d) ==> balanced_time_duration(
            d,
            largest,
        )),
        valid_time_difference_settings(largest, smallest, increment) ==> (r matches Some(d) ==> forall|md: RoundingMode|
            mode@ == #[trigger] rounding_mode_str(md) ==> duration_time_nanoseconds(d) == round_to_increment(
                other - ns,
                increment * unit_nanoseconds(smallest),
                md,
            )),
{
    let a = Instant::try_new(ns).ok()?;
    let b = Instant::try_new(other).ok()?;
    let mut settings = RsDifferenceSettings::default();
    settings.largest_unit = Some(largest.into());
    settings.smallest_unit = Some(smallest.into());
    settings.rounding_mode = mode.parse().ok();
    settings.increment = RoundingIncrement::try_new(increment).ok();
    let d = a.until(&b, settings).ok()?;
    Some(DurationRecord { years: d.years(), months: d.months(), weeks: d.weeks(), days: d.days(), hours: d.hours(),
        minutes: d.minutes(), seconds: d.seconds(), milliseconds: d.milliseconds(), microseconds: d.microseconds(), nanoseconds: d.nanoseconds() })
}

/// Calls `temporal_rs::Instant::since`, as [`difference_until`] calls
/// `until`. Its source rounds the difference `other - ns` under the
/// negation of the mode it is given and negates the duration; `until` from
/// `other` to `ns` rounds `ns - other` under the mode itself. The rounding
/// modes are paired so that the two roundings are opposite (each maps a
/// signed mode to the same unsigned one), the range checks and the
/// balancing look at the magnitude only, and both calls check the same
/// settings and instants, so the duration is `ns - other` rounded with the
/// mode of the given name. So the contract states that the result is what
/// `until` gives on the two instants swapped, and under `trunc` the
/// negation of what `until` gives on them as they are.
#[verifier::external_body]
pub(crate) fn difference_since(ns: i128, other: i128, largest: usize, smallest: usize, mode: &str, increment: u32) -> (r: Option<DurationRecord>)
    ensures
        r == instant_until(other, ns, largest, smallest, mode@, increment),
        ns == other ==> (r matches Some(d) ==> d == blank_duration()),
        mode@ == "trunc"@ ==> instant_until(ns, other, largest, smallest, mode@, increment) == negated_option(r),
        (is_valid_epoch_nanoseconds(ns as int) && is_valid_epoch_nanoseconds(other as int)
            && valid_time_difference_settings(largest, smallest, increment)) ==> r is Some,
        valid_time_difference_settings(largest, smallest, increment) ==> (r matches Some(d) ==> balanced_time_duration(
            d,
            largest,
        )),
        valid_time_difference_settings(largest, smallest, increment) ==> (r matches Some(d) ==> forall|md: RoundingMode|
            mode@ == #[trigger] rounding_mode_str(md) ==> duration_time_nanoseconds(d) == round_to_increment(
                ns - other,
                increment * unit_nanoseconds(smallest),
                md,
            )),
{
    let a = Instant::try_new(ns).ok()?;
    let b = Instant::try_new(other).ok()?;
    let mut settings = RsDifferenceSettings::default();
    settings.largest_unit = Some(largest.into());
    settings.smallest_unit = Some(smallest.into());
    settings.rounding_mode = mode.parse().ok();
    settings.increment = RoundingIncrement::try_new(increment).ok();
    let d = a.since(&b, settings).ok()?;
    Some(DurationRecord { years: d.years(), months: d.months(), weeks: d.weeks(), days: d.days(), hours: d.hours(),
        minutes: d.minutes(), seconds: d.seconds(), milliseconds: d.milliseconds(), microseconds: d.microseconds(), nanoseconds: d.nanoseconds() })
}

} // verus!
