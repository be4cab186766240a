//! Calendar dates as `YYYY-MM-DD`, with day arithmetic on a day count
//! (days since 1970-01-01).
use vstd::prelude::*;

use vstd::arithmetic::div_mod::lemma_fundamental_div_mod_converse;

use crate::text::{
    all_ascii_digits, decimal, lemma_decimal_reads_back, lemma_split_then, lemma_split_whole,
    lemma_zero_pad_reads_back, spec_is_ascii_digit, spec_is_whitespace, trim_end, trim_start,
    zero_pad, chars_of, format_padded, is_all_ascii_digits, parse_i32_chars,
    parse_i32_spec, parse_unsigned, parse_unsigned_chars, push_chars, push_char, push_padded,
    push_str, split_char, split_on, trim, trim_chars,
};

verus! {

/// A day count that `i32` holds.
pub open spec fn in_i32(n: int) -> bool {
    i32::MIN <= n <= i32::MAX
}

#[derive(Debug, Clone, Copy, PartialEq, Eq, Structural, PartialOrd, Ord)]
pub struct Date {
    pub year: i32,
    pub month: u8,
    pub day: u8,
}

// ---------------------------------------------------------------------------
// The calendar
// ---------------------------------------------------------------------------
pub open spec fn spec_is_leap(year: int) -> bool {
    year % 4 == 0 && (year % 100 != 0 || year % 400 == 0)
}

pub open spec fn spec_days_in_month(year: int, month: int) -> int {
    if month == 1 || month == 3 || month == 5 || month == 7 || month == 8 || month == 10 || month
        == 12 {
        31
    } else if month == 4 || month == 6 || month == 9 || month == 11 {
        30
    } else if month == 2 {
        if spec_is_leap(year) {
            29
        } else {
            28
        }
    } else {
        0
    }
}

/// A real calendar date.
pub open spec fn valid_ymd(year: int, month: int, day: int) -> bool {
    1 <= month <= 12 && 1 <= day <= spec_days_in_month(year, month)
}

impl Date {
    /// A real calendar date.
    pub open spec fn valid(self) -> bool {
        valid_ymd(self.year as int, self.month as int, self.day as int)
    }

    /// A real calendar date whose day count `i32` holds (the years from
    /// about 5.88 million before 1970 to as many after it).
    pub open spec fn wf(self) -> bool {
        self.valid() && in_i32(self.day_number())
    }

    /// The day count of this date (days since 1970-01-01).
    pub open spec fn day_number(self) -> int {
        spec_days_from_civil(self.year as int, self.month as int, self.day as int)
    }
}

/// Days since 1970-01-01 of a date (Howard Hinnant's `days_from_civil`,
/// with years starting in March).
pub open spec fn spec_days_from_civil(year: int, month: int, day: int) -> int {
    let y = if month <= 2 {
        year - 1
    } else {
        year
    };
    let era = y / 400;
    let yoe = y - era * 400;
    let mp = if month > 2 {
        month - 3
    } else {
        month + 9
    };
    let doy = (153 * mp + 2) / 5 + day - 1;
    let doe = yoe * 365 + yoe / 4 - yoe / 100 + doy;
    era * 146097 + doe - 719468
}

/// The date `(year, month, day)` with a given day count (Howard Hinnant's
/// `civil_from_days`).
pub open spec fn spec_civil_from_days(z0: int) -> (int, int, int) {
    let z = z0 + 719468;
    let era = z / 146097;
    let doe = z - era * 146097;
    let yoe = (doe - doe / 1460 + doe / 36524 - doe / 146096) / 365;
    let y = yoe + era * 400;
    let doy = doe - (365 * yoe + yoe / 4 - yoe / 100);
    let mp = (5 * doy + 2) / 153;
    let d = doy - (153 * mp + 2) / 5 + 1;
    let m = if mp < 10 {
        mp + 3
    } else {
        mp - 9
    };
    let year = if m <= 2 {
        y + 1
    } else {
        y
    };
    (year, m, d)
}

pub open spec fn date_of(t: (int, int, int)) -> Date {
    Date { year: t.0 as i32, month: t.1 as u8, day: t.2 as u8 }
}

// ---------------------------------------------------------------------------
// Bounded facts about the era arithmetic, proved by bit blasting
// ---------------------------------------------------------------------------
proof fn lemma_year_of_era(doe: u32)
    by (bit_vector)
    requires
        doe < 146097,
    ensures
        (doe - doe / 1460 + doe / 36524 - doe / 146096) / 365 < 400,
        365 * ((doe - doe / 1460 + doe / 36524 - doe / 146096) / 365) + ((doe - doe / 1460 + doe
            / 36524 - doe / 146096) / 365) / 4 - ((doe - doe / 1460 + doe / 36524 - doe / 146096)
            / 365) / 100 <= doe,
        doe - (365 * ((doe - doe / 1460 + doe / 36524 - doe / 146096) / 365) + ((doe - doe / 1460
            + doe / 36524 - doe / 146096) / 365) / 4 - ((doe - doe / 1460 + doe / 36524 - doe
            / 146096) / 365) / 100) <= 365,
        doe - (365 * ((doe - doe / 1460 + doe / 36524 - doe / 146096) / 365) + ((doe - doe / 1460
            + doe / 36524 - doe / 146096) / 365) / 4 - ((doe - doe / 1460 + doe / 36524 - doe
            / 146096) / 365) / 100) == 365 ==> ((doe - doe / 1460 + doe / 36524 - doe / 146096)
            / 365) % 4 == 3 && (((doe - doe / 1460 + doe / 36524 - doe / 146096) / 365)
            % 100 != 99 || ((doe - doe / 1460 + doe / 36524 - doe / 146096) / 365) == 399),
{
}

proof fn lemma_year_of_era_inverse_short(yoe: u32, doy: u32)
    by (bit_vector)
    requires
        yoe < 400,
        doy <= 364,
    ensures
        ((365 * yoe + yoe / 4 - yoe / 100 + doy) - (365 * yoe + yoe / 4 - yoe / 100 + doy) / 1460
            + (365 * yoe + yoe / 4 - yoe / 100 + doy) / 36524 - (365 * yoe + yoe / 4 - yoe / 100
            + doy) / 146096) / 365 == yoe + 0,
        365 * yoe + yoe / 4 - yoe / 100 + doy < 146097,
{
}

proof fn lemma_year_of_era_inverse_long(yoe: u32)
    by (bit_vector)
    requires
        yoe < 400,
        yoe % 4 == 3,
        yoe % 100 != 99 || yoe == 399,
    ensures
        ((365 * yoe + yoe / 4 - yoe / 100 + 365) - (365 * yoe + yoe / 4 - yoe / 100 + 365) / 1460
            + (365 * yoe + yoe / 4 - yoe / 100 + 365) / 36524 - (365 * yoe + yoe / 4 - yoe / 100
            + 365) / 146096) / 365 == yoe + 0,
        365 * yoe + yoe / 4 - yoe / 100 + 365 < 146097,
{
}

/// The length of the month at March-based index `mp` (March is 0, February
/// is 11, taken as 29 days).
pub open spec fn mp_length(mp: int) -> int {
    if mp == 11 {
        29
    } else if mp == 1 || mp == 3 || mp == 6 || mp == 8 {
        30
    } else {
        31
    }
}

proof fn lemma_month_of_year(doy: int)
    requires
        0 <= doy <= 365,
    ensures
        ({
            let mp = (5 * doy + 2) / 153;
            let d = doy - (153 * mp + 2) / 5 + 1;
            &&& 0 <= mp <= 11
            &&& 1 <= d <= mp_length(mp)
            &&& mp == 11 && d == 29 ==> doy == 365
        }),
{
}

proof fn lemma_month_of_year_inverse(mp: int, d: int)
    requires
        0 <= mp <= 11,
        1 <= d <= mp_length(mp),
    ensures
        ({
            let doy = (153 * mp + 2) / 5 + d - 1;
            &&& (5 * doy + 2) / 153 == mp
            &&& 0 <= doy <= 365
            &&& doy == 365 <==> (mp == 11 && d == 29)
        }),
{
}

proof fn lemma_div_unique(x: int, d: int, q: int)
    requires
        d > 0,
        q * d <= x < q * d + d,
    ensures
        x / d == q,
{
    assert(x / d == q) by (nonlinear_arith)
        requires
            d > 0,
            q * d <= x < q * d + d,
    ;
}

proof fn lemma_div_bounds(x: int, d: int)
    requires
        d > 0,
    ensures
        (x / d) * d <= x < (x / d) * d + d,
{
    assert((x / d) * d <= x < (x / d) * d + d) by (nonlinear_arith)
        requires
            d > 0,
    ;
}

/// A leap year, seen from inside its 400-year era.
proof fn lemma_leap_in_era(era: int, yoe: int)
    requires
        0 <= yoe < 400,
    ensures
        spec_is_leap(era * 400 + yoe + 1) <==> (yoe % 4 == 3 && (yoe % 100 != 99 || yoe == 399)),
{
    let y = era * 400 + yoe + 1;
    assert(y % 4 == (yoe + 1) % 4) by (nonlinear_arith)
        requires
            y == era * 400 + yoe + 1,
    ;
    assert(y % 100 == (yoe + 1) % 100) by (nonlinear_arith)
        requires
            y == era * 400 + yoe + 1,
    ;
    assert(y % 400 == (yoe + 1) % 400) by (nonlinear_arith)
        requires
            y == era * 400 + yoe + 1,
    ;
}

// ---------------------------------------------------------------------------
// Laws of the day count
// ---------------------------------------------------------------------------
/// Every day count that `i32` holds names a real date, whose year `i32`
/// holds too, and that date counts back to the same number.
pub proof fn lemma_civil_from_days(z0: int)
    requires
        in_i32(z0),
    ensures
        ({
            let t = spec_civil_from_days(z0);
            &&& valid_ymd(t.0, t.1, t.2)
            &&& -5_900_000 <= t.0 <= 5_900_000
            &&& spec_days_from_civil(t.0, t.1, t.2) == z0
            &&& date_of(t).year == t.0 && date_of(t).month == t.1 && date_of(t).day == t.2
        }),
{
    let z = z0 + 719468;
    let era = z / 146097;
    lemma_div_bounds(z, 146097);
    let doe = z - era * 146097;
    assert(0 <= doe < 146097);
    lemma_year_of_era(doe as u32);
    let yoe = (doe - doe / 1460 + doe / 36524 - doe / 146096) / 365;
    let doy = doe - (365 * yoe + yoe / 4 - yoe / 100);
    lemma_month_of_year(doy as int);
    let mp = (5 * doy + 2) / 153;
    let d = doy - (153 * mp + 2) / 5 + 1;
    let y = yoe + era * 400;
    let m = if mp < 10 {
        mp + 3
    } else {
        mp - 9
    };
    let year = if m <= 2 {
        y + 1
    } else {
        y
    };
    assert(spec_civil_from_days(z0) == (year, m, d));
    assert(-14700 <= era <= 14704) by (nonlinear_arith)
        requires
            era * 146097 <= z < era * 146097 + 146097,
            i32::MIN + 719468 <= z <= i32::MAX + 719468,
    ;
    // the date is real
    if m == 2 {
        lemma_leap_in_era(era, yoe);
        assert(year == era * 400 + yoe + 1);
    }
    // counting back
    let yy = if m <= 2 {
        year - 1
    } else {
        year
    };
    assert(yy == era * 400 + yoe);
    lemma_div_unique(yy, 400, era);
    let mp2 = if m > 2 {
        m - 3
    } else {
        m + 9
    };
    assert(mp2 == mp);
}

/// Every real date counts to a day number that names the same date again;
/// a date within five million years of 1970 has a day count that `i32`
/// holds.
pub proof fn lemma_days_from_civil(year: int, month: int, day: int)
    requires
        valid_ymd(year, month, day),
    ensures
        spec_civil_from_days(spec_days_from_civil(year, month, day)) == (year, month, day),
        -5_000_000 <= year <= 5_000_000 ==> -1_828_000_000 <= spec_days_from_civil(year, month, day)
            <= 1_827_000_000,
{
    let y = if month <= 2 {
        year - 1
    } else {
        year
    };
    let era = y / 400;
    lemma_div_bounds(y, 400);
    let yoe = y - era * 400;
    let mp = if month > 2 {
        month - 3
    } else {
        month + 9
    };
    lemma_month_of_year_inverse(mp, day);
    let doy = (153 * mp + 2) / 5 + day - 1;
    if doy == 365 {
        lemma_leap_in_era(era, yoe);
        assert(year == era * 400 + yoe + 1);
        lemma_year_of_era_inverse_long(yoe as u32);
    } else {
        lemma_year_of_era_inverse_short(yoe as u32, doy as u32);
    }
    let doe = yoe * 365 + yoe / 4 - yoe / 100 + doy;
    let z0 = era * 146097 + doe - 719468;
    assert(spec_days_from_civil(year, month, day) == z0);
    if -5_000_000 <= year <= 5_000_000 {
        assert(-12501 <= era <= 12500) by (nonlinear_arith)
            requires
                era * 400 <= y < era * 400 + 400,
                -5_000_001 <= y <= 5_000_000,
        ;
        assert(-1_828_000_000 <= z0 <= 1_827_000_000) by (nonlinear_arith)
            requires
                z0 == era * 146097 + doe - 719468,
                -12501 <= era <= 12500,
                0 <= doe < 146097,
        ;
    }
    // back again
    let z = z0 + 719468;
    lemma_div_unique(z, 146097, era);
}

/// A real date within five million years of 1970 is well formed.
pub proof fn lemma_wf_within_five_million_years(d: Date)
    requires
        d.valid(),
        -5_000_000 <= d.year <= 5_000_000,
    ensures
        d.wf(),
{
    lemma_days_from_civil(d.year as int, d.month as int, d.day as int);
}

/// Day arithmetic on a date within five million years of 1970 stays within
/// `i32` for any two steps of at most a hundred million days, so the laws
/// of `add_days` and `days_until` apply to it.
pub proof fn lemma_day_arithmetic_within_five_million_years(d: Date, a: int, b: int)
    requires
        d.valid(),
        -5_000_000 <= d.year <= 5_000_000,
        -100_000_000 <= a <= 100_000_000,
        -100_000_000 <= b <= 100_000_000,
    ensures
        d.wf(),
        in_i32(d.day_number() + a),
        in_i32(d.day_number() + a + b),
{
    lemma_days_from_civil(d.year as int, d.month as int, d.day as int);
    let z = d.day_number();
    assert(-1_828_000_000 <= z <= 1_827_000_000);
    assert(in_i32(z) && in_i32(z + a) && in_i32(z + a + b));
}

/// Adding days and counting them back agree.
pub proof fn lemma_add_days_days_until(d: Date, n: int)
    requires
        d.wf(),
        in_i32(d.day_number() + n),
    ensures
        date_of(spec_civil_from_days(d.day_number() + n)).wf(),
        date_of(spec_civil_from_days(d.day_number() + n)).day_number() - d.day_number() == n,
{
    lemma_civil_from_days(d.day_number() + n);
}

/// Adding zero days gives the same date back.
pub proof fn lemma_add_zero_days(d: Date)
    requires
        d.wf(),
    ensures
        date_of(spec_civil_from_days(d.day_number())) == d,
{
    lemma_days_from_civil(d.year as int, d.month as int, d.day as int);
}

/// Adding `a` days and then `b` days is adding `a + b` days.
pub proof fn lemma_add_days_assoc(d: Date, a: int, b: int)
    requires
        d.wf(),
        in_i32(d.day_number() + a),
        in_i32(d.day_number() + a + b),
    ensures
        date_of(spec_civil_from_days(date_of(spec_civil_from_days(d.day_number() + a)).day_number()
            + b)) == date_of(spec_civil_from_days(d.day_number() + a + b)),
{
    lemma_civil_from_days(d.day_number() + a);
}

// ---------------------------------------------------------------------------
// Executable calendar
// ---------------------------------------------------------------------------
fn is_leap(year: i32) -> (r: bool)
    ensures
        r == spec_is_leap(year as int),
{
    year % 4 == 0 && (year % 100 != 0 || year % 400 == 0)
}

fn days_in_month(year: i32, month: u8) -> (r: u8)
    ensures
        r as int == spec_days_in_month(year as int, month as int),
{
    match month {
        1 | 3 | 5 | 7 | 8 | 10 | 12 => 31,
        4 | 6 | 9 | 11 => 30,
        2 => {
            if is_leap(year) {
                29
            } else {
                28
            }
        },
        _ => 0,
    }
}

/// The day count of any real calendar date, in 64 bits (every `i32` year
/// fits).
fn wide_day_number(date: Date) -> (r: i64)
    requires
        date.valid(),
    ensures
        r as int == date.day_number(),
{
    let y: i64 = if date.month <= 2 {
        date.year as i64 - 1
    } else {
        date.year as i64
    };
    let era: i64 = if y >= 0 {
        y / 400
    } else {
        (y - 399) / 400
    };
    proof {
        if y < 0 {
            let q = -((399 - y) / 400);
            assert(era == q);
            lemma_div_bounds(399 - y, 400);
            assert(q * 400 <= y < q * 400 + 400);
            lemma_div_unique(y as int, 400, q);
        }
    }
    let yoe: i64 = y - era * 400;
    let mp: i64 = if date.month > 2 {
        (date.month - 3) as i64
    } else {
        (date.month + 9) as i64
    };
    let doy: i64 = (153 * mp + 2) / 5 + date.day as i64 - 1;
    let doe: i64 = yoe * 365 + yoe / 4 - yoe / 100 + doy;
    era * 146_097 + doe - 719_468
}

fn days_from_civil(date: Date) -> (r: i32)
    requires
        date.wf(),
    ensures
        r as int == date.day_number(),
{
    let n = wide_day_number(date);
    n as i32
}

#[verifier::rlimit(50)]
#[verifier::spinoff_prover]
fn civil_from_days(z: i32) -> (r: Date)
    ensures
        r == date_of(spec_civil_from_days(z as int)),
        r.wf(),
        r.day_number() == z,
{
    proof {
        lemma_civil_from_days(z as int);
    }
    let z: i64 = z as i64 + 719_468;
    let era: i64 = if z >= 0 {
        z / 146_097
    } else {
        (z - 146_096) / 146_097
    };
    proof {
        if z < 0 {
            let q = -((146096 - z) / 146097);
            assert(era == q);
            lemma_div_bounds(146096 - z, 146097);
            lemma_div_unique(z as int, 146097, q);
        }
        lemma_div_bounds(z as int, 146097);
        lemma_year_of_era((z - era * 146097) as u32);
    }
    let doe: i64 = z - era * 146_097;
    let yoe: i64 = (doe - doe / 1460 + doe / 36_524 - doe / 146_096) / 365;
    let y: i64 = yoe + era * 400;
    let doy: i64 = doe - (365 * yoe + yoe / 4 - yoe / 100);
    proof {
        lemma_month_of_year(doy as int);
    }
    let mp: i64 = (5 * doy + 2) / 153;
    let d: i64 = doy - (153 * mp + 2) / 5 + 1;
    let m: i64 = if mp < 10 {
        mp + 3
    } else {
        mp - 9
    };
    let year: i64 = if m <= 2 {
        y + 1
    } else {
        y
    };
    Date { year: year as i32, month: m as u8, day: d as u8 }
}

// ---------------------------------------------------------------------------
// The clock
// ---------------------------------------------------------------------------
#[verifier::external_type_specification]
#[verifier::external_body]
pub struct ExSystemTime(std::time::SystemTime);

#[verifier::external_type_specification]
#[verifier::external_body]
pub struct ExSystemTimeError(std::time::SystemTimeError);

/// `SystemTime::now`: the current time of the system clock.
#[verifier::external_body]
fn system_now() -> std::time::SystemTime {
    std::time::SystemTime::now()
}

/// `SystemTime::duration_since(UNIX_EPOCH)`: the time elapsed since the Unix
/// epoch, or an error when the clock stands before it.
#[verifier::external_body]
fn since_unix_epoch(t: &std::time::SystemTime) -> Result<
    core::time::Duration,
    std::time::SystemTimeError,
> {
    t.duration_since(std::time::UNIX_EPOCH)
}

/// `Duration::as_secs`: the whole seconds of a duration.
#[verifier::external_body]
fn duration_secs(d: &core::time::Duration) -> u64 {
    d.as_secs()
}

/// `Duration::as_micros`: the whole microseconds of a duration.
#[verifier::external_body]
pub(crate) fn duration_micros(d: &core::time::Duration) -> u128 {
    d.as_micros()
}

/// The system time as elapsed time since the Unix epoch, if the clock stands
/// after it.
pub(crate) fn elapsed_since_epoch() -> Option<core::time::Duration> {
    let now = system_now();
    match since_unix_epoch(&now) {
        Ok(d) => Some(d),
        Err(_) => None,
    }
}

/// The day count of a Unix time in seconds, taken to 32 bits as `i32`
/// keeps the low bits of a wider count.
pub open spec fn unix_day(secs: u64) -> i32 {
    ((secs / 86400) as i64) as i32
}

/// The calendar date of a Unix time in seconds (UTC), from its day count
/// taken to `i32`.
pub open spec fn spec_date_of_unix_seconds(secs: u64) -> Date {
    date_of(spec_civil_from_days(unix_day(secs) as int))
}

/// The calendar date of a Unix time in seconds (UTC).
pub fn date_of_unix_seconds(secs: u64) -> (r: Date)
    ensures
        r.wf(),
        r == spec_date_of_unix_seconds(secs),
        (secs / 86400) as int <= i32::MAX ==> r == date_of(
            spec_civil_from_days((secs / 86400) as int),
        ),
{
    let days = (secs / 86_400) as i64;
    let z = #[verifier::truncate] (days as i32);
    civil_from_days(z)
}

// ---------------------------------------------------------------------------
// Dates
// ---------------------------------------------------------------------------
impl Date {
    /// The date with these fields, if it is a real calendar date.
    pub fn new(year: i32, month: u8, day: u8) -> (r: Option<Date>)
        ensures
            r == (if valid_ymd(year as int, month as int, day as int) {
                Some(Date { year, month, day })
            } else {
                None::<Date>
            }),
    {
        if !(1 <= month && month <= 12) {
            return None;
        }
        if day == 0 || day > days_in_month(year, month) {
            return None;
        }
        Some(Date { year, month, day })
    }

    /// Today's date in UTC, from the system clock (1970-01-01 when the clock
    /// stands before the epoch).
    pub fn today() -> (r: Date)
        ensures
            r.wf(),
            exists|secs: u64| r == spec_date_of_unix_seconds(secs),
    {
        let secs = match elapsed_since_epoch() {
            Some(d) => duration_secs(&d),
            None => 0,
        };
        date_of_unix_seconds(secs)
    }

    /// The date `days` days later (earlier for negative `days`).
    pub fn add_days(self, days: i32) -> (r: Date)
        requires
            self.wf(),
            in_i32(self.day_number() + days),
        ensures
            r == date_of(spec_civil_from_days(self.day_number() + days)),
            r.wf(),
            r.day_number() == self.day_number() + days,
    {
        let base = wide_day_number(self);
        civil_from_days((base + days as i64) as i32)
    }

    /// `add_days` when the date is well formed and the result's day count
    /// fits in `i32`; `None` otherwise.
    pub fn checked_add_days(self, days: i32) -> (r: Option<Date>)
        ensures
            r == (if self.wf() && in_i32(self.day_number() + days) {
                Some(date_of(spec_civil_from_days(self.day_number() + days)))
            } else {
                None::<Date>
            }),
    {
        if !self.is_wf() {
            return None;
        }
        let target = wide_day_number(self) + days as i64;
        if target < i32::MIN as i64 || target > i32::MAX as i64 {
            None
        } else {
            Some(self.add_days(days))
        }
    }

    /// The number of days from `self` to `other` (negative when `other` is
    /// earlier).
    pub fn days_until(self, other: Date) -> (r: i32)
        requires
            self.wf(),
            other.wf(),
            i32::MIN <= other.day_number() - self.day_number() <= i32::MAX,
        ensures
            r == other.day_number() - self.day_number(),
    {
        days_from_civil(other) - days_from_civil(self)
    }

    /// Whether this is a real calendar date whose day count `i32` holds.
    pub fn is_wf(self) -> (r: bool)
        ensures
            r == self.wf(),
    {
        if Date::new(self.year, self.month, self.day).is_none() {
            return false;
        }
        let n = wide_day_number(self);
        i32::MIN as i64 <= n && n <= i32::MAX as i64
    }

    /// The number of days from `self` to `other`, when both are real
    /// calendar dates and the count fits in `i32`.
    pub fn checked_days_until(self, other: Date) -> (r: Option<i32>)
        ensures
            r == (if self.valid() && other.valid() && i32::MIN <= other.day_number() - self.day_number()
                <= i32::MAX {
                Some((other.day_number() - self.day_number()) as i32)
            } else {
                None::<i32>
            }),
    {
        if Date::new(self.year, self.month, self.day).is_none() || Date::new(
            other.year,
            other.month,
            other.day,
        ).is_none() {
            return None;
        }
        let a = wide_day_number(self);
        let b = wide_day_number(other);
        let diff = b - a;
        if diff < i32::MIN as i64 || diff > i32::MAX as i64 {
            None
        } else {
            Some(diff as i32)
        }
    }

    /// `YYYYMMDD`.
    pub fn compact(self) -> (r: String)
        ensures
            r@ == self.spec_compact(),
    {
        let mut out = String::new();
        push_padded(&mut out, self.year as i64, 4);
        push_padded(&mut out, self.month as i64, 2);
        push_padded(&mut out, self.day as i64, 2);
        out
    }

    pub open spec fn spec_compact(self) -> Seq<char> {
        format_padded(self.year as int, 4) + format_padded(self.month as int, 2) + format_padded(
            self.day as int,
            2,
        )
    }

    /// `YYYY-MM-DD`.
    pub fn to_string(self) -> (r: String)
        ensures
            r@ == self.spec_to_string(),
    {
        let mut out = String::new();
        push_padded(&mut out, self.year as i64, 4);
        push_char(&mut out, '-');
        push_padded(&mut out, self.month as i64, 2);
        push_char(&mut out, '-');
        push_padded(&mut out, self.day as i64, 2);
        out
    }

    pub open spec fn spec_to_string(self) -> Seq<char> {
        format_padded(self.year as int, 4) + seq!['-'] + format_padded(self.month as int, 2) + seq![
            '-',
        ] + format_padded(self.day as int, 2)
    }
}

// ---------------------------------------------------------------------------
// Parsing
// ---------------------------------------------------------------------------
/// `s` with every `a` replaced by `b`.
pub open spec fn replace_char(s: Seq<char>, a: char, b: char) -> Seq<char> {
    s.map_values(|c: char| if c == a { b } else { c })
}

/// The date text in `YYYY-MM-DD` form: eight digits are split as
/// `YYYYMMDD`, otherwise slashes count as dashes.
pub open spec fn dashed_date_text(s: Seq<char>) -> Seq<char> {
    if s.len() == 8 && all_ascii_digits(s) {
        s.subrange(0, 4) + seq!['-'] + s.subrange(4, 6) + seq!['-'] + s.subrange(6, 8)
    } else {
        replace_char(s, '/', '-')
    }
}

/// What `Date::parse` gives for `input`: a date, or the error message.
pub open spec fn spec_parse_date(input: Seq<char>) -> Result<Date, Seq<char>> {
    let s = trim(input);
    let parts = split_char(dashed_date_text(s), '-');
    if parts.len() != 3 {
        Err("expected YYYY-MM-DD, got "@ + s)
    } else {
        match parse_i32_spec(parts[0]) {
            None => Err("bad year in "@ + s),
            Some(y) => match parse_unsigned(parts[1], 255) {
                None => Err("bad month in "@ + s),
                Some(m) => match parse_unsigned(parts[2], 255) {
                    None => Err("bad day in "@ + s),
                    Some(d) => if valid_ymd(y, m as int, d as int) {
                        Ok(Date { year: y as i32, month: m as u8, day: d as u8 })
                    } else {
                        Err("invalid date "@ + s)
                    },
                },
            },
        }
    }
}

fn message(prefix: &str, s: &[char]) -> (r: String)
    ensures
        r@ == prefix@ + s@,
{
    let mut out = String::new();
    push_str(&mut out, prefix);
    push_chars(&mut out, s);
    out
}

fn dashed_date_chars(s: &[char]) -> (r: Vec<char>)
    ensures
        r@ == dashed_date_text(s@),
{
    if s.len() == 8 && is_all_ascii_digits(s) {
        let mut r: Vec<char> = Vec::new();
        let mut i: usize = 0;
        while i < 8
            invariant
                s@.len() == 8,
                0 <= i <= 8,
                r@ == (if i <= 4 {
                    s@.subrange(0, i as int)
                } else if i <= 6 {
                    s@.subrange(0, 4) + seq!['-'] + s@.subrange(4, i as int)
                } else {
                    s@.subrange(0, 4) + seq!['-'] + s@.subrange(4, 6) + seq!['-'] + s@.subrange(
                        6,
                        i as int,
                    )
                }),
            decreases 8 - i,
        {
            if i == 4 || i == 6 {
                r.push('-');
            }
            r.push(s[i]);
            i = i + 1;
        }
        r
    } else {
        let mut r: Vec<char> = Vec::new();
        let mut i: usize = 0;
        while i < s.len()
            invariant
                0 <= i <= s.len(),
                r@ == replace_char(s@.take(i as int), '/', '-'),
            decreases s.len() - i,
        {
            r.push(if s[i] == '/' { '-' } else { s[i] });
            assert(replace_char(s@.take(i + 1), '/', '-') == replace_char(s@.take(i as int), '/', '-').push(
                if s@[i as int] == '/' { '-' } else { s@[i as int] },
            ));
            i = i + 1;
        }
        assert(s@.take(s.len() as int) == s@);
        r
    }
}

impl Date {
    /// Parses `YYYY-MM-DD`, `YYYY/MM/DD` or `YYYYMMDD` (surrounding white
    /// space allowed) into a real calendar date.
    pub fn parse(input: &str) -> (r: Result<Date, String>)
        ensures
            match r {
                Ok(d) => spec_parse_date(input@) == Ok::<Date, Seq<char>>(d),
                Err(e) => spec_parse_date(input@) == Err::<Date, Seq<char>>(e@),
            },
    {
        let all = chars_of(input);
        let s = trim_chars(&all);
        let dashed = dashed_date_chars(&s);
        let parts = split_on(&dashed, '-');
        if parts.len() != 3 {
            return Err(message("expected YYYY-MM-DD, got ", &s));
        }
        let year = match parse_i32_chars(&parts[0]) {
            Some(y) => y,
            None => {
                return Err(message("bad year in ", &s));
            },
        };
        let month = match parse_unsigned_chars(&parts[1], 255) {
            Some(m) => m as u8,
            None => {
                return Err(message("bad month in ", &s));
            },
        };
        let day = match parse_unsigned_chars(&parts[2], 255) {
            Some(d) => d as u8,
            None => {
                return Err(message("bad day in ", &s));
            },
        };
        match Date::new(year, month, day) {
            Some(d) => Ok(d),
            None => Err(message("invalid date ", &s)),
        }
    }
}

impl core::str::FromStr for Date {
    type Err = String;

    fn from_str(s: &str) -> (r: Result<Date, String>)
        ensures
            match r {
                Ok(d) => spec_parse_date(s@) == Ok::<Date, Seq<char>>(d),
                Err(e) => spec_parse_date(s@) == Err::<Date, Seq<char>>(e@),
            },
    {
        Date::parse(s)
    }
}

/// The text before the first `T` or space.
pub open spec fn date_head(s: Seq<char>) -> Seq<char>
    decreases s.len(),
{
    if s.len() == 0 {
        s
    } else if s[0] == 'T' || s[0] == ' ' {
        Seq::empty()
    } else {
        seq![s[0]] + date_head(s.drop_first())
    }
}

proof fn lemma_date_head(s: Seq<char>, i: int)
    requires
        0 <= i <= s.len(),
        forall|j: int| 0 <= j < i ==> s[j] != 'T' && s[j] != ' ',
        i == s.len() || s[i] == 'T' || s[i] == ' ',
    ensures
        date_head(s) == s.take(i),
    decreases i,
{
    if i > 0 {
        lemma_date_head(s.drop_first(), i - 1);
        assert(seq![s[0]] + s.drop_first().take(i - 1) == s.take(i));
    } else if s.len() > 0 {
        assert(s.take(0) == Seq::<char>::empty());
    }
}

/// The date at the start of a date-time text such as `2026-09-20 00:00:00`
/// or `2026-09-20T00:00:00`.
pub fn parse_datetime(value: &str) -> (r: Option<Date>)
    ensures
        r == (match spec_parse_date(date_head(value@)) {
            Ok(d) => Some(d),
            Err(_) => None::<Date>,
        }),
{
    let v = chars_of(value);
    let mut i: usize = 0;
    while i < v.len() && v[i] != 'T' && v[i] != ' '
        invariant
            0 <= i <= v.len(),
            forall|j: int| 0 <= j < i ==> v@[j] != 'T' && v@[j] != ' ',
        decreases v.len() - i,
    {
        i = i + 1;
    }
    proof {
        lemma_date_head(v@, i as int);
    }
    let head = crate::text::string_of_range(&v, 0, i);
    match Date::parse(head.as_str()) {
        Ok(d) => Some(d),
        Err(_) => None,
    }
}


// ---------------------------------------------------------------------------
// Printing and parsing back
// ---------------------------------------------------------------------------
/// A zero-padded decimal reads back as its number: digits only, so no
/// separator and no white space, and the unsigned parse gives the number.
proof fn lemma_padded_reads_back(n: nat, width: nat, max: nat)
    requires
        n <= max,
    ensures
        ({
            let p = zero_pad(decimal(n), width);
            &&& p.len() >= 1
            &&& p.len() >= width
            &&& all_ascii_digits(p)
            &&& !p.contains('-')
            &&& !p.contains('/')
            &&& !spec_is_whitespace(p[0])
            &&& !spec_is_whitespace(p.last())
            &&& p[0] != '-' && p[0] != '+'
            &&& parse_unsigned(p, max) == Some(n)
        }),
{
    lemma_decimal_reads_back(n);
    lemma_zero_pad_reads_back(decimal(n), width);
    let p = zero_pad(decimal(n), width);
    assert(spec_is_ascii_digit(p[0]));
    assert(spec_is_ascii_digit(p[p.len() - 1]));
    assert(!p.contains('-')) by {
        if p.contains('-') {
            let i = choose|i: int| 0 <= i < p.len() && p[i] == '-';
            assert(spec_is_ascii_digit(p[i]));
        }
    }
    assert(!p.contains('/')) by {
        if p.contains('/') {
            let i = choose|i: int| 0 <= i < p.len() && p[i] == '/';
            assert(spec_is_ascii_digit(p[i]));
        }
    }
}

/// Printing a date as `YYYY-MM-DD` and parsing the text gives the date back,
/// for years from 0 on (they print without a sign).
pub proof fn lemma_parse_to_string(d: Date)
    requires
        d.valid(),
        d.year >= 0,
    ensures
        spec_parse_date(d.spec_to_string()) == Ok::<Date, Seq<char>>(d),
{
    lemma_padded_reads_back(d.year as nat, 4, 0x7fff_ffff);
    lemma_padded_reads_back(d.month as nat, 2, 255);
    lemma_padded_reads_back(d.day as nat, 2, 255);
    let py = zero_pad(decimal(d.year as nat), 4);
    let pm = zero_pad(decimal(d.month as nat), 2);
    let pd = zero_pad(decimal(d.day as nat), 2);
    let s = d.spec_to_string();
    assert(s == py + seq!['-'] + pm + seq!['-'] + pd);
    assert(s[0] == py[0]);
    assert(s.last() == pd.last());
    assert(trim_start(s) == s);
    assert(trim_end(s) == s);
    assert(trim(s) == s);
    assert(!s.contains('/')) by {
        if s.contains('/') {
            let i = choose|i: int| 0 <= i < s.len() && s[i] == '/';
            if i < py.len() {
                assert(py[i] == '/');
            } else if i == py.len() {
            } else if i < py.len() + 1 + pm.len() {
                assert(pm[i - py.len() - 1] == '/');
            } else if i == py.len() + 1 + pm.len() {
            } else {
                assert(pd[i - py.len() - 2 - pm.len()] == '/');
            }
        }
    }
    assert(dashed_date_text(s) == s) by {
        assert(replace_char(s, '/', '-') =~= s);
    }
    lemma_split_whole(py, '-');
    lemma_split_then(py, '-', pm);
    lemma_split_then(py + seq!['-'] + pm, '-', pd);
    let parts = split_char(s, '-');
    assert(parts =~= seq![py, pm, pd]);
    assert(parse_i32_spec(py) == Some(d.year as int));
}

/// Printing a date as `YYYYMMDD` and parsing the text gives the date back,
/// for years 0 to 9999 (they print as four digits).
pub proof fn lemma_parse_compact(d: Date)
    requires
        d.valid(),
        0 <= d.year <= 9999,
    ensures
        spec_parse_date(d.spec_compact()) == Ok::<Date, Seq<char>>(d),
{
    lemma_decimal_reads_back(d.year as nat);
    lemma_decimal_reads_back(d.month as nat);
    lemma_decimal_reads_back(d.day as nat);
    lemma_padded_reads_back(d.year as nat, 4, 0x7fff_ffff);
    lemma_padded_reads_back(d.month as nat, 2, 255);
    lemma_padded_reads_back(d.day as nat, 2, 255);
    let py = zero_pad(decimal(d.year as nat), 4);
    let pm = zero_pad(decimal(d.month as nat), 2);
    let pd = zero_pad(decimal(d.day as nat), 2);
    let c = d.spec_compact();
    assert(c == py + pm + pd);
    assert(py.len() == 4 && pm.len() == 2 && pd.len() == 2);
    assert(all_ascii_digits(c)) by {
        assert forall|i: int| 0 <= i < c.len() implies spec_is_ascii_digit(#[trigger] c[i]) by {
            if i < 4 {
                assert(c[i] == py[i]);
            } else if i < 6 {
                assert(c[i] == pm[i - 4]);
            } else {
                assert(c[i] == pd[i - 6]);
            }
        }
    }
    assert(c[0] == py[0]);
    assert(c.last() == pd.last());
    assert(trim_start(c) == c);
    assert(trim_end(c) == c);
    assert(trim(c) == c);
    assert(dashed_date_text(c) =~= py + seq!['-'] + pm + seq!['-'] + pd);
    lemma_split_whole(py, '-');
    lemma_split_then(py, '-', pm);
    lemma_split_then(py + seq!['-'] + pm, '-', pd);
    assert(split_char(dashed_date_text(c), '-') =~= seq![py, pm, pd]);
    assert(parse_i32_spec(py) == Some(d.year as int));
}


// ---------------------------------------------------------------------------
// Order of dates
// ---------------------------------------------------------------------------
/// `a` comes before `b` in the calendar: by year, then month, then day (the
/// order that `Date`'s derived `Ord` gives).
pub open spec fn date_before(a: Date, b: Date) -> bool {
    a.year < b.year || (a.year == b.year && (a.month < b.month || (a.month == b.month && a.day
        < b.day)))
}

/// The months counted from March of year 0 (January of year `y` is `12y - 2`).
pub open spec fn month_key(year: int, month: int) -> int {
    12 * year + month - 3
}

/// The calendar year of a month count.
pub open spec fn key_year(k: int) -> int {
    if k % 12 >= 10 {
        k / 12 + 1
    } else {
        k / 12
    }
}

/// The calendar month of a month count.
pub open spec fn key_month(k: int) -> int {
    if k % 12 < 10 {
        k % 12 + 3
    } else {
        k % 12 - 9
    }
}

/// Days from the start of the March-based year `yp` of its 400-year era,
/// plus the era's days (Hinnant's count, without the epoch shift).
pub open spec fn year_start(yp: int) -> int {
    let era = yp / 400;
    let yoe = yp - era * 400;
    era * 146097 + yoe * 365 + yoe / 4 - yoe / 100
}

/// The day count of the first day of a month count.
pub open spec fn month_start(k: int) -> int {
    year_start(k / 12) + (153 * (k % 12) + 2) / 5 - 719468
}

proof fn lemma_key_parts(year: int, month: int)
    requires
        1 <= month <= 12,
    ensures
        key_year(month_key(year, month)) == year,
        key_month(month_key(year, month)) == month,
        month_key(year, month) / 12 == (if month <= 2 { year - 1 } else { year }),
        month_key(year, month) % 12 == (if month > 2 { month - 3 } else { month + 9 }),
{
    let k = month_key(year, month);
    if month <= 2 {
        lemma_fundamental_div_mod_converse(k, 12, year - 1, month + 9);
    } else {
        lemma_fundamental_div_mod_converse(k, 12, year, month - 3);
    }
}

proof fn lemma_day_number_parts(year: int, month: int, day: int)
    requires
        1 <= month <= 12,
    ensures
        spec_days_from_civil(year, month, day) == month_start(month_key(year, month)) + day - 1,
{
    lemma_key_parts(year, month);
}

/// The year that follows a March-based year starts 365 days later, 366
/// when the calendar year it ends in is a leap year.
proof fn lemma_year_start_step(yp: int)
    ensures
        year_start(yp + 1) == year_start(yp) + 365 + (if spec_is_leap(yp + 1) { 1int } else { 0 }),
{
    let era = yp / 400;
    let yoe = yp - era * 400;
    assert(0 <= yoe < 400);
    if yoe < 399 {
        lemma_fundamental_div_mod_converse(yp + 1, 400, era, yoe + 1);
        let q4 = (yoe + 1) / 4;
        let r4 = (yoe + 1) % 4;
        lemma_fundamental_div_mod_converse(yp + 1, 4, era * 100 + q4, r4);
        let q100 = (yoe + 1) / 100;
        let r100 = (yoe + 1) % 100;
        lemma_fundamental_div_mod_converse(yp + 1, 100, era * 4 + q100, r100);
        lemma_fundamental_div_mod_converse(yp + 1, 400, era, yoe + 1);
        assert((yoe + 1) / 4 - yoe / 4 == (if r4 == 0 { 1int } else { 0 }));
        assert((yoe + 1) / 100 - yoe / 100 == (if r100 == 0 { 1int } else { 0 }));
        assert(r100 == 0 ==> r4 == 0);
    } else {
        lemma_fundamental_div_mod_converse(yp + 1, 400, era + 1, 0);
        lemma_fundamental_div_mod_converse(yp + 1, 4, era * 100 + 100, 0);
    }
}

/// The next month starts as many days later as this month has.
proof fn lemma_month_start_step(k: int)
    ensures
        month_start(k + 1) == month_start(k) + spec_days_in_month(key_year(k), key_month(k)),
{
    let yp = k / 12;
    let mp = k % 12;
    if mp < 11 {
        lemma_fundamental_div_mod_converse(k + 1, 12, yp, mp + 1);
        assert(mp == 0 || mp == 1 || mp == 2 || mp == 3 || mp == 4 || mp == 5 || mp == 6 || mp
            == 7 || mp == 8 || mp == 9 || mp == 10);
    } else {
        lemma_fundamental_div_mod_converse(k + 1, 12, yp + 1, 0);
        lemma_year_start_step(yp);
    }
}

/// Month starts grow: a month ends before any later month starts.
proof fn lemma_month_starts_grow(k1: int, k2: int)
    requires
        k1 < k2,
    ensures
        month_start(k1) + spec_days_in_month(key_year(k1), key_month(k1)) <= month_start(k2),
    decreases k2 - k1,
{
    lemma_month_start_step(k1);
    if k1 + 1 < k2 {
        lemma_month_starts_grow(k1 + 1, k2);
        lemma_month_start_step(k1 + 1);
        assert(spec_days_in_month(key_year(k1 + 1), key_month(k1 + 1)) >= 28);
    }
}

proof fn lemma_before_day_number(a: Date, b: Date)
    requires
        a.valid(),
        b.valid(),
        date_before(a, b),
    ensures
        a.day_number() < b.day_number(),
{
    lemma_day_number_parts(a.year as int, a.month as int, a.day as int);
    lemma_day_number_parts(b.year as int, b.month as int, b.day as int);
    lemma_key_parts(a.year as int, a.month as int);
    lemma_key_parts(b.year as int, b.month as int);
    let ka = month_key(a.year as int, a.month as int);
    let kb = month_key(b.year as int, b.month as int);
    if ka < kb {
        lemma_month_starts_grow(ka, kb);
    }
}

/// Day counts order dates as the calendar does: a date comes before
/// another exactly when its day count is smaller, and two dates have the
/// same day count exactly when they are the same date.
pub proof fn lemma_day_number_order(a: Date, b: Date)
    requires
        a.valid(),
        b.valid(),
    ensures
        (a.day_number() < b.day_number()) == date_before(a, b),
        (a.day_number() == b.day_number()) == (a == b),
{
    if date_before(a, b) {
        lemma_before_day_number(a, b);
    } else if date_before(b, a) {
        lemma_before_day_number(b, a);
    } else {
        assert(a == b);
    }
}

/// Adding a positive day count gives a later date, a negative one an
/// earlier date, and zero the same date.
pub proof fn lemma_add_days_order(d: Date, n: int)
    requires
        d.wf(),
        in_i32(d.day_number() + n),
    ensures
        n > 0 ==> date_before(d, date_of(spec_civil_from_days(d.day_number() + n))),
        n < 0 ==> date_before(date_of(spec_civil_from_days(d.day_number() + n)), d),
        n == 0 ==> date_of(spec_civil_from_days(d.day_number() + n)) == d,
{
    let e = date_of(spec_civil_from_days(d.day_number() + n));
    lemma_civil_from_days(d.day_number() + n);
    lemma_day_number_order(d, e);
}

/// `days_until` is a difference of day counts: it is positive exactly when
/// the first date is earlier, zero exactly on the same date, changes sign
/// when the dates are swapped, and adds up along a chain of dates.
pub proof fn lemma_days_until_order(a: Date, b: Date, c: Date)
    requires
        a.valid(),
        b.valid(),
        c.valid(),
    ensures
        (b.day_number() - a.day_number() > 0) == date_before(a, b),
        (b.day_number() - a.day_number() == 0) == (a == b),
        b.day_number() - a.day_number() == -(a.day_number() - b.day_number()),
        (b.day_number() - a.day_number()) + (c.day_number() - b.day_number()) == c.day_number()
            - a.day_number(),
{
    lemma_day_number_order(a, b);
}

} // verus!
