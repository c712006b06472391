//! Parsing of date-time strings with a timezone offset into microseconds
//! since the Unix epoch.
//!
//! The accepted layout is `YYYY-MM-DDThh:mm:ss[.f+](Z|±hh:mm)`.  A fractional
//! part is accepted only when it carries no precision beyond microseconds:
//! digits past the sixth must all be zero, so the conversion is always exact.

use vstd::prelude::*;

verus! {

use vstd::string::StringSliceAdditionalSpecFns;

pub open spec fn is_digit(b: u8) -> bool {
    48 <= b && b <= 57
}

/// Numeric value of a single decimal digit byte.
pub open spec fn dv(b: u8) -> int {
    b as int - 48
}

/// Two-digit decimal number starting at byte `i`.
pub open spec fn num2(s: Seq<u8>, i: int) -> int {
    dv(s[i]) * 10 + dv(s[i + 1])
}

/// Four-digit decimal number starting at byte `i`.
pub open spec fn num4(s: Seq<u8>, i: int) -> int {
    dv(s[i]) * 1000 + dv(s[i + 1]) * 100 + dv(s[i + 2]) * 10 + dv(s[i + 3])
}

pub open spec fn is_leap_year(y: int) -> bool {
    y % 4 == 0 && (y % 100 != 0 || y % 400 == 0)
}

/// Number of leap years in `[0, y)` of the proleptic Gregorian calendar.
pub open spec fn leap_years_before(y: int) -> int
    decreases y,
{
    if y <= 0 {
        0
    } else {
        leap_years_before(y - 1) + if is_leap_year(y - 1) {
            1int
        } else {
            0int
        }
    }
}

/// Days from the first of January to the first of month `m` in year `y`.
pub open spec fn days_before_month(y: int, m: int) -> int {
    let base: int = if m == 1 {
        0
    } else if m == 2 {
        31
    } else if m == 3 {
        59
    } else if m == 4 {
        90
    } else if m == 5 {
        120
    } else if m == 6 {
        151
    } else if m == 7 {
        181
    } else if m == 8 {
        212
    } else if m == 9 {
        243
    } else if m == 10 {
        273
    } else if m == 11 {
        304
    } else {
        334
    };
    base + if m >= 3 && is_leap_year(y) {
        1int
    } else {
        0int
    }
}

pub open spec fn days_in_month(y: int, m: int) -> int {
    if m == 2 {
        if is_leap_year(y) {
            29
        } else {
            28
        }
    } else if m == 4 || m == 6 || m == 9 || m == 11 {
        30
    } else {
        31
    }
}

/// Day number of a civil date, counted from the first of January of year 0.
pub open spec fn days_from_year0(y: int, m: int, d: int) -> int {
    365 * y + leap_years_before(y) + days_before_month(y, m) + (d - 1)
}

/// Day number of 1970-01-01 counted from the first of January of year 0.
pub open spec fn epoch_day_number() -> int {
    719528
}

pub proof fn lemma_leap_years_before_bounds(y: int)
    requires
        0 <= y,
    ensures
        0 <= leap_years_before(y) <= y,
    decreases y,
{
    if y > 0 {
        lemma_leap_years_before_bounds(y - 1);
    }
}

/// First index at or after `i` that does not hold a decimal digit.
pub open spec fn digits_end(s: Seq<u8>, i: int) -> int
    decreases s.len() - i,
{
    if i < s.len() && is_digit(s[i]) {
        digits_end(s, i + 1)
    } else {
        i
    }
}

/// Digit at index `k` of a fractional-digit run, zero when the run is shorter.
pub open spec fn dig_or0(ds: Seq<u8>, k: int) -> int {
    if k < ds.len() {
        dv(ds[k])
    } else {
        0
    }
}

/// Value in microseconds of a fractional-second digit run.
pub open spec fn frac_micros_of(ds: Seq<u8>) -> int {
    dig_or0(ds, 0) * 100000 + dig_or0(ds, 1) * 10000 + dig_or0(ds, 2) * 1000 + dig_or0(ds, 3)
        * 100 + dig_or0(ds, 4) * 10 + dig_or0(ds, 5)
}

/// The digit run carries nothing finer than microseconds.
pub open spec fn frac_lossless(ds: Seq<u8>) -> bool {
    forall|k: int| 6 <= k < ds.len() ==> ds[k] == 48u8
}

/// Fixed-position layout of the date-time part `YYYY-MM-DDThh:mm:ss`.
pub open spec fn layout_ok(s: Seq<u8>) -> bool {
    s.len() >= 19 && is_digit(s[0]) && is_digit(s[1]) && is_digit(s[2]) && is_digit(s[3]) && s[4]
        == 45u8 && is_digit(s[5]) && is_digit(s[6]) && s[7] == 45u8 && is_digit(s[8]) && is_digit(
        s[9],
    ) && (s[10] == 84u8 || s[10] == 116u8) && is_digit(s[11]) && is_digit(s[12]) && s[13] == 58u8 && is_digit(s[14])
        && is_digit(s[15]) && s[16] == 58u8 && is_digit(s[17]) && is_digit(s[18])
}

/// Calendar and clock fields are in range.
pub open spec fn fields_ok(s: Seq<u8>) -> bool {
    let y = num4(s, 0);
    let mo = num2(s, 5);
    let d = num2(s, 8);
    1 <= mo <= 12 && 1 <= d <= days_in_month(y, mo) && num2(s, 11) <= 23 && num2(s, 14) <= 59
        && num2(s, 17) <= 59
}

pub open spec fn has_frac(s: Seq<u8>) -> bool {
    s.len() > 19 && s[19] == 46u8
}

/// Index just past the fractional digits, or 19 when there is no fraction.
pub open spec fn frac_end(s: Seq<u8>) -> int {
    if has_frac(s) {
        digits_end(s, 20)
    } else {
        19
    }
}

/// A timezone offset fills the rest of the string from position `p`.
pub open spec fn offset_ok(s: Seq<u8>, p: int) -> bool {
    (s.len() == p + 1 && (s[p] == 90u8 || s[p] == 122u8)) || (s.len() == p + 6 && (s[p] == 43u8 || s[p] == 45u8)
        && is_digit(s[p + 1]) && is_digit(s[p + 2]) && s[p + 3] == 58u8 && is_digit(s[p + 4])
        && is_digit(s[p + 5]) && num2(s, p + 1) <= 23 && num2(s, p + 4) <= 59)
}

pub open spec fn offset_seconds(s: Seq<u8>, p: int) -> int {
    if s[p] == 90u8 || s[p] == 122u8 {
        0
    } else {
        let mag = num2(s, p + 1) * 3600 + num2(s, p + 4) * 60;
        if s[p] == 45u8 {
            -mag
        } else {
            mag
        }
    }
}

/// The whole string is one date-time with offset, convertible to
/// microseconds without loss.
pub open spec fn ts_wellformed(s: Seq<u8>) -> bool {
    layout_ok(s) && fields_ok(s) && (has_frac(s) ==> digits_end(s, 20) > 20 && frac_lossless(
        s.subrange(20, digits_end(s, 20)),
    )) && offset_ok(s, frac_end(s))
}

/// Microseconds since the Unix epoch named by a well-formed string.
pub open spec fn ts_micros_value(s: Seq<u8>) -> int {
    let days = days_from_year0(num4(s, 0), num2(s, 5), num2(s, 8)) - epoch_day_number();
    let secs = days * 86400 + num2(s, 11) * 3600 + num2(s, 14) * 60 + num2(s, 17)
        - offset_seconds(s, frac_end(s));
    secs * 1000000 + if has_frac(s) {
        frac_micros_of(s.subrange(20, frac_end(s)))
    } else {
        0
    }
}

/// What parsing a timestamp string returns: the exact microsecond value for
/// a well-formed string, nothing otherwise.
pub open spec fn parse_timestamp_spec(s: Seq<u8>) -> Option<i64> {
    if ts_wellformed(s) {
        Some(ts_micros_value(s) as i64)
    } else {
        None
    }
}

pub proof fn lemma_ts_micros_in_range(s: Seq<u8>)
    requires
        ts_wellformed(s),
    ensures
        -9000000000000000000 <= ts_micros_value(s) <= 9000000000000000000,
{
    lemma_leap_years_before_bounds(num4(s, 0));
}

/// Extending a run of digits does not move its end.
pub proof fn lemma_digits_end_step(s: Seq<u8>, i: int, j: int)
    requires
        0 <= i <= j <= s.len(),
        forall|k: int| i <= k < j ==> is_digit(s[k]),
    ensures
        digits_end(s, i) == digits_end(s, j),
    decreases j - i,
{
    if i < j {
        lemma_digits_end_step(s, i + 1, j);
    }
}

fn read2(b: &[u8], i: usize) -> (r: u32)
    requires
        i + 2 <= b@.len(),
        is_digit(b@[i as int]),
        is_digit(b@[i as int + 1]),
    ensures
        r == num2(b@, i as int),
        r <= 99,
{
    (b[i] - 48) as u32 * 10 + (b[i + 1] - 48) as u32
}

fn read4(b: &[u8], i: usize) -> (r: u32)
    requires
        i + 4 <= b@.len(),
        is_digit(b@[i as int]),
        is_digit(b@[i as int + 1]),
        is_digit(b@[i as int + 2]),
        is_digit(b@[i as int + 3]),
    ensures
        r == num4(b@, i as int),
        r <= 9999,
{
    (b[i] - 48) as u32 * 1000 + (b[i + 1] - 48) as u32 * 100 + (b[i + 2] - 48) as u32 * 10 + (b[i
        + 3] - 48) as u32
}

fn digit_at(b: &[u8], i: usize) -> (r: bool)
    requires
        i < b@.len(),
    ensures
        r == is_digit(b@[i as int]),
{
    48 <= b[i] && b[i] <= 57
}

fn days_in_month_exec(y: u32, m: u32) -> (r: u32)
    requires
        1 <= m <= 12,
    ensures
        r == days_in_month(y as int, m as int),
        28 <= r <= 31,
{
    if m == 2 {
        if y % 4 == 0 && (y % 100 != 0 || y % 400 == 0) {
            29
        } else {
            28
        }
    } else if m == 4 || m == 6 || m == 9 || m == 11 {
        30
    } else {
        31
    }
}

fn days_before_month_exec(y: u32, m: u32) -> (r: u32)
    requires
        1 <= m <= 12,
    ensures
        r == days_before_month(y as int, m as int),
        r <= 335,
{
    let base: u32 = if m == 1 {
        0
    } else if m == 2 {
        31
    } else if m == 3 {
        59
    } else if m == 4 {
        90
    } else if m == 5 {
        120
    } else if m == 6 {
        151
    } else if m == 7 {
        181
    } else if m == 8 {
        212
    } else if m == 9 {
        243
    } else if m == 10 {
        273
    } else if m == 11 {
        304
    } else {
        334
    };
    if m >= 3 && y % 4 == 0 && (y % 100 != 0 || y % 400 == 0) {
        base + 1
    } else {
        base
    }
}

/// Parse a byte string holding a date-time with offset; the exact
/// microsecond value for a well-formed string, `None` otherwise.
#[verifier::rlimit(80)]
pub fn parse_timestamp_bytes(b: &[u8]) -> (r: Option<i64>)
    ensures
        r == parse_timestamp_spec(b@),
{
    let n = b.len();
    if n < 20 {
        return None;
    }
    if !(digit_at(b, 0) && digit_at(b, 1) && digit_at(b, 2) && digit_at(b, 3) && b[4] == 45
        && digit_at(b, 5) && digit_at(b, 6) && b[7] == 45 && digit_at(b, 8) && digit_at(b, 9)
        && (b[10] == 84 || b[10] == 116) && digit_at(b, 11) && digit_at(b, 12) && b[13] == 58 && digit_at(b, 14)
        && digit_at(b, 15) && b[16] == 58 && digit_at(b, 17) && digit_at(b, 18)) {
        return None;
    }
    let y = read4(b, 0);
    let mo = read2(b, 5);
    let d = read2(b, 8);
    let h = read2(b, 11);
    let mi = read2(b, 14);
    let sec = read2(b, 17);
    if !(1 <= mo && mo <= 12) {
        return None;
    }
    if !(1 <= d && d <= days_in_month_exec(y, mo)) {
        return None;
    }
    if h > 23 || mi > 59 || sec > 59 {
        return None;
    }
    // Fractional seconds.
    let mut e: usize = 19;
    let mut frac: i64 = 0;
    if b[19] == 46 {
        e = 20;
        while e < n && 48 <= b[e] && b[e] <= 57
            invariant
                20 <= e <= n == b@.len(),
                forall|k: int| 20 <= k < e ==> is_digit(b@[k]),
            decreases n - e,
        {
            e = e + 1;
        }
        proof {
            lemma_digits_end_step(b@, 20, e as int);
            assert(digits_end(b@, 20) == e);
        }
        if e == 20 {
            return None;
        }
        let mut k: usize = 26;
        while k < e
            invariant
                26 <= k,
                e <= n == b@.len(),
                forall|j: int| 26 <= j < k ==> b@[j] == 48u8,
                forall|j: int| 20 <= j < e ==> is_digit(b@[j]),
                digits_end(b@, 20) == e,
            decreases e - k,
        {
            if b[k] != 48 {
                proof {
                    let ds = b@.subrange(20, e as int);
                    assert(ds[k - 20] == b@[k as int]);
                    assert(!frac_lossless(ds));
                }
                return None;
            }
            k = k + 1;
        }
        proof {
            let ds = b@.subrange(20, e as int);
            assert(forall|j: int| 6 <= j < ds.len() ==> ds[j] == b@[j + 20] && b@[j + 20] == 48u8);
        }
        let d0: i64 = (b[20] - 48) as i64;
        let d1: i64 = if 21 < e {
            (b[21] - 48) as i64
        } else {
            0
        };
        let d2: i64 = if 22 < e {
            (b[22] - 48) as i64
        } else {
            0
        };
        let d3: i64 = if 23 < e {
            (b[23] - 48) as i64
        } else {
            0
        };
        let d4: i64 = if 24 < e {
            (b[24] - 48) as i64
        } else {
            0
        };
        let d5: i64 = if 25 < e {
            (b[25] - 48) as i64
        } else {
            0
        };
        frac = d0 * 100000 + d1 * 10000 + d2 * 1000 + d3 * 100 + d4 * 10 + d5;
        proof {
            let ds = b@.subrange(20, e as int);
            assert(frac == frac_micros_of(ds));
        }
    }
    // Timezone offset fills the rest of the string.
    if e >= n {
        return None;
    }
    let off: i64;
    if b[e] == 90 || b[e] == 122 {
        if e + 1 != n {
            return None;
        }
        off = 0;
    } else if b[e] == 43 || b[e] == 45 {
        if n - e != 6 {
            return None;
        }
        if !(digit_at(b, e + 1) && digit_at(b, e + 2) && b[e + 3] == 58 && digit_at(b, e + 4)
            && digit_at(b, e + 5)) {
            return None;
        }
        let oh = read2(b, e + 1);
        let om = read2(b, e + 4);
        if oh > 23 || om > 59 {
            return None;
        }
        let mag: i64 = (oh * 3600 + om * 60) as i64;
        off = if b[e] == 45 {
            -mag
        } else {
            mag
        };
    } else {
        return None;
    }
    assert(layout_ok(b@));
    assert(fields_ok(b@));
    assert(frac_end(b@) == e as int);
    assert(offset_ok(b@, e as int));
    assert(off == offset_seconds(b@, e as int));
    assert(ts_wellformed(b@));
    // Civil date to a day number counted from year 0.
    let mut ly: u32 = 0;
    let mut i: u32 = 0;
    while i < y
        invariant
            i <= y <= 9999,
            ly == leap_years_before(i as int),
            ly <= i,
        decreases y - i,
    {
        if i % 4 == 0 && (i % 100 != 0 || i % 400 == 0) {
            ly = ly + 1;
        }
        i = i + 1;
    }
    proof {
        lemma_ts_micros_in_range(b@);
    }
    let days0: u32 = 365 * y + ly + days_before_month_exec(y, mo) + (d - 1);
    assert(days0 == days_from_year0(y as int, mo as int, d as int));
    assert(days0 <= 3660000);
    let secs: i64 = (days0 as i64 - 719528) * 86400 + (h * 3600 + mi * 60 + sec) as i64 - off;
    let micros: i64 = secs * 1000000 + frac;
    assert(micros == ts_micros_value(b@));
    Some(micros)
}

/// Parse a date-time string with offset into microseconds since the epoch.
pub fn parse_timestamp_micros(s: &str) -> (r: Option<i64>)
    ensures
        r == parse_timestamp_spec(s.spec_bytes()),
{
    let b = s.as_bytes();
    parse_timestamp_bytes(b)
}

} // verus!
