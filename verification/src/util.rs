use vstd::prelude::*;
use vstd::arithmetic::div_mod::{
    lemma_div_is_ordered, lemma_fundamental_div_mod, lemma_hoist_over_denominator,
};

use crate::error::{AlipayError, AlipayResult};
use crate::text::{dec_digits, pad2_digits, pad2_string, push_char, u64_to_string};

verus! {

// ---------------------------------------------------------------------------
// The protocol timestamp: `YYYY-MM-DD HH:MM:SS` at UTC+8
// ---------------------------------------------------------------------------
//
// The gateway lives in a fixed zone eight hours ahead of UTC, with no
// daylight saving, so the timestamp renders the moment at UTC+8; the
// standard library offers no query for the machine's own zone. The date
// and the time of day are taken from the same shifted instant. The
// calendar walks the four-year leap cycle from 1970, in which 1972 and
// every fourth year after it is the leap year; that is exact for every
// year from 1970 through 2099.

/// The lengths of the twelve months.
pub open spec fn month_lengths(is_leap_year: bool) -> Seq<int> {
    if is_leap_year {
        seq![31, 29, 31, 30, 31, 30, 31, 31, 30, 31, 30, 31]
    } else {
        seq![31, 28, 31, 30, 31, 30, 31, 31, 30, 31, 30, 31]
    }
}

/// The total length of the months from position `idx` on.
pub open spec fn month_sum(lens: Seq<int>, idx: int) -> int
    decreases lens.len() - idx,
{
    if idx < 0 || idx >= lens.len() {
        0
    } else {
        lens[idx] + month_sum(lens, idx + 1)
    }
}

/// Walks the month lengths, consuming a 1-based day of the year, and
/// yields the month (starting at 1) together with the day within it; a
/// count that no month reaches yields `(0, 0)`.
pub open spec fn month_day_rec(lens: Seq<int>, days: int, idx: int) -> (int, int)
    decreases lens.len() - idx,
{
    if idx < 0 || idx >= lens.len() {
        (0, 0)
    } else if days <= lens[idx] {
        (idx + 1, days)
    } else {
        month_day_rec(lens, days - lens[idx], idx + 1)
    }
}

/// The month and day for a 1-based day of the year.
pub open spec fn month_day_of(is_leap_year: bool, days: int) -> (int, int) {
    month_day_rec(month_lengths(is_leap_year), days, 0)
}

/// The year has 365 days, or 366 in a leap year.
proof fn lemma_month_total(is_leap_year: bool)
    ensures
        month_sum(month_lengths(is_leap_year), 0) == if is_leap_year {
            366int
        } else {
            365int
        },
{
    let lens = month_lengths(is_leap_year);
    assert(month_sum(lens, 12) == 0);
    assert(month_sum(lens, 11) == 31);
    assert(month_sum(lens, 10) == 61);
    assert(month_sum(lens, 9) == 92);
    assert(month_sum(lens, 8) == 122);
    assert(month_sum(lens, 7) == 153);
    assert(month_sum(lens, 6) == 184);
    assert(month_sum(lens, 5) == 214);
    assert(month_sum(lens, 4) == 245);
    assert(month_sum(lens, 3) == 275);
    assert(month_sum(lens, 2) == 306);
    assert(lens[1] == if is_leap_year {
        29int
    } else {
        28int
    });
    assert(month_sum(lens, 1) == lens[1] + 306);
    assert(lens[0] == 31);
    assert(month_sum(lens, 0) == 31 + month_sum(lens, 1));
}

/// The full days since the epoch at UTC+8.
pub open spec fn local_days_of(t: nat) -> nat {
    (t + 28800) / 86400
}

/// The hour of a Unix timestamp at UTC+8.
pub open spec fn hour_of(t: nat) -> nat {
    ((t % 86400) / 3600 + 8) % 24
}

/// The minute of a Unix timestamp.
pub open spec fn minute_of(t: nat) -> nat {
    (t % 3600) / 60
}

/// The second of a Unix timestamp.
pub open spec fn second_of(t: nat) -> nat {
    (t % 3600) % 60
}

/// The year, the 0-based day count left within it, and whether it is the
/// leap year of its four-year cycle (the third year, e.g. 1972).
pub open spec fn year_of(t: nat) -> (int, int, bool) {
    let days = local_days_of(t) as int;
    let year_4 = days / 1461;
    let remain = days % 1461;
    let base: int = 1970 + year_4 * 4;
    if remain < 365 {
        (base, remain, false)
    } else if remain < 730 {
        (base + 1, remain - 365, false)
    } else if remain < 1096 {
        (base + 2, remain - 730, true)
    } else {
        (base + 3, remain - 1096, false)
    }
}

/// The full `YYYY-MM-DD HH:MM:SS` rendering of a Unix timestamp at UTC+8.
pub open spec fn datetime_chars(t: nat) -> Seq<char> {
    let (year, year_day, is_leap) = year_of(t);
    let (month, day) = month_day_of(is_leap, year_day + 1);
    dec_digits(year as nat) + seq!['-'] + pad2_digits(month as nat) + seq!['-'] + pad2_digits(
        day as nat,
    ) + seq![' '] + pad2_digits(hour_of(t)) + seq![':'] + pad2_digits(minute_of(t)) + seq![':']
        + pad2_digits(second_of(t))
}

/// Law (a well-formed date): the rendered fields are a real calendar
/// position — the year at least 1970, the month between 1 and 12, the day
/// between 1 and 31, and the time of day within its bounds.
pub proof fn lemma_datetime_fields(t: nat)
    ensures
        ({
            let (year, year_day, is_leap) = year_of(t);
            let (month, day) = month_day_of(is_leap, year_day + 1);
            &&& year >= 1970
            &&& 0 <= year_day < if is_leap {
                366int
            } else {
                365int
            }
            &&& 1 <= month <= 12
            &&& 1 <= day <= 31
        }),
        hour_of(t) < 24,
        minute_of(t) < 60,
        second_of(t) < 60,
{
    let (year, year_day, is_leap) = year_of(t);
    lemma_month_total(is_leap);
    lemma_month_bounds(is_leap);
    lemma_month_day_rec_range(month_lengths(is_leap), year_day + 1, 0);
}

/// Every month is between 1 and 31 days long.
proof fn lemma_month_bounds(is_leap_year: bool)
    ensures
        forall|k: int|
            0 <= k < month_lengths(is_leap_year).len() ==> 1 <= #[trigger] month_lengths(
                is_leap_year,
            )[k] <= 31,
{
    let lens = month_lengths(is_leap_year);
    assert forall|k: int|
        #![trigger lens[k]]
        0 <= k < lens.len() implies 1 <= lens[k] <= 31 by {
        if k == 0 {
            assert(lens[0] == 31);
        } else if k == 1 {
            assert(1 <= lens[1] <= 31);
        } else if k == 2 {
            assert(lens[2] == 31);
        } else if k == 3 {
            assert(lens[3] == 30);
        } else if k == 4 {
            assert(lens[4] == 31);
        } else if k == 5 {
            assert(lens[5] == 30);
        } else if k == 6 {
            assert(lens[6] == 31);
        } else if k == 7 {
            assert(lens[7] == 31);
        } else if k == 8 {
            assert(lens[8] == 30);
        } else if k == 9 {
            assert(lens[9] == 31);
        } else if k == 10 {
            assert(lens[10] == 30);
        } else {
            assert(lens[11] == 31);
        }
    }
}

/// Within the year's capacity the walk lands on a real month and day.
proof fn lemma_month_day_rec_range(lens: Seq<int>, days: int, idx: int)
    requires
        0 <= idx <= lens.len(),
        1 <= days <= month_sum(lens, idx),
        forall|k: int| 0 <= k < lens.len() ==> 1 <= #[trigger] lens[k] <= 31,
    ensures
        idx < lens.len(),
        idx + 1 <= month_day_rec(lens, days, idx).0 <= lens.len(),
        1 <= month_day_rec(lens, days, idx).1 <= 31,
    decreases lens.len() - idx,
{
    if days <= lens[idx] {
    } else {
        lemma_month_day_rec_range(lens, days - lens[idx], idx + 1);
    }
}

/// The length of one month, counting from zero.
fn month_len(is_leap_year: bool, idx: usize) -> (r: i32)
    requires
        idx < 12,
    ensures
        r as int == month_lengths(is_leap_year)[idx as int],
        28 <= r <= 31,
{
    if idx == 1 {
        if is_leap_year {
            29
        } else {
            28
        }
    } else {
        match idx {
            0 => 31,
            2 => 31,
            3 => 30,
            4 => 31,
            5 => 30,
            6 => 31,
            7 => 31,
            8 => 30,
            9 => 31,
            10 => 30,
            _ => 31,
        }
    }
}

/// The month (1 to 12) and the day (1 to 31) for a 1-based day of the
/// year.
pub fn get_moth_day(is_leap_year: bool, days: i32) -> (r: (i32, i32))
    requires
        1 <= days <= if is_leap_year {
            366int
        } else {
            365int
        },
    ensures
        (r.0 as int, r.1 as int) == month_day_of(is_leap_year, days as int),
        1 <= r.0 <= 12,
        1 <= r.1 <= 31,
{
    proof {
        lemma_month_total(is_leap_year);
    }
    let ghost lens = month_lengths(is_leap_year);
    let mut d: i32 = days;
    let mut idx: usize = 0;
    while idx < 12
        invariant
            idx <= 12,
            1 <= d,
            lens == month_lengths(is_leap_year),
            d as int <= month_sum(lens, idx as int),
            month_day_rec(lens, days as int, 0) == month_day_rec(lens, d as int, idx as int),
        decreases 12 - idx,
    {
        let v = month_len(is_leap_year, idx);
        if d <= v {
            proof {
                assert(month_day_rec(lens, d as int, idx as int) == ((idx + 1) as int, d as int));
            }
            let month = (idx + 1) as i32;
            return (month, d);
        }
        d = d - v;
        idx = idx + 1;
    }
    proof {
        assert(month_sum(lens, 12) == 0);
        assert(false);
    }
    (0, 0)
}

/// The hour (UTC+8), minute and second of a Unix timestamp.
pub fn get_hour_min_sec(timestamp: u64) -> (r: (i32, i32, i32))
    ensures
        r.0 as int == hour_of(timestamp as nat),
        r.1 as int == minute_of(timestamp as nat),
        r.2 as int == second_of(timestamp as nat),
        0 <= r.0 < 24,
        0 <= r.1 < 60,
        0 <= r.2 < 60,
{
    let hour = ((timestamp % 86400) / 3600 + 8) % 24;
    let min = (timestamp % 3600) / 60;
    let sec = (timestamp % 3600) % 60;
    (hour as i32, min as i32, sec as i32)
}

/// Renders a Unix timestamp as `YYYY-MM-DD HH:MM:SS` at UTC+8.
pub fn format_datetime(timestamp: u64) -> (r: String)
    ensures
        r@ == datetime_chars(timestamp as nat),
{
    let days0 = timestamp / 86400;
    let rem = timestamp % 86400;
    let extra = (rem + 28800) / 86400;
    let days = days0 + extra;
    proof {
        lemma_fundamental_div_mod(timestamp as int, 86400);
        lemma_hoist_over_denominator(rem as int + 28800, days0 as int, 86400nat);
        assert(days as int == (timestamp as int + 28800) / 86400);
        lemma_div_is_ordered(timestamp as int, u64::MAX as int, 86400);
        lemma_div_is_ordered(days as int, u64::MAX as int, 1461);
    }
    let year_4 = days / 1461;
    let remain = days % 1461;
    let mut year: u64 = 1970 + year_4 * 4;
    let mut year_day: u64 = remain;
    let mut is_leap_year = false;
    if remain < 365 {
    } else if remain < 730 {
        year = year + 1;
        year_day = remain - 365;
    } else if remain < 1096 {
        year = year + 2;
        year_day = remain - 730;
        is_leap_year = true;
    } else {
        year = year + 3;
        year_day = remain - 1096;
    }
    let (month, day) = get_moth_day(is_leap_year, (year_day + 1) as i32);
    let (h, m, s) = get_hour_min_sec(timestamp);
    let mut r = u64_to_string(year);
    push_char(&mut r, '-');
    let t2 = pad2_string(month as u64);
    r.append(t2.as_str());
    push_char(&mut r, '-');
    let t3 = pad2_string(day as u64);
    r.append(t3.as_str());
    push_char(&mut r, ' ');
    let t4 = pad2_string(h as u64);
    r.append(t4.as_str());
    push_char(&mut r, ':');
    let t5 = pad2_string(m as u64);
    r.append(t5.as_str());
    push_char(&mut r, ':');
    let t6 = pad2_string(s as u64);
    r.append(t6.as_str());
    proof {
        assert(r@ =~= datetime_chars(timestamp as nat));
    }
    r
}

/// Relies on `std::time::SystemTime::now` and `duration_since`: the clock's
/// seconds since the Unix epoch; fails only when the clock stands before
/// the epoch. Nothing can be promised of a clock reading.
#[verifier::external_body]
fn unix_time_seconds() -> (r: AlipayResult<u64>)
{
    std::time::SystemTime::now().duration_since(std::time::SystemTime::UNIX_EPOCH).map(
        |d| d.as_secs(),
    ).map_err(|e| AlipayError::new(&e.to_string()))
}

/// The current moment rendered as the protocol timestamp. The text always
/// has the `YYYY-MM-DD HH:MM:SS` shape of `datetime_chars`; which moment it
/// renders depends on the clock.
pub fn datetime() -> (r: AlipayResult<String>)
    ensures
        r matches Ok(s) ==> exists|t: u64| s@ == datetime_chars(t as nat),
{
    match unix_time_seconds() {
        Ok(t) => {
            let s = format_datetime(t);
            proof {
                assert(s@ == datetime_chars(t as nat));
            }
            Ok(s)
        },
        Err(e) => Err(e),
    }
}

} // verus!
