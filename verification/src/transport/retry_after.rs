//! `Retry-After` parsing: an integer number of seconds, or an RFC 1123
//! HTTP-date (`Wed, 21 Oct 2015 07:28:00 GMT`) measured against the clock.

use vstd::prelude::*;

use crate::parse::{i64_text, parse_i64, split_chars, split_on, split_words, words};
use crate::text::{chars_eq_str, chars_of, trim, trim_chars};

verus! {

/// The month number of a three-letter English month name.
pub open spec fn month_of(m: Seq<char>) -> Option<i64> {
    if m == "Jan"@ {
        Some(1)
    } else if m == "Feb"@ {
        Some(2)
    } else if m == "Mar"@ {
        Some(3)
    } else if m == "Apr"@ {
        Some(4)
    } else if m == "May"@ {
        Some(5)
    } else if m == "Jun"@ {
        Some(6)
    } else if m == "Jul"@ {
        Some(7)
    } else if m == "Aug"@ {
        Some(8)
    } else if m == "Sep"@ {
        Some(9)
    } else if m == "Oct"@ {
        Some(10)
    } else if m == "Nov"@ {
        Some(11)
    } else if m == "Dec"@ {
        Some(12)
    } else {
        None
    }
}

/// The three-letter pieces of the month names written in calendar order.
proof fn lemma_calendar_names()
    ensures
        "JanFebMarAprMayJunJulAugSepOctNovDec"@.subrange(0, 3) == "Jan"@,
        "JanFebMarAprMayJunJulAugSepOctNovDec"@.subrange(3, 6) == "Feb"@,
        "JanFebMarAprMayJunJulAugSepOctNovDec"@.subrange(6, 9) == "Mar"@,
        "JanFebMarAprMayJunJulAugSepOctNovDec"@.subrange(9, 12) == "Apr"@,
        "JanFebMarAprMayJunJulAugSepOctNovDec"@.subrange(12, 15) == "May"@,
        "JanFebMarAprMayJunJulAugSepOctNovDec"@.subrange(15, 18) == "Jun"@,
        "JanFebMarAprMayJunJulAugSepOctNovDec"@.subrange(18, 21) == "Jul"@,
        "JanFebMarAprMayJunJulAugSepOctNovDec"@.subrange(21, 24) == "Aug"@,
        "JanFebMarAprMayJunJulAugSepOctNovDec"@.subrange(24, 27) == "Sep"@,
        "JanFebMarAprMayJunJulAugSepOctNovDec"@.subrange(27, 30) == "Oct"@,
        "JanFebMarAprMayJunJulAugSepOctNovDec"@.subrange(30, 33) == "Nov"@,
        "JanFebMarAprMayJunJulAugSepOctNovDec"@.subrange(33, 36) == "Dec"@,
{
    reveal_strlit("JanFebMarAprMayJunJulAugSepOctNovDec");
    reveal_strlit("Jan");
    assert("JanFebMarAprMayJunJulAugSepOctNovDec"@.subrange(0, 3) =~= "Jan"@);
    reveal_strlit("Feb");
    assert("JanFebMarAprMayJunJulAugSepOctNovDec"@.subrange(3, 6) =~= "Feb"@);
    reveal_strlit("Mar");
    assert("JanFebMarAprMayJunJulAugSepOctNovDec"@.subrange(6, 9) =~= "Mar"@);
    reveal_strlit("Apr");
    assert("JanFebMarAprMayJunJulAugSepOctNovDec"@.subrange(9, 12) =~= "Apr"@);
    reveal_strlit("May");
    assert("JanFebMarAprMayJunJulAugSepOctNovDec"@.subrange(12, 15) =~= "May"@);
    reveal_strlit("Jun");
    assert("JanFebMarAprMayJunJulAugSepOctNovDec"@.subrange(15, 18) =~= "Jun"@);
    reveal_strlit("Jul");
    assert("JanFebMarAprMayJunJulAugSepOctNovDec"@.subrange(18, 21) =~= "Jul"@);
    reveal_strlit("Aug");
    assert("JanFebMarAprMayJunJulAugSepOctNovDec"@.subrange(21, 24) =~= "Aug"@);
    reveal_strlit("Sep");
    assert("JanFebMarAprMayJunJulAugSepOctNovDec"@.subrange(24, 27) =~= "Sep"@);
    reveal_strlit("Oct");
    assert("JanFebMarAprMayJunJulAugSepOctNovDec"@.subrange(27, 30) =~= "Oct"@);
    reveal_strlit("Nov");
    assert("JanFebMarAprMayJunJulAugSepOctNovDec"@.subrange(30, 33) =~= "Nov"@);
    reveal_strlit("Dec");
    assert("JanFebMarAprMayJunJulAugSepOctNovDec"@.subrange(33, 36) =~= "Dec"@);
}

/// The month names number the months in calendar order: the `k`-th name of
/// `JanFebMar…Dec` (`Jan` first) is month `k + 1`, and any text that names a
/// month is the name at its number's place, so no two months share a number
/// and every number lies between 1 and 12.
pub proof fn months_follow_the_calendar(m: Seq<char>, k: int)
    ensures
        0 <= k < 12 ==> month_of("JanFebMarAprMayJunJulAugSepOctNovDec"@.subrange(3 * k, 3 * k + 3)) == Some(
            (k + 1) as i64,
        ),
        month_of(m) matches Some(x) ==> 1 <= x <= 12 && m == "JanFebMarAprMayJunJulAugSepOctNovDec"@.subrange(
            3 * x - 3,
            3 * x,
        ),
{
    lemma_calendar_names();
    reveal_strlit("Jan");
    reveal_strlit("Feb");
    reveal_strlit("Mar");
    reveal_strlit("Apr");
    reveal_strlit("May");
    reveal_strlit("Jun");
    reveal_strlit("Jul");
    reveal_strlit("Aug");
    reveal_strlit("Sep");
    reveal_strlit("Oct");
    reveal_strlit("Nov");
    reveal_strlit("Dec");
    if 0 <= k < 12 {
        if k == 0 {
            assert(3 * k == 0);
        } else if k == 1 {
            assert(3 * k == 3);
            assert("Feb"@[0] != "Jan"@[0]);
        } else if k == 2 {
            assert(3 * k == 6);
            assert("Mar"@[0] != "Jan"@[0]);
            assert("Mar"@[0] != "Feb"@[0]);
        } else if k == 3 {
            assert(3 * k == 9);
            assert("Apr"@[0] != "Jan"@[0]);
            assert("Apr"@[0] != "Feb"@[0]);
            assert("Apr"@[0] != "Mar"@[0]);
        } else if k == 4 {
            assert(3 * k == 12);
            assert("May"@[0] != "Jan"@[0]);
            assert("May"@[0] != "Feb"@[0]);
            assert("May"@[2] != "Mar"@[2]);
            assert("May"@[0] != "Apr"@[0]);
        } else if k == 5 {
            assert(3 * k == 15);
            assert("Jun"@[1] != "Jan"@[1]);
            assert("Jun"@[0] != "Feb"@[0]);
            assert("Jun"@[0] != "Mar"@[0]);
            assert("Jun"@[0] != "Apr"@[0]);
            assert("Jun"@[0] != "May"@[0]);
        } else if k == 6 {
            assert(3 * k == 18);
            assert("Jul"@[1] != "Jan"@[1]);
            assert("Jul"@[0] != "Feb"@[0]);
            assert("Jul"@[0] != "Mar"@[0]);
            assert("Jul"@[0] != "Apr"@[0]);
            assert("Jul"@[0] != "May"@[0]);
            assert("Jul"@[2] != "Jun"@[2]);
        } else if k == 7 {
            assert(3 * k == 21);
            assert("Aug"@[0] != "Jan"@[0]);
            assert("Aug"@[0] != "Feb"@[0]);
            assert("Aug"@[0] != "Mar"@[0]);
            assert("Aug"@[1] != "Apr"@[1]);
            assert("Aug"@[0] != "May"@[0]);
            assert("Aug"@[0] != "Jun"@[0]);
            assert("Aug"@[0] != "Jul"@[0]);
        } else if k == 8 {
            assert(3 * k == 24);
            assert("Sep"@[0] != "Jan"@[0]);
            assert("Sep"@[0] != "Feb"@[0]);
            assert("Sep"@[0] != "Mar"@[0]);
            assert("Sep"@[0] != "Apr"@[0]);
            assert("Sep"@[0] != "May"@[0]);
            assert("Sep"@[0] != "Jun"@[0]);
            assert("Sep"@[0] != "Jul"@[0]);
            assert("Sep"@[0] != "Aug"@[0]);
        } else if k == 9 {
            assert(3 * k == 27);
            assert("Oct"@[0] != "Jan"@[0]);
            assert("Oct"@[0] != "Feb"@[0]);
            assert("Oct"@[0] != "Mar"@[0]);
            assert("Oct"@[0] != "Apr"@[0]);
            assert("Oct"@[0] != "May"@[0]);
            assert("Oct"@[0] != "Jun"@[0]);
            assert("Oct"@[0] != "Jul"@[0]);
            assert("Oct"@[0] != "Aug"@[0]);
            assert("Oct"@[0] != "Sep"@[0]);
        } else if k == 10 {
            assert(3 * k == 30);
            assert("Nov"@[0] != "Jan"@[0]);
            assert("Nov"@[0] != "Feb"@[0]);
            assert("Nov"@[0] != "Mar"@[0]);
            assert("Nov"@[0] != "Apr"@[0]);
            assert("Nov"@[0] != "May"@[0]);
            assert("Nov"@[0] != "Jun"@[0]);
            assert("Nov"@[0] != "Jul"@[0]);
            assert("Nov"@[0] != "Aug"@[0]);
            assert("Nov"@[0] != "Sep"@[0]);
            assert("Nov"@[0] != "Oct"@[0]);
        } else if k == 11 {
            assert(3 * k == 33);
            assert("Dec"@[0] != "Jan"@[0]);
            assert("Dec"@[0] != "Feb"@[0]);
            assert("Dec"@[0] != "Mar"@[0]);
            assert("Dec"@[0] != "Apr"@[0]);
            assert("Dec"@[0] != "May"@[0]);
            assert("Dec"@[0] != "Jun"@[0]);
            assert("Dec"@[0] != "Jul"@[0]);
            assert("Dec"@[0] != "Aug"@[0]);
            assert("Dec"@[0] != "Sep"@[0]);
            assert("Dec"@[0] != "Oct"@[0]);
            assert("Dec"@[0] != "Nov"@[0]);
        }
    }
}

/// The month number of `m` (`"Jan"` is 1, …, `"Dec"` is 12).
pub fn month_num(m: &str) -> (r: Option<i64>)
    ensures
        r == month_of(m@),
{
    let v = chars_of(m);
    month_num_chars(&v)
}

fn month_num_chars(m: &Vec<char>) -> (r: Option<i64>)
    ensures
        r == month_of(m@),
{
    if chars_eq_str(m, "Jan") {
        Some(1)
    } else if chars_eq_str(m, "Feb") {
        Some(2)
    } else if chars_eq_str(m, "Mar") {
        Some(3)
    } else if chars_eq_str(m, "Apr") {
        Some(4)
    } else if chars_eq_str(m, "May") {
        Some(5)
    } else if chars_eq_str(m, "Jun") {
        Some(6)
    } else if chars_eq_str(m, "Jul") {
        Some(7)
    } else if chars_eq_str(m, "Aug") {
        Some(8)
    } else if chars_eq_str(m, "Sep") {
        Some(9)
    } else if chars_eq_str(m, "Oct") {
        Some(10)
    } else if chars_eq_str(m, "Nov") {
        Some(11)
    } else if chars_eq_str(m, "Dec") {
        Some(12)
    } else {
        None
    }
}

/// Integer division rounding toward zero, as the machine divides.
pub open spec fn tdiv(a: int, b: int) -> int
    recommends
        b > 0,
{
    if a >= 0 {
        a / b
    } else {
        -((-a) / b)
    }
}

/// Days since 1970-01-01 of the civil date `y-m-d` (Howard Hinnant's
/// `days_from_civil`, computed with division that rounds toward zero).
pub open spec fn civil_days(y: int, m: int, d: int) -> int {
    let y1 = if m <= 2 {
        y - 1
    } else {
        y
    };
    let era = tdiv(
        if y1 >= 0 {
            y1
        } else {
            y1 - 399
        },
        400,
    );
    let yoe = y1 - era * 400;
    let doy = tdiv(
        153 * (if m > 2 {
            m - 3
        } else {
            m + 9
        }) + 2,
        5,
    ) + d - 1;
    let doe = yoe * 365 + tdiv(yoe, 4) - tdiv(yoe, 100) + doy;
    era * 146097 + doe - 719468
}

/// Every step of the day count of `y-m-d` fits in `i64`; outside this the
/// computation overflows.
pub open spec fn civil_days_fits(y: int, m: int, d: int) -> bool {
    let y1 = if m <= 2 {
        y - 1
    } else {
        y
    };
    let a = if y1 >= 0 {
        y1
    } else {
        y1 - 399
    };
    let era = tdiv(a, 400);
    let yoe = y1 - era * 400;
    let mp = if m > 2 {
        m - 3
    } else {
        m + 9
    };
    let doy = tdiv(153 * mp + 2, 5) + d - 1;
    let base = yoe * 365 + tdiv(yoe, 4) - tdiv(yoe, 100);
    &&& in_i64(y1)
    &&& in_i64(a)
    &&& in_i64(mp)
    &&& in_i64(153 * mp)
    &&& in_i64(153 * mp + 2)
    &&& in_i64(tdiv(153 * mp + 2, 5) + d)
    &&& in_i64(doy)
    &&& in_i64(base + doy)
    &&& in_i64(era * 146097)
    &&& in_i64(era * 146097 + base + doy)
    &&& in_i64(era * 146097 + base + doy - 719468)
}

/// Days since 1970-01-01 (Howard Hinnant's `days_from_civil`).
pub fn days_from_civil(y: i64, m: i64, d: i64) -> (r: i64)
    requires
        civil_days_fits(y as int, m as int, d as int),
    ensures
        r == civil_days(y as int, m as int, d as int),
{
    let y1: i64 = if m <= 2 {
        y - 1
    } else {
        y
    };
    let a: i64 = if y1 >= 0 {
        y1
    } else {
        y1 - 399
    };
    let era: i64 = a / 400;
    assert(era == tdiv(a as int, 400));
    let yoe: i64 = y1 - era * 400;
    assert(0 <= yoe < 400);
    let mp: i64 = if m > 2 {
        m - 3
    } else {
        m + 9
    };
    let num: i64 = 153 * mp + 2;
    let q: i64 = num / 5;
    assert(q == tdiv(num as int, 5));
    let doy: i64 = q + d - 1;
    let doe: i64 = yoe * 365 + yoe / 4 - yoe / 100 + doy;
    era * 146097 + doe - 719468
}

/// A Gregorian leap year: divisible by 4 and not by 100, or by 400.
pub open spec fn leap_year(y: int) -> bool {
    (y % 4 == 0 && y % 100 != 0) || y % 400 == 0
}

/// The number of days of month `m` (1..=12) of year `y`.
pub open spec fn days_in_month(y: int, m: int) -> int {
    if m == 2 {
        if leap_year(y) {
            29
        } else {
            28
        }
    } else if m == 4 || m == 6 || m == 9 || m == 11 {
        30
    } else {
        31
    }
}

/// The date that follows `y-m-d`.
pub open spec fn next_date(y: int, m: int, d: int) -> (int, int, int) {
    if d < days_in_month(y, m) {
        (y, m, d + 1)
    } else if m < 12 {
        (y, m + 1, 1)
    } else {
        (y + 1, 1, 1)
    }
}

/// The days before March 1st of the year that begins in March of `y`,
/// counted from the epoch of the computation.
spec fn march_days(y1: int) -> int {
    let era = tdiv(
        if y1 >= 0 {
            y1
        } else {
            y1 - 399
        },
        400,
    );
    let yoe = y1 - era * 400;
    era * 146097 + yoe * 365 + tdiv(yoe, 4) - tdiv(yoe, 100)
}

/// The era of the computation is the floor of `y1 / 400`.
proof fn lemma_era_is_floor(y1: int)
    ensures
        tdiv(
            if y1 >= 0 {
                y1
            } else {
                y1 - 399
            },
            400,
        ) == y1 / 400,
{
    if y1 < 0 {
        let k = (399 - y1) / 400;
        assert(400 * k <= 399 - y1 < 400 * k + 400);
        assert(y1 / 400 == -k);
    }
}

/// A year that begins in March of `y1` has 366 days exactly when the
/// February that ends it is a leap February.
#[verifier::spinoff_prover]
proof fn lemma_march_year_length(y1: int)
    ensures
        march_days(y1 + 1) - march_days(y1) == if leap_year(y1 + 1) {
            366int
        } else {
            365int
        },
{
    lemma_era_is_floor(y1);
    lemma_era_is_floor(y1 + 1);
    let q = y1 / 400;
    let r = y1 % 400;
    assert(y1 == 400 * q + r && 0 <= r < 400);
    assert(march_days(y1) == q * 146097 + r * 365 + r / 4 - r / 100);
    if r < 399 {
        assert((y1 + 1) / 400 == q && (y1 + 1) % 400 == r + 1);
        assert((y1 + 1) % 4 == (r + 1) % 4);
        assert((y1 + 1) % 100 == (r + 1) % 100);
        assert(march_days(y1 + 1) == q * 146097 + (r + 1) * 365 + (r + 1) / 4 - (r + 1) / 100);
        assert((r + 1) / 4 - r / 4 == if (r + 1) % 4 == 0 {
            1int
        } else {
            0int
        });
        assert((r + 1) / 100 - r / 100 == if (r + 1) % 100 == 0 {
            1int
        } else {
            0int
        });
    } else {
        assert((y1 + 1) / 400 == q + 1 && (y1 + 1) % 400 == 0);
        assert((y1 + 1) % 4 == 0 && (y1 + 1) % 100 == 0);
        assert(march_days(y1 + 1) == (q + 1) * 146097);
    }
}

/// The day count follows the (proleptic Gregorian) calendar: the date after
/// any date is the next day, across month and year ends and by the leap
/// rule, and 1970-01-01 is day zero.
pub proof fn civil_days_counts_days(y: int, m: int, d: int)
    requires
        1 <= m <= 12,
        1 <= d <= days_in_month(y, m),
    ensures
        civil_days(next_date(y, m, d).0, next_date(y, m, d).1, next_date(y, m, d).2) == civil_days(
            y,
            m,
            d,
        ) + 1,
        civil_days(1970, 1, 1) == 0,
{
    assert(civil_days(1970, 1, 1) == 0);
    if d < days_in_month(y, m) {
    } else if m == 2 {
        lemma_march_year_length(y - 1);
        assert(civil_days(y, 2, d) == march_days(y - 1) + 336 + d - 719468);
        assert(civil_days(y, 3, 1) == march_days(y) - 719468);
    } else if m < 12 {
    } else {
        assert(civil_days(y, 12, 31) == march_days(y) + 305 - 719468);
        assert(civil_days(y + 1, 1, 1) == march_days(y) + 306 - 719468);
    }
}

/// Whether an integer fits in `i64`.
pub open spec fn in_i64(x: int) -> bool {
    i64::MIN <= x <= i64::MAX
}

/// The unix time written by an RFC 1123 HTTP-date: five or more
/// whitespace-separated words, of which the second is the day (1..=31), the
/// third the month name, the fourth the year (0..=999999) and the fifth
/// `hh:mm:ss`; `None` when any part is malformed or the seconds do not fit
/// in `i64`.
pub open spec fn http_date_value(s: Seq<char>) -> Option<i64> {
    let t = words(s);
    if t.len() < 5 {
        None
    } else {
        let time = split_on(t[4], ':');
        match (i64_text(t[1]), month_of(t[2]), i64_text(t[3])) {
            (Some(day), Some(month), Some(year)) => {
                if !(1 <= day <= 31) || !(0 <= year <= 999_999) || time.len() != 3 {
                    None
                } else {
                    match (i64_text(time[0]), i64_text(time[1]), i64_text(time[2])) {
                        (Some(hh), Some(mm), Some(ss)) => {
                            let days = civil_days(year as int, month as int, day as int);
                            let total = days * 86400 + hh * 3600 + mm * 60 + ss;
                            if in_i64(hh * 3600) && in_i64(days * 86400 + hh * 3600) && in_i64(
                                mm * 60,
                            ) && in_i64(days * 86400 + hh * 3600 + mm * 60) && in_i64(total) {
                                Some(total as i64)
                            } else {
                                None
                            }
                        },
                        _ => None,
                    }
                }
            },
            _ => None,
        }
    }
}

/// Parse an RFC 1123 HTTP-date (`Wed, 21 Oct 2015 07:28:00 GMT`) into unix
/// seconds. Absurd values (a day outside 1..=31, a year outside 0..=999999,
/// seconds beyond `i64`) are rejected rather than overflowing.
pub fn parse_http_date(s: &str) -> (r: Option<i64>)
    ensures
        r == http_date_value(s@),
{
    let chars = chars_of(s);
    parse_http_date_chars(&chars)
}

fn parse_http_date_chars(s: &Vec<char>) -> (r: Option<i64>)
    ensures
        r == http_date_value(s@),
{
    let tokens = split_words(s);
    if tokens.len() < 5 {
        return None;
    }
    let day = match parse_i64(&tokens[1]) {
        Some(d) => d,
        None => return None,
    };
    let month = match month_num_chars(&tokens[2]) {
        Some(m) => m,
        None => return None,
    };
    let year = match parse_i64(&tokens[3]) {
        Some(y) => y,
        None => return None,
    };
    if !(1 <= day && day <= 31) {
        return None;
    }
    if !(0 <= year && year <= 999_999) {
        return None;
    }
    let time = split_chars(&tokens[4], ':');
    if time.len() != 3 {
        return None;
    }
    let hh = match parse_i64(&time[0]) {
        Some(v) => v,
        None => return None,
    };
    let mm = match parse_i64(&time[1]) {
        Some(v) => v,
        None => return None,
    };
    let ss = match parse_i64(&time[2]) {
        Some(v) => v,
        None => return None,
    };
    assert(civil_days_fits(year as int, month as int, day as int));
    let days = days_from_civil(year, month, day);
    assert(-800_000 <= days <= 400_000_000) by {
        assert(0 <= year <= 999_999);
        assert(1 <= month <= 12);
    }
    let base: i64 = days * 86400;
    let h = match hh.checked_mul(3600) {
        Some(v) => v,
        None => return None,
    };
    let a = match base.checked_add(h) {
        Some(v) => v,
        None => return None,
    };
    let m = match mm.checked_mul(60) {
        Some(v) => v,
        None => return None,
    };
    let b = match a.checked_add(m) {
        Some(v) => v,
        None => return None,
    };
    b.checked_add(ss)
}

/// std's `SystemTime`, a reading of the system clock.
#[verifier::external_type_specification]
#[verifier::external_body]
pub struct ExSystemTime(std::time::SystemTime);

/// std's `SystemTime::now`: the system clock's current reading. Nothing is
/// claimed of it.
#[verifier::external_body]
fn system_now() -> (r: std::time::SystemTime) {
    std::time::SystemTime::now()
}

/// std's `SystemTime::duration_since`, from the unix epoch: the time since
/// the epoch, or `None` when `t` lies before it (the error is dropped).
/// Nothing is claimed of the duration.
#[verifier::external_body]
fn since_unix_epoch(t: &std::time::SystemTime) -> (r: Option<std::time::Duration>) {
    t.duration_since(std::time::UNIX_EPOCH).ok()
}

/// std's `Duration::as_secs`: the whole seconds of `d`. Nothing is claimed
/// of the value, since a duration is opaque here.
#[verifier::external_body]
fn whole_secs(d: &std::time::Duration) -> (r: u64) {
    d.as_secs()
}

/// The clock as whole seconds since the unix epoch (`0` when it reads before
/// the epoch); a count beyond `i64::MAX` wraps, as a cast does.
fn unix_now_secs() -> (r: i64) {
    match since_unix_epoch(&system_now()) {
        Some(d) => {
            let secs = whole_secs(&d);
            secs as i64
        },
        None => 0,
    }
}

/// The delay, in seconds, that a `Retry-After` value asks for when the clock
/// reads `now`: an integer (negative counts as zero), or the time from `now`
/// until an HTTP-date (zero once it has passed).
pub open spec fn retry_after_value(value: Seq<char>, now: i64) -> Option<u64> {
    let v = trim(value);
    match i64_text(v) {
        Some(secs) => Some(if secs < 0 {
            0u64
        } else {
            secs as u64
        }),
        None => match http_date_value(v) {
            Some(target) => Some(if target - now < 0 {
                0u64
            } else {
                (target - now) as u64
            }),
            None => None,
        },
    }
}

/// Parse a `Retry-After` value against the clock reading `now` (unix seconds).
pub fn retry_after_at(value: &str, now: i64) -> (r: Option<u64>)
    ensures
        r == retry_after_value(value@, now),
{
    let raw = chars_of(value);
    let v = trim_chars(&raw);
    match parse_i64(&v) {
        Some(secs) => Some(
            if secs < 0 {
                0u64
            } else {
                secs as u64
            },
        ),
        None => match parse_http_date_chars(&v) {
            Some(target) => {
                let diff: i128 = (target as i128) - (now as i128);
                if diff < 0 {
                    Some(0u64)
                } else {
                    Some(diff as u64)
                }
            },
            None => None,
        },
    }
}

/// Parse a `Retry-After` header: an integer number of seconds (negative
/// counts as zero), or an HTTP-date, measured against the clock.
pub fn parse_retry_after(value: &str) -> (r: Option<u64>)
    ensures
        i64_text(trim(value@)) matches Some(secs) ==> r == Some(
            if secs < 0 {
                0u64
            } else {
                secs as u64
            },
        ),
        i64_text(trim(value@)) is None ==> (r is Some <==> http_date_value(trim(value@)) is Some),
{
    let now = unix_now_secs();
    retry_after_at(value, now)
}

/// An HTTP-date `Wdy, DD Mon YYYY hh:mm:ss GMT` stands for the unix time of
/// that civil date and time: `86400` seconds per day counted by
/// [`civil_days`], plus the time of day, with the month numbered by its
/// place in the calendar, a day from 1 to 31 and a year from 0 to 999999.
pub proof fn http_date_is_unix_time(s: Seq<char>)
    ensures
        http_date_value(s) matches Some(t) ==> (words(s).len() >= 5 && split_on(words(s)[4], ':').len()
            == 3 && match (
            i64_text(words(s)[1]),
            i64_text(words(s)[3]),
            i64_text(split_on(words(s)[4], ':')[0]),
            i64_text(split_on(words(s)[4], ':')[1]),
            i64_text(split_on(words(s)[4], ':')[2]),
            month_of(words(s)[2]),
        ) {
            (Some(day), Some(year), Some(hh), Some(mm), Some(ss), Some(mo)) => 1 <= day <= 31 && 0
                <= year <= 999_999 && 1 <= mo <= 12 && words(s)[2] == "JanFebMarAprMayJunJulAugSepOctNovDec"@.subrange(
                3 * mo - 3,
                3 * mo,
            ) && t == civil_days(year as int, mo as int, day as int) * 86400 + hh * 3600 + mm * 60
                + ss,
            _ => false,
        }),
{
    let w = words(s);
    if w.len() >= 5 {
        months_follow_the_calendar(w[2], 0);
    }
}

/// How a `Retry-After` answer moves with the clock: a number of seconds does
/// not depend on it, and the wait until a date shrinks second for second as
/// the clock advances, down to zero once the date has passed.
pub proof fn retry_after_follows_the_clock(value: Seq<char>, now: i64, later: i64)
    requires
        now <= later,
    ensures
        retry_after_value(value, now) is Some <==> retry_after_value(value, later) is Some,
        retry_after_value(value, now) matches Some(a) ==> (retry_after_value(value, later) matches Some(b)
            && if i64_text(trim(value)) is Some {
            b == a
        } else {
            b == if a > later - now {
                a - (later - now)
            } else {
                0
            }
        }),
{
}

} // verus!
