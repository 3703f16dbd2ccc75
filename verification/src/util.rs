//! Small utilities: ISO-8601 timestamps.
use vstd::prelude::*;
use crate::text::{decimal, decimal_padded, digit_char, push_decimal_padded, string_of};
use crate::order::lex_less;

verus! {

/// Hinnant's conversion within one 400-year era: the era number and the
/// day of the era (from March 1st of its first year) to (year, month, day).
pub open spec fn civil_of_era_spec(era: int, doe: int) -> (int, int, int) {
    let yoe = (doe - doe / 1460 + doe / 36524 - doe / 146096) / 365;
    let y = yoe + era * 400;
    let doy = doe - (365 * yoe + yoe / 4 - yoe / 100);
    let mp = (5 * doy + 2) / 153;
    let d = doy - (153 * mp + 2) / 5 + 1;
    let m = if mp < 10 {
        mp + 3
    } else {
        mp - 9
    };
    (if m <= 2 {
        y + 1
    } else {
        y
    }, m, d)
}

/// Whether `y` is a leap year of the proleptic Gregorian calendar.
pub open spec fn is_leap_year(y: int) -> bool {
    y % 4 == 0 && (y % 100 != 0 || y % 400 == 0)
}

/// The number of days of month `m` (1 to 12) in year `y`.
pub open spec fn month_length(y: int, m: int) -> int {
    if m == 2 {
        if is_leap_year(y) {
            29
        } else {
            28
        }
    } else if m == 4 || m == 6 || m == 9 || m == 11 {
        30
    } else {
        31
    }
}

/// A real calendar date: the month is 1 to 12 and the day within that month.
pub open spec fn is_valid_date(date: (int, int, int)) -> bool {
    let (y, m, d) = date;
    1 <= m <= 12 && 1 <= d <= month_length(y, m)
}

/// Days since 1970-01-01 to (year, month, day) in the proleptic Gregorian
/// calendar, by Howard Hinnant's `civil_from_days`.
pub open spec fn civil_from_days_spec(days: int) -> (int, int, int) {
    let z = days + 719468;
    civil_of_era_spec(z / 146097, z % 146097)
}

/// An integer in decimal, zero-padded to `width` characters including a
/// leading '-' for negative values (as `format!("{:0width$}")`).
pub open spec fn signed_padded(v: int, width: nat) -> Seq<char> {
    if v < 0 {
        seq!['-'] + decimal_padded((-v) as nat, if width >= 1 {
            (width - 1) as nat
        } else {
            0
        })
    } else {
        decimal_padded(v as nat, width)
    }
}

/// "YYYY-MM-DDTHH:MM:SS" (UTC, second precision) for a Unix time.
pub open spec fn iso_spec(secs: int) -> Seq<char> {
    let days = secs / 86400;
    let rem = secs % 86400;
    let (y, m, d) = civil_from_days_spec(days);
    signed_padded(y, 4) + seq!['-'] + signed_padded(m, 2) + seq!['-'] + signed_padded(d, 2)
        + seq!['T'] + decimal_padded((rem / 3600) as nat, 2) + seq![':'] + decimal_padded(
        ((rem % 3600) / 60) as nat,
        2,
    ) + seq![':'] + decimal_padded((rem % 60) as nat, 2)
}

/// The time on the system clock (`std::time::SystemTime::now`), as whole
/// nanoseconds since 1970-01-01 (`duration_since(UNIX_EPOCH)`, `as_nanos`);
/// `None` when the clock reads before 1970. It depends on the system clock,
/// so nothing is stated of the value.
#[verifier::external_body]
pub(crate) fn system_time_nanos() -> (r: Option<u128>) {
    std::time::SystemTime::now().duration_since(std::time::UNIX_EPOCH).ok().map(|d| d.as_nanos())
}

/// Whole seconds of a system-clock reading (nanoseconds since 1970, `None`
/// before 1970, which counts as 0), as `Duration::as_secs` cast to `i64`.
pub open spec fn secs_of_reading_spec(n: Option<u128>) -> i64 {
    match n {
        Some(n) => (n / 1_000_000_000) as i64,
        None => 0,
    }
}

/// Whole seconds of a system-clock reading, 0 when it reads before 1970.
pub fn secs_of_reading(n: Option<u128>) -> (r: i64)
    ensures
        r == secs_of_reading_spec(n),
{
    match n {
        Some(n) => (n / 1_000_000_000) as i64,
        None => 0,
    }
}

/// Whole seconds since 1970 on the system clock, 0 when it reads before 1970.
fn unix_now() -> (r: i64)
    ensures
        exists|n: Option<u128>| r == secs_of_reading_spec(n),
{
    secs_of_reading(system_time_nanos())
}

/// Current UTC time as "YYYY-MM-DDTHH:MM:SS".
pub fn now_iso() -> (r: String)
    ensures
        exists|n: Option<u128>| r@ == iso_spec(secs_of_reading_spec(n) as int),
        exists|secs: i64| r@ == iso_spec(secs as int),
{
    let secs = unix_now();
    epoch_to_iso(secs)
}

proof fn div_range(x: int, d: int, lo: int, hi: int)
    requires
        lo <= x <= hi,
        d > 0,
    ensures
        lo / d <= x / d <= hi / d,
{
    vstd::arithmetic::div_mod::lemma_div_is_ordered(lo, x, d);
    vstd::arithmetic::div_mod::lemma_div_is_ordered(x, hi, d);
}

const DAY_SHIFT: i128 = 106_751_991_167_301i128;

const ERA_SHIFT: i128 = 1_000_000_000_000i128;

fn push_signed_padded(out: &mut Vec<char>, v: i128, width: usize)
    requires
        width >= 1,
        v > i128::MIN,
    ensures
        final(out)@ == old(out)@ + signed_padded(v as int, width as nat),
{
    if v < 0 {
        out.push('-');
        let ghost mid = out@;
        push_decimal_padded(out, (-v) as u128, width - 1);
        assert(out@ =~= old(out)@ + signed_padded(v as int, width as nat));
    } else {
        push_decimal_padded(out, v as u128, width);
    }
}

fn civil_from_days(days: i128) -> (r: (i128, i128, i128))
    requires
        -200_000_000_000_000 < days < 200_000_000_000_000,
    ensures
        (r.0 as int, r.1 as int, r.2 as int) == civil_from_days_spec(days as int),
        -10_000_000_000_000 < r.0 < 10_000_000_000_000,
        -1_000_000_000_000 < r.1 < 1_000_000_000_000,
        -1_000_000_000_000 < r.2 < 1_000_000_000_000,
{
    let z = days + 719468;
    let zz = z + ERA_SHIFT * 146097;
    let era = zz / 146097 - ERA_SHIFT;
    let doe = zz % 146097;
    assert(era == z as int / 146097 && doe == z as int % 146097) by (nonlinear_arith)
        requires
            zz == z + ERA_SHIFT * 146097,
            zz >= 0,
            ERA_SHIFT == 1_000_000_000_000i128,
            era == zz / 146097 - ERA_SHIFT,
            doe == zz % 146097,
    ;
    proof {
        div_range(zz as int, 146097, 0, 400_000_000_000_000_000_000);
    }
    civil_of_era(era, doe)
}

#[verifier::rlimit(40)]
fn civil_of_era(era: i128, doe: i128) -> (r: (i128, i128, i128))
    requires
        0 <= doe < 146097,
        -10_000_000_000 < era < 10_000_000_000,
    ensures
        (r.0 as int, r.1 as int, r.2 as int) == civil_of_era_spec(era as int, doe as int),
        -10_000_000_000_000 < r.0 < 10_000_000_000_000,
        -1_000_000_000_000 < r.1 < 1_000_000_000_000,
        -1_000_000_000_000 < r.2 < 1_000_000_000_000,
{
    proof {
        div_range(doe as int, 1460, 0, 146096);
        div_range(doe as int, 36524, 0, 146096);
        div_range(doe as int, 146096, 0, 146096);
    }
    let num = doe - doe / 1460 + doe / 36524 - doe / 146096;
    proof {
        div_range(num as int, 365, -200, 146200);
    }
    let yoe = num / 365;
    proof {
        div_range(yoe as int, 4, -10, 410);
        div_range(yoe as int, 100, -10, 410);
    }
    let y = yoe + era * 400;
    let doy = doe - (365 * yoe + yoe / 4 - yoe / 100);
    proof {
        div_range(5 * doy as int + 2, 153, -1_000_000, 1_000_000);
    }
    let mp = (5 * doy + 2) / 153;
    proof {
        div_range(153 * mp as int + 2, 5, -1_000_000, 1_000_000);
    }
    let d = doy - (153 * mp + 2) / 5 + 1;
    let m = if mp < 10 {
        mp + 3
    } else {
        mp - 9
    };
    (if m <= 2 {
        y + 1
    } else {
        y
    }, m, d)
}

/// "YYYY-MM-DDTHH:MM:SS" (UTC, second precision) for a Unix time.
pub fn epoch_to_iso(secs: i64) -> (r: String)
    ensures
        r@ == iso_spec(secs as int),
{
    let s = secs as i128 + DAY_SHIFT * 86400;
    let days = s / 86400 - DAY_SHIFT;
    let rem = s % 86400;
    assert(days == secs as int / 86400 && rem == secs as int % 86400) by (nonlinear_arith)
        requires
            s == secs as i128 + DAY_SHIFT * 86400,
            s >= 0,
            DAY_SHIFT == 106_751_991_167_301i128,
            days == s / 86400 - DAY_SHIFT,
            rem == s % 86400,
    ;
    let (y, m, d) = civil_from_days(days);
    let mut out: Vec<char> = Vec::new();
    push_signed_padded(&mut out, y, 4);
    out.push('-');
    push_signed_padded(&mut out, m, 2);
    out.push('-');
    push_signed_padded(&mut out, d, 2);
    out.push('T');
    push_decimal_padded(&mut out, (rem / 3600) as u128, 2);
    out.push(':');
    push_decimal_padded(&mut out, ((rem % 3600) / 60) as u128, 2);
    out.push(':');
    push_decimal_padded(&mut out, (rem % 60) as u128, 2);
    assert(out@ =~= iso_spec(secs as int));
    string_of(&out)
}

/// Within one 400-year era, every day of the era is a real calendar date.
#[verifier::spinoff_prover]
proof fn lemma_era_day_valid(doe: int)
    requires
        0 <= doe < 146097,
    ensures
        is_valid_date(civil_of_era_spec(0, doe)),
{
}

/// Years 400 apart are both leap years or both common years.
proof fn lemma_leap_every_400_years(y: int, era: int)
    ensures
        is_leap_year(y + era * 400) == is_leap_year(y),
{
    let z = y + era * 400;
    assert(z % 4 == y % 4 && z % 100 == y % 100 && z % 400 == y % 400) by (nonlinear_arith)
        requires
            z == y + era * 400,
    ;
}

/// Every timestamp, before or after 1970, is written with a real calendar
/// date (the month 1 to 12, the day within that month of that year) and a
/// real time of day.
#[verifier::spinoff_prover]
pub proof fn law_timestamp_is_valid(secs: int)
    ensures
        is_valid_date(civil_from_days_spec(secs / 86400)),
        0 <= (secs % 86400) / 3600 < 24,
        0 <= ((secs % 86400) % 3600) / 60 < 60,
        0 <= (secs % 86400) % 60 < 60,
{
    let z = secs / 86400 + 719468;
    let era = z / 146097;
    let doe = z % 146097;
    lemma_era_day_valid(doe);
    let (y0, m, d) = civil_of_era_spec(0, doe);
    assert(civil_of_era_spec(era, doe) == (y0 + era * 400, m, d));
    lemma_leap_every_400_years(y0, era);
}

proof fn lemma_decimal_short(n: nat)
    ensures
        decimal(n).len() >= 1,
        n < 10 ==> decimal(n).len() == 1,
        n < 100 ==> decimal(n).len() <= 2,
        n < 1000 ==> decimal(n).len() <= 3,
        n < 10000 ==> decimal(n).len() <= 4,
    decreases n,
{
    if n >= 10 {
        lemma_decimal_short(n / 10);
    }
}

/// The years 1970 to 9999 all fall on day numbers 0 to 2932896.
#[verifier::spinoff_prover]
proof fn lemma_year_range(days: int)
    requires
        0 <= days <= 2932896,
    ensures
        1970 <= civil_from_days_spec(days).0 <= 9999,
{
}

/// From 1970 to the end of the year 9999, a timestamp is always written
/// with exactly 19 characters ("YYYY-MM-DDTHH:MM:SS").
pub proof fn law_timestamp_length(secs: int)
    requires
        0 <= secs < 253402300800,
    ensures
        iso_spec(secs).len() == 19,
{
    let days = secs / 86400;
    let rem = secs % 86400;
    law_timestamp_is_valid(secs);
    lemma_year_range(days);
    let (y, m, d) = civil_from_days_spec(days);
    lemma_decimal_short(y as nat);
    lemma_decimal_short(m as nat);
    lemma_decimal_short(d as nat);
    lemma_decimal_short((rem / 3600) as nat);
    lemma_decimal_short(((rem % 3600) / 60) as nat);
    lemma_decimal_short((rem % 60) as nat);
}

/// Dates in strict calendar order.
pub open spec fn date_lt(a: (int, int, int), b: (int, int, int)) -> bool {
    a.0 < b.0 || (a.0 == b.0 && (a.1 < b.1 || (a.1 == b.1 && a.2 < b.2)))
}

/// Dates in calendar order.
pub open spec fn date_le(a: (int, int, int), b: (int, int, int)) -> bool {
    a.0 < b.0 || (a.0 == b.0 && (a.1 < b.1 || (a.1 == b.1 && a.2 <= b.2)))
}

#[verifier::spinoff_prover]
#[verifier::rlimit(100)]
proof fn lemma_next_era_day_later(doe: int)
    requires
        0 <= doe < 146096,
    ensures
        date_lt(civil_of_era_spec(0, doe), civil_of_era_spec(0, doe + 1)),
{
}

/// The last day of an era is followed by the first day of the next.
#[verifier::spinoff_prover]
proof fn lemma_era_boundary()
    ensures
        civil_of_era_spec(0, 146096) == (400int, 2int, 29int),
        civil_of_era_spec(0, 0) == (0int, 3int, 1int),
{
}

/// The day after a day falls on a later date.
#[verifier::spinoff_prover]
proof fn lemma_next_day_later(days: int)
    ensures
        date_lt(civil_from_days_spec(days), civil_from_days_spec(days + 1)),
{
    let z = days + 719468;
    let era = z / 146097;
    let doe = z % 146097;
    let (y0, m0, d0) = civil_of_era_spec(0, doe);
    assert(civil_from_days_spec(days) == (y0 + era * 400, m0, d0));
    if doe < 146096 {
        lemma_next_era_day_later(doe);
        let (y1, m1, d1) = civil_of_era_spec(0, doe + 1);
        assert((z + 1) / 146097 == era && (z + 1) % 146097 == doe + 1);
        assert(civil_from_days_spec(days + 1) == (y1 + era * 400, m1, d1));
    } else {
        lemma_era_boundary();
        assert((z + 1) / 146097 == era + 1 && (z + 1) % 146097 == 0);
        assert(civil_from_days_spec(days + 1) == (0 + (era + 1) * 400, 3int, 1int));
        assert(civil_from_days_spec(days) == (400 + era * 400, 2int, 29int));
    }
}

/// The calendar keeps time's order: a later day falls on a later date.
pub proof fn law_calendar_is_ordered(a: int, b: int)
    requires
        a <= b,
    ensures
        date_le(civil_from_days_spec(a), civil_from_days_spec(b)),
        a < b ==> date_lt(civil_from_days_spec(a), civil_from_days_spec(b)),
    decreases b - a,
{
    if a < b {
        law_calendar_is_ordered(a, b - 1);
        lemma_next_day_later(b - 1);
    }
}

/// The four digits of a number below 10000.
#[verifier::opaque]
pub open spec fn digits4(n: int) -> Seq<char> {
    seq![
        digit_char(n / 1000 % 10),
        digit_char(n / 100 % 10),
        digit_char(n / 10 % 10),
        digit_char(n % 10),
    ]
}

/// The two digits of a number below 100.
#[verifier::opaque]
pub open spec fn digits2(n: int) -> Seq<char> {
    seq![digit_char(n / 10 % 10), digit_char(n % 10)]
}

proof fn lemma_pad4(n: int)
    requires
        0 <= n < 10000,
    ensures
        decimal_padded(n as nat, 4) == digits4(n),
{
    reveal(digits4);
    let d0 = n % 10;
    let n1 = n / 10;
    if n < 10 {
        assert(decimal(n as nat) == seq![digit_char(n)]);
        assert(decimal_padded(n as nat, 4) =~= digits4(n));
    } else if n < 100 {
        assert(decimal(n1 as nat) == seq![digit_char(n1)]);
        assert(decimal(n as nat) == decimal(n1 as nat).push(digit_char(d0)));
        assert(decimal_padded(n as nat, 4) =~= digits4(n));
    } else if n < 1000 {
        let n2 = n1 / 10;
        assert(decimal(n2 as nat) == seq![digit_char(n2)]);
        assert(decimal(n1 as nat) == decimal(n2 as nat).push(digit_char(n1 % 10)));
        assert(decimal(n as nat) == decimal(n1 as nat).push(digit_char(d0)));
        assert(decimal_padded(n as nat, 4) =~= digits4(n));
    } else {
        let n2 = n1 / 10;
        let n3 = n2 / 10;
        assert(decimal(n3 as nat) == seq![digit_char(n3)]);
        assert(decimal(n2 as nat) == decimal(n3 as nat).push(digit_char(n2 % 10)));
        assert(decimal(n1 as nat) == decimal(n2 as nat).push(digit_char(n1 % 10)));
        assert(decimal(n as nat) == decimal(n1 as nat).push(digit_char(d0)));
        assert(decimal_padded(n as nat, 4) =~= digits4(n));
    }
}

proof fn lemma_pad2(n: int)
    requires
        0 <= n < 100,
    ensures
        decimal_padded(n as nat, 2) == digits2(n),
{
    reveal(digits2);
    if n < 10 {
        assert(decimal(n as nat) == seq![digit_char(n)]);
        assert(decimal_padded(n as nat, 2) =~= digits2(n));
    } else {
        assert(decimal((n / 10) as nat) == seq![digit_char(n / 10)]);
        assert(decimal(n as nat) == decimal((n / 10) as nat).push(digit_char(n % 10)));
        assert(decimal_padded(n as nat, 2) =~= digits2(n));
    }
}

/// Two texts of one length compare at their first difference.
proof fn lemma_lex_at(a: Seq<char>, b: Seq<char>, k: int)
    requires
        a.len() == b.len(),
        0 <= k < a.len(),
        forall|i: int| 0 <= i < k ==> a[i] == b[i],
        a[k] < b[k],
    ensures
        lex_less(a, b),
    decreases k,
{
    if k > 0 {
        assert(a[0] == b[0]);
        let a1 = a.drop_first();
        let b1 = b.drop_first();
        assert forall|i: int| 0 <= i < k - 1 implies a1[i] == b1[i] by {
            assert(a[i + 1] == b[i + 1]);
        }
        lemma_lex_at(a1, b1, k - 1);
    }
}

/// A shared beginning does not change how texts compare.
proof fn lemma_lex_common_prefix(x: Seq<char>, y1: Seq<char>, y2: Seq<char>)
    requires
        lex_less(y1, y2),
    ensures
        lex_less(x + y1, x + y2),
    decreases x.len(),
{
    if x.len() == 0 {
        assert(x + y1 =~= y1);
        assert(x + y2 =~= y2);
    } else {
        lemma_lex_common_prefix(x.drop_first(), y1, y2);
        assert((x + y1).drop_first() =~= x.drop_first() + y1);
        assert((x + y2).drop_first() =~= x.drop_first() + y2);
    }
}

/// Texts of one length that compare one way keep doing so whatever follows.
proof fn lemma_lex_prefix_decides(x1: Seq<char>, x2: Seq<char>, y1: Seq<char>, y2: Seq<char>)
    requires
        x1.len() == x2.len(),
        lex_less(x1, x2),
    ensures
        lex_less(x1 + y1, x2 + y2),
    decreases x1.len(),
{
    if x1[0] == x2[0] {
        lemma_lex_prefix_decides(x1.drop_first(), x2.drop_first(), y1, y2);
        assert((x1 + y1).drop_first() =~= x1.drop_first() + y1);
        assert((x2 + y2).drop_first() =~= x2.drop_first() + y2);
    }
}

/// A smaller number below 10000 has the smaller four digits.
#[verifier::spinoff_prover]
#[verifier::rlimit(40)]
proof fn lemma_digits4_order(x: int, y: int)
    requires
        0 <= x < y < 10000,
    ensures
        digits4(x).len() == 4 && digits4(y).len() == 4,
        lex_less(digits4(x), digits4(y)),
{
    reveal(digits4);
    let a = digits4(x);
    let b = digits4(y);
    if x / 1000 != y / 1000 {
        lemma_lex_at(a, b, 0);
    } else if x / 100 != y / 100 {
        lemma_lex_at(a, b, 1);
    } else if x / 10 != y / 10 {
        lemma_lex_at(a, b, 2);
    } else {
        lemma_lex_at(a, b, 3);
    }
}

/// A smaller number below 100 has the smaller two digits.
proof fn lemma_digits2_order(x: int, y: int)
    requires
        0 <= x < y < 100,
    ensures
        digits2(x).len() == 2 && digits2(y).len() == 2,
        lex_less(digits2(x), digits2(y)),
{
    reveal(digits2);
    let a = digits2(x);
    let b = digits2(y);
    if x / 10 != y / 10 {
        lemma_lex_at(a, b, 0);
    } else {
        lemma_lex_at(a, b, 1);
    }
}

/// "YYYY-MM-DDTHH:MM:SS" for year, month, day, hour, minute and second
/// in their fixed widths.
pub open spec fn stamp(y: int, mo: int, d: int, h: int, mi: int, s: int) -> Seq<char> {
    digits4(y) + (seq!['-'] + (digits2(mo) + (seq!['-'] + (digits2(d) + (seq!['T'] + (digits2(h)
        + (seq![':'] + (digits2(mi) + (seq![':'] + digits2(s))))))))))
}

/// The fields of a timestamp: year, month, day, hour, minute, second.
#[verifier::opaque]
pub open spec fn stamp_fields(secs: int) -> (int, int, int, int, int, int) {
    let (y, m, d) = civil_from_days_spec(secs / 86400);
    let rem = secs % 86400;
    (y, m, d, rem / 3600, (rem % 3600) / 60, rem % 60)
}

/// From 1970 to 9999 the text of a timestamp is its fields in fixed widths.
#[verifier::spinoff_prover]
#[verifier::rlimit(100)]
proof fn lemma_iso_is_stamp(secs: int)
    requires
        0 <= secs < 253402300800,
    ensures
        ({
            let f = stamp_fields(secs);
            &&& 1970 <= f.0 <= 9999
            &&& 1 <= f.1 <= 12 && 1 <= f.2 <= 31
            &&& 0 <= f.3 < 24 && 0 <= f.4 < 60 && 0 <= f.5 < 60
            &&& iso_spec(secs) == stamp(f.0, f.1, f.2, f.3, f.4, f.5)
        }),
{
    reveal(stamp_fields);
    let days = secs / 86400;
    law_timestamp_is_valid(secs);
    lemma_year_range(days);
    let f = stamp_fields(secs);
    lemma_pad4(f.0);
    lemma_pad2(f.1);
    lemma_pad2(f.2);
    lemma_pad2(f.3);
    lemma_pad2(f.4);
    lemma_pad2(f.5);
    assert(signed_padded(f.0, 4) == decimal_padded(f.0 as nat, 4));
    assert(signed_padded(f.1, 2) == decimal_padded(f.1 as nat, 2));
    assert(signed_padded(f.2, 2) == decimal_padded(f.2 as nat, 2));
    assert(iso_spec(secs) =~= stamp(f.0, f.1, f.2, f.3, f.4, f.5));
}

/// Field-wise order of timestamps: year, then month, day, hour, minute, second.
pub open spec fn fields_lt(a: (int, int, int, int, int, int), b: (int, int, int, int, int, int)) -> bool {
    ||| a.0 < b.0
    ||| a.0 == b.0 && a.1 < b.1
    ||| a.0 == b.0 && a.1 == b.1 && a.2 < b.2
    ||| a.0 == b.0 && a.1 == b.1 && a.2 == b.2 && a.3 < b.3
    ||| a.0 == b.0 && a.1 == b.1 && a.2 == b.2 && a.3 == b.3 && a.4 < b.4
    ||| a.0 == b.0 && a.1 == b.1 && a.2 == b.2 && a.3 == b.3 && a.4 == b.4 && a.5 < b.5
}

/// A later second has later fields.
#[verifier::spinoff_prover]
proof fn lemma_fields_order(a: int, b: int)
    requires
        0 <= a < b,
    ensures
        fields_lt(stamp_fields(a), stamp_fields(b)),
{
    reveal(stamp_fields);
    if a / 86400 < b / 86400 {
        law_calendar_is_ordered(a / 86400, b / 86400);
    } else {
        assert(a / 86400 == b / 86400);
        assert(a % 86400 < b % 86400);
    }
}

/// Fields in field-wise order give texts in text order.
proof fn lemma_stamp_order(a: (int, int, int, int, int, int), b: (int, int, int, int, int, int))
    requires
        0 <= a.0 < 10000 && 0 <= b.0 < 10000,
        0 <= a.1 < 100 && 0 <= b.1 < 100,
        0 <= a.2 < 100 && 0 <= b.2 < 100,
        0 <= a.3 < 100 && 0 <= b.3 < 100,
        0 <= a.4 < 100 && 0 <= b.4 < 100,
        0 <= a.5 < 100 && 0 <= b.5 < 100,
        fields_lt(a, b),
    ensures
        lex_less(stamp(a.0, a.1, a.2, a.3, a.4, a.5), stamp(b.0, b.1, b.2, b.3, b.4, b.5)),
{
    let ya = digits4(a.0);
    let yb = digits4(b.0);
    // What follows each field, for a and for b.
    let sa = seq![':'] + digits2(a.5);
    let sb = seq![':'] + digits2(b.5);
    let ia = seq![':'] + (digits2(a.4) + sa);
    let ib = seq![':'] + (digits2(b.4) + sb);
    let ha = seq!['T'] + (digits2(a.3) + ia);
    let hb = seq!['T'] + (digits2(b.3) + ib);
    let da = seq!['-'] + (digits2(a.2) + ha);
    let db = seq!['-'] + (digits2(b.2) + hb);
    let ma = seq!['-'] + (digits2(a.1) + da);
    let mb = seq!['-'] + (digits2(b.1) + db);
    assert(stamp(a.0, a.1, a.2, a.3, a.4, a.5) == ya + ma);
    assert(stamp(b.0, b.1, b.2, b.3, b.4, b.5) == yb + mb);
    if a.0 < b.0 {
        lemma_digits4_order(a.0, b.0);
        lemma_lex_prefix_decides(ya, yb, ma, mb);
    } else {
        assert(lex_less(ma, mb)) by {
            let p = seq!['-'];
            assert(lex_less(digits2(a.1) + da, digits2(b.1) + db)) by {
                if a.1 < b.1 {
                    lemma_digits2_order(a.1, b.1);
                    lemma_lex_prefix_decides(digits2(a.1), digits2(b.1), da, db);
                } else {
                    assert(lex_less(da, db)) by {
                        assert(lex_less(digits2(a.2) + ha, digits2(b.2) + hb)) by {
                            if a.2 < b.2 {
                                lemma_digits2_order(a.2, b.2);
                                lemma_lex_prefix_decides(digits2(a.2), digits2(b.2), ha, hb);
                            } else {
                                assert(lex_less(ha, hb)) by {
                                    assert(lex_less(digits2(a.3) + ia, digits2(b.3) + ib)) by {
                                        if a.3 < b.3 {
                                            lemma_digits2_order(a.3, b.3);
                                            lemma_lex_prefix_decides(digits2(a.3), digits2(b.3), ia, ib);
                                        } else {
                                            assert(lex_less(ia, ib)) by {
                                                assert(lex_less(digits2(a.4) + sa, digits2(b.4) + sb)) by {
                                                    if a.4 < b.4 {
                                                        lemma_digits2_order(a.4, b.4);
                                                        lemma_lex_prefix_decides(
                                                            digits2(a.4),
                                                            digits2(b.4),
                                                            sa,
                                                            sb,
                                                        );
                                                    } else {
                                                        lemma_digits2_order(a.5, b.5);
                                                        lemma_lex_common_prefix(
                                                            seq![':'],
                                                            digits2(a.5),
                                                            digits2(b.5),
                                                        );
                                                        lemma_lex_common_prefix(digits2(a.4), sa, sb);
                                                    }
                                                }
                                                lemma_lex_common_prefix(
                                                    seq![':'],
                                                    digits2(a.4) + sa,
                                                    digits2(b.4) + sb,
                                                );
                                            }
                                            lemma_lex_common_prefix(digits2(a.3), ia, ib);
                                        }
                                    }
                                    lemma_lex_common_prefix(seq!['T'], digits2(a.3) + ia, digits2(b.3) + ib);
                                }
                                lemma_lex_common_prefix(digits2(a.2), ha, hb);
                            }
                        }
                        lemma_lex_common_prefix(p, digits2(a.2) + ha, digits2(b.2) + hb);
                    }
                    lemma_lex_common_prefix(digits2(a.1), da, db);
                }
            }
            lemma_lex_common_prefix(p, digits2(a.1) + da, digits2(b.1) + db);
        }
        lemma_lex_common_prefix(ya, ma, mb);
    }
}

/// From 1970 to the end of 9999, timestamps read in time order: a later
/// second is written as a text that sorts after the earlier one.
pub proof fn law_timestamp_text_order(a: int, b: int)
    requires
        0 <= a < b < 253402300800,
    ensures
        lex_less(iso_spec(a), iso_spec(b)),
{
    lemma_iso_is_stamp(a);
    lemma_iso_is_stamp(b);
    lemma_fields_order(a, b);
    lemma_stamp_order(stamp_fields(a), stamp_fields(b));
}

} // verus!
