//! Calendar dates of UTC seconds, in the proleptic Gregorian calendar.
use crate::text;
use vstd::prelude::*;

verus! {

/// A calendar date.
pub struct DateV {
    pub year: int,
    pub month: int,
    pub day: int,
}

/// True of a year with a 29 February.
pub open spec fn is_leap(year: int) -> bool {
    year % 4 == 0 && (year % 100 != 0 || year % 400 == 0)
}

/// The days of a month.
pub open spec fn month_length(year: int, month: int) -> int {
    if month == 2 {
        if is_leap(year) {
            29
        } else {
            28
        }
    } else if month == 4 || month == 6 || month == 9 || month == 11 {
        30
    } else {
        31
    }
}

/// True of a date that the calendar has.
pub open spec fn is_date(d: DateV) -> bool {
    1 <= d.month <= 12 && 1 <= d.day <= month_length(d.year, d.month)
}

/// The days of a year before a month.
pub open spec fn days_before_month(year: int, month: int) -> int
    decreases month,
{
    if month <= 1 {
        0
    } else {
        days_before_month(year, month - 1) + month_length(year, month - 1)
    }
}

/// The days from the start of the year 1 to the start of a year.
pub open spec fn days_before_year(year: int) -> int {
    365 * (year - 1) + (year - 1) / 4 - (year - 1) / 100 + (year - 1) / 400
}

/// The days from 1970-01-01 to a date.
pub open spec fn day_number(d: DateV) -> int {
    days_before_year(d.year) + days_before_month(d.year, d.month) + d.day - 1 - 719162
}

/// The date of a day, counted from 1970-01-01.
pub open spec fn date_of(day: int) -> DateV {
    choose|d: DateV| is_date(d) && #[trigger] day_number(d) == day
}

/// A number with at least `width` digits.
pub open spec fn padded(n: nat, width: nat) -> Seq<char> {
    if text::decimal(n).len() >= width {
        text::decimal(n)
    } else {
        Seq::new((width - text::decimal(n).len()) as nat, |i: int| '0') + text::decimal(n)
    }
}

/// A second of UTC, counted from 1970, in ISO 8601.
pub open spec fn iso8601(secs: nat) -> Seq<char> {
    let d = date_of((secs / 86400) as int);
    let rem = secs % 86400;
    padded(d.year as nat, 4) + "-"@ + padded(d.month as nat, 2) + "-"@ + padded(d.day as nat, 2)
        + "T"@ + padded(rem / 3600, 2) + ":"@ + padded(rem % 3600 / 60, 2) + ":"@ + padded(
        rem % 60,
        2,
    ) + "Z"@
}

spec fn month_table(leap: bool, month: int) -> int {
    let b: int = if leap {
        1
    } else {
        0
    };
    if month == 1 {
        0
    } else if month == 2 {
        31
    } else if month == 3 {
        59 + b
    } else if month == 4 {
        90 + b
    } else if month == 5 {
        120 + b
    } else if month == 6 {
        151 + b
    } else if month == 7 {
        181 + b
    } else if month == 8 {
        212 + b
    } else if month == 9 {
        243 + b
    } else if month == 10 {
        273 + b
    } else if month == 11 {
        304 + b
    } else {
        334 + b
    }
}

proof fn lemma_month_table(year: int, month: int)
    requires
        1 <= month <= 12,
    ensures
        days_before_month(year, month) == month_table(is_leap(year), month),
{
    reveal_with_fuel(days_before_month, 13);
}

proof fn lemma_year_length(year: int)
    ensures
        days_before_year(year + 1) == days_before_year(year) + 365 + if is_leap(year) {
            1int
        } else {
            0
        },
{
}

proof fn lemma_years_apart(a: int, b: int)
    requires
        a < b,
    ensures
        days_before_year(b) >= days_before_year(a + 1),
    decreases b - a,
{
    if a + 1 < b {
        lemma_years_apart(a, b - 1);
        lemma_year_length(b - 1);
    }
}

proof fn lemma_within_year(d: DateV)
    requires
        is_date(d),
    ensures
        days_before_year(d.year) <= day_number(d) + 719162 < days_before_year(d.year + 1),
{
    lemma_month_table(d.year, d.month);
    lemma_year_length(d.year);
}

/// No two dates have the same day number.
pub proof fn lemma_day_number_injective(a: DateV, b: DateV)
    requires
        is_date(a),
        is_date(b),
        day_number(a) == day_number(b),
    ensures
        a == b,
{
    lemma_within_year(a);
    lemma_within_year(b);
    if a.year < b.year {
        lemma_years_apart(a.year, b.year);
    } else if b.year < a.year {
        lemma_years_apart(b.year, a.year);
    }
    lemma_month_table(a.year, a.month);
    lemma_month_table(b.year, b.month);
}

/// A date is the date of its day number: counting days and reading off dates
/// undo one another.
pub proof fn law_date_of_day_number(d: DateV)
    requires
        is_date(d),
    ensures
        date_of(day_number(d)) == d,
{
    let e = date_of(day_number(d));
    assert(is_date(e) && day_number(e) == day_number(d));
    lemma_day_number_injective(e, d);
}

// The year of an era of 400 years that starts on 1 March, by the day of the era.
proof fn lemma_year_of_era(doe: int, yoe: int)
    requires
        0 <= doe < 146097,
        yoe == (doe - doe / 1460 + doe / 36524 - doe / 146096) / 365,
    ensures
        0 <= yoe < 400,
        365 * yoe + yoe / 4 - yoe / 100 <= doe,
        doe - (365 * yoe + yoe / 4 - yoe / 100) <= 365,
        doe - (365 * yoe + yoe / 4 - yoe / 100) == 365 ==> is_leap(yoe + 1),
{
    let c = doe / 36524;
    assert(0 <= c <= 4);
    if c == 0 {
        lemma_year_of_century(doe, 0, yoe);
    } else if c == 1 {
        lemma_year_of_century(doe, 1, yoe);
    } else if c == 2 {
        lemma_year_of_century(doe, 2, yoe);
    } else if c == 3 {
        lemma_year_of_century(doe, 3, yoe);
    } else {
        assert(doe == 146096);
    }
}

proof fn lemma_year_of_century(doe: int, c: int, yoe: int)
    requires
        0 <= c <= 3,
        36524 * c <= doe < 36524 * (c + 1),
        doe < 146096,
        yoe == (doe - doe / 1460 + c) / 365,
    ensures
        0 <= yoe < 400,
        365 * yoe + yoe / 4 - yoe / 100 <= doe,
        doe - (365 * yoe + yoe / 4 - yoe / 100) <= 365,
        doe - (365 * yoe + yoe / 4 - yoe / 100) == 365 ==> is_leap(yoe + 1),
{
}

/// The date of a day, counted from 0000-03-01; days before it are negative.
pub fn civil_from_days(z: i64) -> (r: (i64, u32, u32))
    ensures
        is_date((DateV { year: r.0 as int, month: r.1 as int, day: r.2 as int })),
        day_number((DateV { year: r.0 as int, month: r.1 as int, day: r.2 as int })) == z - 719468,
        z >= 0 ==> r.0 >= 0,
{
    // Division rounds towards zero, so an era before the first takes one step more.
    let back = z < 0 && z % 146_097 != 0;
    let era: i64 = if back {
        z / 146_097 - 1
    } else {
        z / 146_097
    };
    let doe: i64 = if back {
        z % 146_097 + 146_097
    } else {
        z % 146_097
    };
    let yoe: i64 = (doe - doe / 1460 + doe / 36_524 - doe / 146_096) / 365;
    proof {
        lemma_year_of_era(doe as int, yoe as int);
    }
    let y: i64 = yoe + era * 400;
    let doy: i64 = doe - (365 * yoe + yoe / 4 - yoe / 100);
    let mp: i64 = (5 * doy + 2) / 153;
    let d: u32 = (doy - (153 * mp + 2) / 5 + 1) as u32;
    let m: u32 = if mp < 10 {
        (mp + 3) as u32
    } else {
        (mp - 9) as u32
    };
    let year: i64 = if m <= 2 {
        y + 1
    } else {
        y
    };
    proof {
        lemma_date_of_era(era as int, doe as int, yoe as int, doy as int, mp as int);
    }
    (year, m, d)
}

// A leap year of an era is one of the calendar.
proof fn lemma_year_in_era(era: int, yoe: int)
    requires
        0 <= yoe < 400,
    ensures
        is_leap(yoe + era * 400) == is_leap(yoe),
        is_leap(yoe + era * 400 + 1) == is_leap(yoe + 1),
        (yoe + era * 400) / 4 == yoe / 4 + 100 * era,
        (yoe + era * 400) / 100 == yoe / 100 + 4 * era,
        (yoe + era * 400) / 400 == era,
{
}

proof fn lemma_date_of_era(era: int, doe: int, yoe: int, doy: int, mp: int)
    requires
        0 <= doe < 146097,
        0 <= yoe < 400,
        doy == doe - (365 * yoe + yoe / 4 - yoe / 100),
        0 <= doy <= 365,
        doy == 365 ==> is_leap(yoe + 1),
        mp == (5 * doy + 2) / 153,
    ensures
        ({
            let d = doy - (153 * mp + 2) / 5 + 1;
            let m = if mp < 10 {
                mp + 3
            } else {
                mp - 9
            };
            let y = yoe + era * 400;
            let date = DateV {
                year: if m <= 2 {
                    y + 1
                } else {
                    y
                },
                month: m,
                day: d,
            };
            is_date(date) && day_number(date) == era * 146097 + doe - 719468
        }),
{
    let d = doy - (153 * mp + 2) / 5 + 1;
    let m = if mp < 10 {
        mp + 3
    } else {
        mp - 9
    };
    let y = yoe + era * 400;
    let year = if m <= 2 {
        y + 1
    } else {
        y
    };
    assert(0 <= mp <= 11);
    lemma_month_table(year, m);
    lemma_year_in_era(era, yoe);
    lemma_year_length(y);
    // The solver takes the months one by one.
    assert(mp == 0 || mp == 1 || mp == 2 || mp == 3 || mp == 4 || mp == 5 || mp == 6 || mp == 7
        || mp == 8 || mp == 9 || mp == 10 || mp == 11);
}

fn push_padded(s: &mut String, n: u64, width: usize)
    ensures
        final(s)@ == old(s)@ + padded(n as nat, width as nat),
{
    let d = text::to_decimal(n);
    let v = text::chars_of(d.as_str());
    let have: usize = v.len();
    let ghost zeros = Seq::new(
        if have >= width {
            0
        } else {
            (width - have) as nat
        },
        |i: int| '0',
    );
    let ghost start = s@;
    let mut k: usize = have;
    proof {
        assert(s@ =~= start + zeros.take(0));
    }
    while k < width
        invariant
            have <= k,
            k <= width || width <= have,
            zeros.len() == if have >= width {
                0
            } else {
                width - have
            },
            forall|i: int| 0 <= i < zeros.len() ==> #[trigger] zeros[i] == '0',
            width <= have ==> k == have,
            s@ == start + zeros.take(k - have),
        decreases width - k,
    {
        s.push('0');
        proof {
            assert(zeros.take(k + 1 - have) =~= zeros.take(k - have).push('0'));
            assert(s@ =~= start + zeros.take(k + 1 - have));
        }
        k = k + 1;
    }
    s.append(d.as_str());
    proof {
        assert(zeros.take(k - have) =~= zeros);
        assert(s@ =~= start + padded(n as nat, width as nat));
    }
}

/// Writes a second of UTC, counted from 1970, in ISO 8601:
/// `YYYY-MM-DDTHH:MM:SSZ`.
pub fn unix_to_iso8601(secs: u64) -> (r: String)
    ensures
        r@ == iso8601(secs as nat),
{
    let days: i64 = (secs / 86_400) as i64;
    let rem: u64 = secs % 86_400;
    let (y, m, d) = civil_from_days(days + 719_468);
    proof {
        law_date_of_day_number(DateV { year: y as int, month: m as int, day: d as int });
    }
    let mut s = String::new();
    push_padded(&mut s, y as u64, 4);
    s.append("-");
    push_padded(&mut s, m as u64, 2);
    s.append("-");
    push_padded(&mut s, d as u64, 2);
    s.append("T");
    push_padded(&mut s, rem / 3600, 2);
    s.append(":");
    push_padded(&mut s, rem % 3600 / 60, 2);
    s.append(":");
    push_padded(&mut s, rem % 60, 2);
    s.append("Z");
    proof {
        assert(s@ =~= iso8601(secs as nat));
    }
    s
}

/// The day after a date is the next of its month, or the first of the next month, or the
/// first of the next year. The first of January 1970 is day zero.
pub proof fn law_days_follow_one_another(d: DateV)
    requires
        is_date(d),
    ensures
        d.day < month_length(d.year, d.month) ==> date_of(day_number(d) + 1) == (DateV {
            day: d.day + 1,
            ..d
        }),
        d.day == month_length(d.year, d.month) && d.month < 12 ==> date_of(day_number(d) + 1) == (
        DateV { day: 1, month: d.month + 1, ..d }),
        d.day == month_length(d.year, d.month) && d.month == 12 ==> date_of(day_number(d) + 1) == (
        DateV { day: 1, month: 1, year: d.year + 1 }),
        date_of(0) == (DateV { year: 1970, month: 1, day: 1 }),
{
    let epoch = DateV { year: 1970, month: 1, day: 1 };
    assert(day_number(epoch) == 0);
    law_date_of_day_number(epoch);
    if d.day < month_length(d.year, d.month) {
        law_date_of_day_number(DateV { day: d.day + 1, ..d });
    } else if d.month < 12 {
        law_date_of_day_number(DateV { day: 1, month: d.month + 1, ..d });
    } else {
        let next = DateV { day: 1, month: 1, year: d.year + 1 };
        lemma_month_table(d.year, 12);
        lemma_year_length(d.year);
        law_date_of_day_number(next);
    }
}

/// Months have the days that they have, and every fourth year a day more, but for three
/// in four centuries.
pub proof fn law_months_have_their_days(year: int)
    ensures
        month_length(year, 1) == 31 && month_length(year, 3) == 31 && month_length(year, 4) == 30
            && month_length(year, 5) == 31 && month_length(year, 6) == 30 && month_length(year, 7)
            == 31 && month_length(year, 8) == 31 && month_length(year, 9) == 30 && month_length(
            year,
            10,
        ) == 31 && month_length(year, 11) == 30 && month_length(year, 12) == 31,
        year % 4 != 0 ==> month_length(year, 2) == 28,
        year % 4 == 0 && year % 100 != 0 ==> month_length(year, 2) == 29,
        year % 100 == 0 && year % 400 != 0 ==> month_length(year, 2) == 28,
        year % 400 == 0 ==> month_length(year, 2) == 29,
{
}

/// A padded number has at least the digits that were asked for, spells the number, and
/// begins with zeros where the number is shorter.
pub proof fn law_padding_is_zeros(n: nat, width: nat)
    ensures
        padded(n, width).len() >= width,
        text::decimal(n).is_suffix_of(padded(n, width)),
        forall|i: int|
            0 <= i < padded(n, width).len() - text::decimal(n).len() ==> #[trigger] padded(
                n,
                width,
            )[i] == '0',
        text::decimal(n).len() >= width ==> padded(n, width) == text::decimal(n),
{
    let d = text::decimal(n);
    let p = padded(n, width);
    assert(p.subrange(p.len() - d.len(), p.len() as int) =~= d);
}

/// The text of a time has its date, and behind a T its hour, minute and second, each with
/// two digits.
pub proof fn law_text_of_a_time(day: nat, hour: nat, minute: nat, second: nat)
    requires
        hour < 24,
        minute < 60,
        second < 60,
    ensures
        ({
            let d = date_of(day as int);
            iso8601(day * 86400 + hour * 3600 + minute * 60 + second) == padded(d.year as nat, 4)
                + "-"@ + padded(d.month as nat, 2) + "-"@ + padded(d.day as nat, 2) + "T"@ + padded(
                hour,
                2,
            ) + ":"@ + padded(minute, 2) + ":"@ + padded(second, 2) + "Z"@
        }),
{
    let secs = day * 86400 + hour * 3600 + minute * 60 + second;
    let rem = secs % 86400;
    assert(secs / 86400 == day);
    assert(rem == hour * 3600 + minute * 60 + second);
    assert(rem / 3600 == hour);
    assert(rem % 3600 / 60 == minute);
    assert(rem % 60 == second);
}

} // verus!
