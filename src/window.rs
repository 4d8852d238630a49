//! Calendar dates and the extraction window of date-bounded sources.
use vstd::prelude::*;

verus! {

/// A calendar date of the proleptic Gregorian calendar.
#[derive(Clone, Copy, Debug, PartialEq, Eq, Structural)]
pub struct Date {
    pub year: i32,
    pub month: u32,
    pub day: u32,
}

/// The earliest year a date may have.
pub open spec fn min_year() -> int {
    -262143
}

/// The latest year a date may have.
pub open spec fn max_year() -> int {
    262142
}

/// Whether `y` is a leap year.
pub open spec fn is_leap(y: int) -> bool {
    (y % 4 == 0 && y % 100 != 0) || y % 400 == 0
}

/// The number of days of month `m` of year `y`.
pub open spec fn days_in_month(y: int, m: int) -> int {
    if m == 2 {
        if is_leap(y) {
            29
        } else {
            28
        }
    } else if m == 4 || m == 6 || m == 9 || m == 11 {
        30
    } else {
        31
    }
}

/// Whether `d` names a day that exists, within the years a date may have.
pub open spec fn valid_date(d: Date) -> bool {
    &&& min_year() <= d.year <= max_year()
    &&& 1 <= d.month <= 12
    &&& 1 <= d.day <= days_in_month(d.year as int, d.month as int)
}

/// The number of days in the years before year `y`, counted from year 1.
pub open spec fn days_before_year(y: int) -> int {
    365 * (y - 1) + (y - 1) / 4 - (y - 1) / 100 + (y - 1) / 400
}

/// The number of days in the months of year `y` before month `m`.
pub open spec fn days_before_month(y: int, m: int) -> int {
    let common = if m == 1 {
        0int
    } else if m == 2 {
        31
    } else if m == 3 {
        59
    } else if m == 4 {
        90
    } else if m == 5 {
        120
    } else if m == 6 {
        151
    } else if m == 7 {
        181
    } else if m == 8 {
        212
    } else if m == 9 {
        243
    } else if m == 10 {
        273
    } else if m == 11 {
        304
    } else {
        334
    };
    if m > 2 && is_leap(y) {
        common + 1
    } else {
        common
    }
}

/// The position of a date among all days: consecutive days have consecutive numbers.
pub open spec fn day_number(d: Date) -> int {
    days_before_year(d.year as int) + days_before_month(d.year as int, d.month as int) + d.day - 1
}

/// Whether day number `n` lies between the first and the last date a date may have.
pub open spec fn in_range(n: int) -> bool {
    day_number(Date { year: min_year() as i32, month: 1, day: 1 }) <= n <= day_number(
        Date { year: max_year() as i32, month: 12, day: 31 },
    )
}

/// The number of days of year `y`.
pub open spec fn days_in_year(y: int) -> int {
    if is_leap(y) {
        366
    } else {
        365
    }
}

proof fn lemma_year_step(y: int)
    ensures
        days_before_year(y + 1) == days_before_year(y) + days_in_year(y),
{
    assert(y / 4 - (y - 1) / 4 == if y % 4 == 0 { 1int } else { 0int });
    assert(y / 100 - (y - 1) / 100 == if y % 100 == 0 { 1int } else { 0int });
    assert(y / 400 - (y - 1) / 400 == if y % 400 == 0 { 1int } else { 0int });
}

proof fn lemma_years_ordered(y1: int, y2: int)
    requires
        y1 < y2,
    ensures
        days_before_year(y1) + days_in_year(y1) <= days_before_year(y2),
    decreases y2 - y1,
{
    lemma_year_step(y1);
    if y1 + 1 < y2 {
        lemma_years_ordered(y1 + 1, y2);
    }
}

proof fn lemma_months_ordered(y: int, m1: int, m2: int)
    requires
        1 <= m1 < m2 <= 12,
    ensures
        days_before_month(y, m1) + days_in_month(y, m1) <= days_before_month(y, m2),
{
}

proof fn lemma_within_year(d: Date)
    requires
        valid_date(d),
    ensures
        0 <= days_before_month(d.year as int, d.month as int) + d.day - 1 < days_in_year(d.year as int),
{
    if d.month < 12 {
        lemma_months_ordered(d.year as int, d.month as int, 12);
    }
}

/// Distinct dates have distinct day numbers.
proof fn lemma_day_number_injective(a: Date, b: Date)
    requires
        valid_date(a),
        valid_date(b),
        day_number(a) == day_number(b),
    ensures
        a == b,
{
    lemma_within_year(a);
    lemma_within_year(b);
    if a.year < b.year {
        lemma_years_ordered(a.year as int, b.year as int);
    } else if b.year < a.year {
        lemma_years_ordered(b.year as int, a.year as int);
    } else if a.month < b.month {
        lemma_months_ordered(a.year as int, a.month as int, b.month as int);
    } else if b.month < a.month {
        lemma_months_ordered(a.year as int, b.month as int, a.month as int);
    }
}

/// What `chrono` reads from a text as a date (year, month, day), if it reads one.
pub uninterp spec fn parsed_date(s: Seq<char>) -> Option<(int, int, int)>;

/// The decimal digit of `n`, for `n < 10`.
pub open spec fn digit(n: nat) -> char {
    if n == 0 {
        '0'
    } else if n == 1 {
        '1'
    } else if n == 2 {
        '2'
    } else if n == 3 {
        '3'
    } else if n == 4 {
        '4'
    } else if n == 5 {
        '5'
    } else if n == 6 {
        '6'
    } else if n == 7 {
        '7'
    } else if n == 8 {
        '8'
    } else {
        '9'
    }
}

/// The decimal digits of `n`, without leading zeros.
pub open spec fn digits(n: nat) -> Seq<char>
    decreases n,
{
    if n < 10 {
        seq![digit(n)]
    } else {
        digits(n / 10).push(digit(n % 10))
    }
}

/// The decimal digits of `n`, with zeros in front up to `width` characters.
pub open spec fn padded(n: nat, width: nat) -> Seq<char> {
    let ds = digits(n);
    if ds.len() < width {
        Seq::new((width - ds.len()) as nat, |i: int| '0') + ds
    } else {
        ds
    }
}

/// How a year is written: four digits for years 0 to 9999, else a sign and at
/// least four digits.
pub open spec fn year_text(y: int) -> Seq<char> {
    if 0 <= y <= 9999 {
        padded(y as nat, 4)
    } else if y < 0 {
        seq!['-'] + padded((-y) as nat, 4)
    } else {
        seq!['+'] + padded(y as nat, 4)
    }
}

/// How a date is written: year, two-digit month and two-digit day, joined by `-`.
pub open spec fn date_text(y: int, m: int, d: int) -> Seq<char> {
    year_text(y) + seq!['-'] + padded(m as nat, 2) + seq!['-'] + padded(d as nat, 2)
}

/// Relies on `chrono::NaiveDate`'s `FromStr`: the date a text names, read
/// as `chrono` reads it; every date it yields exists.
#[verifier::external_body]
pub fn parse_date(s: &str) -> (r: Option<Date>)
    ensures
        match r {
            Some(d) => valid_date(d) && parsed_date(s@) == Some(
                (d.year as int, d.month as int, d.day as int),
            ),
            None => parsed_date(s@) is None,
        },
{
    match <chrono::NaiveDate as std::str::FromStr>::from_str(s) {
        Ok(x) => Some(
            Date {
                year: chrono::Datelike::year(&x),
                month: chrono::Datelike::month(&x),
                day: chrono::Datelike::day(&x),
            },
        ),
        Err(_) => None,
    }
}

/// Relies on `chrono::NaiveDate::from_ymd_opt` and `checked_add_signed`: the
/// date `n` days after `d`, when it lies within the dates `chrono` holds.
#[verifier::external_body]
fn shift_days(d: &Date, n: i64) -> (r: Option<Date>)
    requires
        valid_date(*d),
        -1_000_000_000 <= n <= 1_000_000_000,
    ensures
        r is Some <==> in_range(day_number(*d) + n),
        r matches Some(x) ==> valid_date(x) && day_number(x) == day_number(*d) + n,
{
    match chrono::NaiveDate::from_ymd_opt(d.year, d.month, d.day) {
        Some(x) => match x.checked_add_signed(chrono::TimeDelta::days(n)) {
            Some(y) => Some(
                Date {
                    year: chrono::Datelike::year(&y),
                    month: chrono::Datelike::month(&y),
                    day: chrono::Datelike::day(&y),
                },
            ),
            None => None,
        },
        None => None,
    }
}

/// Relies on `chrono::NaiveDate`'s `Display`, which writes the date as its
/// `Debug` does: `YYYY-MM-DD`, with a sign before years outside 0 to 9999.
#[verifier::external_body]
pub fn show_date(d: &Date) -> (r: String)
    requires
        valid_date(*d),
    ensures
        r@ == date_text(d.year as int, d.month as int, d.day as int),
{
    match chrono::NaiveDate::from_ymd_opt(d.year, d.month, d.day) {
        Some(x) => x.to_string(),
        None => String::new(),
    }
}

/// Whether `n` is the day after `d`.
pub open spec fn is_next_day(d: Date, n: Date) -> bool {
    valid_date(n) && day_number(n) == day_number(d) + 1
}

/// Whether the day after `d` falls in another month.
pub open spec fn ends_month(d: Date) -> bool {
    exists|n: Date| is_next_day(d, n) && n.month != d.month
}

/// Whether the day after `d` falls in the same month.
pub open spec fn inside_month(d: Date) -> bool {
    exists|n: Date| is_next_day(d, n) && n.month == d.month
}

/// The first day of the month of the date 90 days before `d` is `w`.
pub open spec fn is_correction_start(d: Date, w: Date) -> bool {
    exists|b: Date|
        valid_date(b) && day_number(b) == day_number(d) - 90 && w == (Date {
            year: b.year,
            month: b.month,
            day: 1,
        })
}

/// The first day of the extraction window that ends at `d`: when the day after
/// `d` falls in another month, the first day of the month of the date 90 days
/// before `d`; otherwise the date 3 days before `d`.
pub fn window_start(d: &Date) -> (r: Option<Date>)
    requires
        valid_date(*d),
    ensures
        in_range(day_number(*d) + 1) && in_range(day_number(*d) - 90) ==> r is Some,
        r matches Some(w) ==> {
            &&& valid_date(w)
            &&& ends_month(*d) ==> is_correction_start(*d, w)
            &&& inside_month(*d) ==> day_number(w) == day_number(*d) - 3
        },
{
    let next = match shift_days(d, 1) {
        Some(n) => n,
        None => {
            return None;
        },
    };
    if next.month != d.month {
        let back = match shift_days(d, -90) {
            Some(b) => b,
            None => {
                return None;
            },
        };
        let w = Date { year: back.year, month: back.month, day: 1 };
        proof {
            assert(is_correction_start(*d, w));
            assert(!inside_month(*d)) by {
                if inside_month(*d) {
                    let n = choose|n: Date| is_next_day(*d, n) && n.month == d.month;
                    lemma_day_number_injective(n, next);
                }
            }
        }
        Some(w)
    } else {
        let w = match shift_days(d, -3) {
            Some(w) => w,
            None => {
                return None;
            },
        };
        proof {
            assert(!ends_month(*d)) by {
                if ends_month(*d) {
                    let n = choose|n: Date| is_next_day(*d, n) && n.month != d.month;
                    lemma_day_number_injective(n, next);
                }
            }
        }
        Some(w)
    }
}

} // verus!
