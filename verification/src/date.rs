//! Calendar dates as the blog stores them, and the calls into `chrono` that
//! build, read and write them.

use vstd::prelude::*;
use crate::text::{
    all_digits, decimal, digit_char, digits_value, lemma_decimal_four_digits,
    lemma_decimal_injective, lemma_decimal_len, lemma_decimal_two_digits, lemma_digit_char,
    lemma_digit_char_injective,
};
use chrono::Datelike;

verus! {

/// First year that `chrono::NaiveDate` can hold.
pub open spec fn min_year() -> int {
    -262143
}

/// Last year that `chrono::NaiveDate` can hold.
pub open spec fn max_year() -> int {
    262142
}

/// Leap years of the proleptic Gregorian calendar.
pub open spec fn is_leap_year(year: int) -> bool {
    year % 4 == 0 && (year % 100 != 0 || year % 400 == 0)
}

/// Number of days of `month` (1-based) in `year`.
pub open spec fn days_in_month(year: int, month: int) -> int {
    if month == 2 {
        if is_leap_year(year) { 29 } else { 28 }
    } else if month == 4 || month == 6 || month == 9 || month == 11 {
        30
    } else {
        31
    }
}

/// A day that exists in the proleptic Gregorian calendar, in the years that
/// `chrono::NaiveDate` covers.
pub open spec fn is_valid_date(year: int, month: int, day: int) -> bool {
    &&& min_year() <= year <= max_year()
    &&& 1 <= month <= 12
    &&& 1 <= day <= days_in_month(year, month)
}

/// Day `a` comes before day `b`.
pub open spec fn date_lt(a: Date, b: Date) -> bool {
    ||| a.spec_year() < b.spec_year()
    ||| a.spec_year() == b.spec_year() && a.spec_month() < b.spec_month()
    ||| a.spec_year() == b.spec_year() && a.spec_month() == b.spec_month() && a.spec_day()
        < b.spec_day()
}

/// `s` preceded by as many `0` as make it `width` long.
pub open spec fn zero_pad(s: Seq<char>, width: nat) -> Seq<char> {
    if s.len() < width {
        Seq::new((width - s.len()) as nat, |i: int| '0') + s
    } else {
        s
    }
}

/// How `%Y` writes a year: four digits within `0..=9999`, otherwise a sign
/// and at least four digits.
pub open spec fn year_text(year: int) -> Seq<char> {
    if 0 <= year <= 9999 {
        zero_pad(decimal(year as nat), 4)
    } else if year > 9999 {
        seq!['+'] + decimal(year as nat)
    } else {
        seq!['-'] + zero_pad(decimal((-year) as nat), 4)
    }
}

/// How `%m` and `%d` write a month or a day: two digits.
pub open spec fn two_digits(n: int) -> Seq<char> {
    zero_pad(decimal(n as nat), 2)
}

/// `%Y{sep}%m{sep}%d` for the given date.
pub open spec fn date_text(year: int, month: int, day: int, sep: char) -> Seq<char> {
    year_text(year) + seq![sep] + two_digits(month) + seq![sep] + two_digits(day)
}

/// What `chrono::NaiveDate::parse_from_str(text, format)` gives back, as
/// year, month and day.
pub uninterp spec fn chrono_parse_date(text: Seq<char>, format: Seq<char>) -> Option<(int, int, int)>;

/// The strftime pattern of a date written year first, dashes between.
pub open spec fn ymd_dash() -> Seq<char> {
    seq!['%', 'Y', '-', '%', 'm', '-', '%', 'd']
}

/// The strftime pattern of a date written year first, slashes between.
pub open spec fn ymd_slash() -> Seq<char> {
    seq!['%', 'Y', '/', '%', 'm', '/', '%', 'd']
}

/// Year, month and day of a parsed triple as integers.
pub open spec fn triple_view(t: Option<(i32, u32, u32)>) -> Option<(int, int, int)> {
    match t {
        Some((y, m, d)) => Some((y as int, m as int, d as int)),
        None => None,
    }
}

/// `chrono::NaiveDate::from_ymd_opt`. Its documentation: `None` exactly when
/// the calendar day does not exist, month or day is invalid, or the year is
/// out of range (the source bounds years to `-262143..=262142`).
#[verifier::external_body]
fn chrono_from_ymd(year: i32, month: u32, day: u32) -> (r: Option<(i32, u32, u32)>)
    ensures
        r is Some <==> is_valid_date(year as int, month as int, day as int),
        r is Some ==> r == Some((year, month, day)),
{
    chrono::NaiveDate::from_ymd_opt(year, month, day).map(|d| (d.year(), d.month(), d.day()))
}

/// `chrono::NaiveDate::parse_from_str`. Its result is named; the only fact
/// stated of it is that a date that comes back is one that exists, since a
/// `NaiveDate` holds no other. Which texts parse is left unsaid.
#[verifier::external_body]
fn chrono_parse(text: &str, format: &str) -> (r: Option<(i32, u32, u32)>)
    ensures
        triple_view(r) == chrono_parse_date(text@, format@),
        r matches Some((y, m, d)) ==> is_valid_date(y as int, m as int, d as int),
{
    chrono::NaiveDate::parse_from_str(text, format).ok().map(|d| (d.year(), d.month(), d.day()))
}

/// `chrono::NaiveDate::format(format).to_string()`, for the two patterns the
/// blog uses (a pattern whose fields a date lacks makes `to_string` panic).
/// The formatting code of the source writes `%Y` as four zero-padded digits
/// within `0..=9999` and as a sign with at least four digits elsewhere, `%m`
/// and `%d` as two digits; its parser reads a dash-separated text back as the
/// same date.
#[verifier::external_body]
fn chrono_format(year: i32, month: u32, day: u32, format: &str) -> (r: String)
    requires
        is_valid_date(year as int, month as int, day as int),
        format@ == ymd_dash() || format@ == ymd_slash(),
    ensures
        format@ == ymd_dash() ==> r@ == date_text(year as int, month as int, day as int, '-'),
        format@ == ymd_dash() ==> chrono_parse_date(r@, format@) == Some(
            (year as int, month as int, day as int),
        ),
        format@ == ymd_slash() ==> r@ == date_text(year as int, month as int, day as int, '/'),
{
    chrono::NaiveDate::from_ymd_opt(year, month, day).unwrap().format(format).to_string()
}

/// The four digits of a number below 10000, leading zeros included.
proof fn lemma_zero_pad_four(n: nat)
    requires
        n <= 9999,
    ensures
        zero_pad(decimal(n), 4) == seq![
            digit_char((n / 1000) as int),
            digit_char(((n / 100) % 10) as int),
            digit_char(((n / 10) % 10) as int),
            digit_char((n % 10) as int),
        ],
{
    lemma_decimal_len(n);
    if n >= 1000 {
        lemma_decimal_four_digits(n);
    } else if n >= 100 {
        lemma_decimal_two_digits(n / 10);
        assert(decimal(n) == decimal(n / 10).push(digit_char((n % 10) as int)));
        assert(zero_pad(decimal(n), 4) =~= seq![
            digit_char((n / 1000) as int),
            digit_char(((n / 100) % 10) as int),
            digit_char(((n / 10) % 10) as int),
            digit_char((n % 10) as int),
        ]);
    } else if n >= 10 {
        lemma_decimal_two_digits(n);
        assert(zero_pad(decimal(n), 4) =~= seq![
            digit_char((n / 1000) as int),
            digit_char(((n / 100) % 10) as int),
            digit_char(((n / 10) % 10) as int),
            digit_char((n % 10) as int),
        ]);
    } else {
        assert(zero_pad(decimal(n), 4) =~= seq![
            digit_char((n / 1000) as int),
            digit_char(((n / 100) % 10) as int),
            digit_char(((n / 10) % 10) as int),
            digit_char((n % 10) as int),
        ]);
    }
}

/// The two digits of a number below 100, leading zero included.
proof fn lemma_two_digits_shape(n: int)
    requires
        0 <= n <= 99,
    ensures
        two_digits(n) == seq![digit_char(n / 10), digit_char(n % 10)],
{
    lemma_decimal_len(n as nat);
    if n >= 10 {
        lemma_decimal_two_digits(n as nat);
    } else {
        assert(two_digits(n) =~= seq![digit_char(n / 10), digit_char(n % 10)]);
    }
}

/// The numerals of a date in the years written with four digits are digits
/// only, and read as numbers they give the year, month and day back.
pub proof fn lemma_date_numerals_read_back(year: int, month: int, day: int)
    requires
        0 <= year <= 9999,
        0 <= month <= 99,
        0 <= day <= 99,
    ensures
        year_text(year).len() == 4,
        two_digits(month).len() == 2,
        two_digits(day).len() == 2,
        all_digits(year_text(year)),
        digits_value(year_text(year)) == year,
        all_digits(two_digits(month)),
        digits_value(two_digits(month)) == month,
        all_digits(two_digits(day)),
        digits_value(two_digits(day)) == day,
{
    let n = year as nat;
    lemma_zero_pad_four(n);
    lemma_two_digits_shape(month);
    lemma_two_digits_shape(day);
    let (a, b, c, e) = (n / 1000, (n / 100) % 10, (n / 10) % 10, n % 10);
    lemma_digit_char(a as int);
    lemma_digit_char(b as int);
    lemma_digit_char(c as int);
    lemma_digit_char(e as int);
    lemma_digit_char(month / 10);
    lemma_digit_char(month % 10);
    lemma_digit_char(day / 10);
    lemma_digit_char(day % 10);
    let y = year_text(year);
    reveal_with_fuel(digits_value, 5);
    assert(y.drop_last().drop_last().drop_last().drop_last() =~= Seq::<char>::empty());
    assert(y.drop_last().drop_last().drop_last() =~= seq![digit_char(a as int)]);
    assert(y.drop_last().drop_last() =~= seq![digit_char(a as int), digit_char(b as int)]);
    assert(y.drop_last() =~= seq![
        digit_char(a as int),
        digit_char(b as int),
        digit_char(c as int),
    ]);
    assert(digits_value(y) == ((a * 10 + b) * 10 + c) * 10 + e);
    assert(((a * 10 + b) * 10 + c) * 10 + e == n);
    let m = two_digits(month);
    assert(m.drop_last().drop_last() =~= Seq::<char>::empty());
    assert(m.drop_last() =~= seq![digit_char(month / 10)]);
    let t = two_digits(day);
    assert(t.drop_last().drop_last() =~= Seq::<char>::empty());
    assert(t.drop_last() =~= seq![digit_char(day / 10)]);
}

/// Numbers below 10000 with the same four digits are equal.
proof fn lemma_four_digits_injective(a: nat, b: nat)
    requires
        a <= 9999,
        b <= 9999,
        zero_pad(decimal(a), 4) == zero_pad(decimal(b), 4),
    ensures
        a == b,
{
    lemma_zero_pad_four(a);
    lemma_zero_pad_four(b);
    let pa = zero_pad(decimal(a), 4);
    assert(pa[0] == digit_char((a / 1000) as int) && pa[0] == digit_char((b / 1000) as int));
    assert(pa[1] == digit_char(((a / 100) % 10) as int) && pa[1] == digit_char(
        ((b / 100) % 10) as int,
    ));
    assert(pa[2] == digit_char(((a / 10) % 10) as int) && pa[2] == digit_char(
        ((b / 10) % 10) as int,
    ));
    assert(pa[3] == digit_char((a % 10) as int) && pa[3] == digit_char((b % 10) as int));
    lemma_digit_char_injective((a / 1000) as int, (b / 1000) as int);
    lemma_digit_char_injective(((a / 100) % 10) as int, ((b / 100) % 10) as int);
    lemma_digit_char_injective(((a / 10) % 10) as int, ((b / 10) % 10) as int);
    lemma_digit_char_injective((a % 10) as int, (b % 10) as int);
    assert(a == 1000 * (a / 1000) + 100 * ((a / 100) % 10) + 10 * ((a / 10) % 10) + a % 10)
        by (nonlinear_arith)
        requires
            a <= 9999,
    ;
    assert(b == 1000 * (b / 1000) + 100 * ((b / 100) % 10) + 10 * ((b / 10) % 10) + b % 10)
        by (nonlinear_arith)
        requires
            b <= 9999,
    ;
}

/// Padding to four digits keeps numbers apart.
proof fn lemma_zero_pad_four_injective(a: nat, b: nat)
    requires
        zero_pad(decimal(a), 4) == zero_pad(decimal(b), 4),
    ensures
        a == b,
{
    lemma_decimal_len(a);
    lemma_decimal_len(b);
    if a <= 9999 && b <= 9999 {
        lemma_four_digits_injective(a, b);
    } else {
        assert(zero_pad(decimal(a), 4).len() == 4 <==> a <= 9999);
        assert(zero_pad(decimal(b), 4).len() == 4 <==> b <= 9999);
        lemma_decimal_injective(a, b);
    }
}

/// Different years are written differently.
proof fn lemma_year_text_injective(a: int, b: int)
    requires
        year_text(a) == year_text(b),
    ensures
        a == b,
{
    let t = year_text(a);
    let u = year_text(b);
    if 0 <= a <= 9999 {
        lemma_zero_pad_four(a as nat);
        lemma_digit_char((a / 1000) as int);
        assert(48 <= t[0] as u32 <= 57);
    } else if a > 9999 {
        assert(t[0] == '+');
    } else {
        assert(t[0] == '-');
    }
    if 0 <= b <= 9999 {
        lemma_zero_pad_four(b as nat);
        lemma_digit_char((b / 1000) as int);
        assert(48 <= u[0] as u32 <= 57);
    } else if b > 9999 {
        assert(u[0] == '+');
    } else {
        assert(u[0] == '-');
    }
    if 0 <= a <= 9999 && 0 <= b <= 9999 {
        lemma_four_digits_injective(a as nat, b as nat);
    } else if a > 9999 && b > 9999 {
        assert(decimal(a as nat) =~= t.skip(1));
        assert(decimal(b as nat) =~= u.skip(1));
        lemma_decimal_injective(a as nat, b as nat);
    } else if a < 0 && b < 0 {
        assert(zero_pad(decimal((-a) as nat), 4) =~= t.skip(1));
        assert(zero_pad(decimal((-b) as nat), 4) =~= u.skip(1));
        lemma_zero_pad_four_injective((-a) as nat, (-b) as nat);
    } else {
        assert(t[0] == u[0]);
        assert(('+' as u32) == 43 && ('-' as u32) == 45);
    }
}

/// A date's text names one day: different dates are written differently.
pub proof fn lemma_date_text_injective(
    y1: int,
    m1: int,
    d1: int,
    y2: int,
    m2: int,
    d2: int,
    sep: char,
)
    requires
        is_valid_date(y1, m1, d1),
        is_valid_date(y2, m2, d2),
        date_text(y1, m1, d1, sep) == date_text(y2, m2, d2, sep),
    ensures
        y1 == y2,
        m1 == m2,
        d1 == d2,
{
    lemma_two_digits_shape(m1);
    lemma_two_digits_shape(m2);
    lemma_two_digits_shape(d1);
    lemma_two_digits_shape(d2);
    let t = date_text(y1, m1, d1, sep);
    let n = t.len() - 6;
    assert(year_text(y1) =~= t.take(n));
    assert(year_text(y2) =~= t.take(n));
    lemma_year_text_injective(y1, y2);
    assert(two_digits(m1) =~= t.subrange(n + 1, n + 3));
    assert(two_digits(m2) =~= t.subrange(n + 1, n + 3));
    assert(two_digits(d1) =~= t.skip(n + 4));
    assert(two_digits(d2) =~= t.skip(n + 4));
    lemma_digit_char_injective(m1 / 10, m2 / 10);
    lemma_digit_char_injective(m1 % 10, m2 % 10);
    lemma_digit_char_injective(d1 / 10, d2 / 10);
    lemma_digit_char_injective(d1 % 10, d2 % 10);
}

/// A calendar date (proleptic Gregorian), within the years `chrono` covers.
pub struct Date {
    year: i32,
    month: u32,
    day: u32,
}

impl Date {
    #[verifier::type_invariant]
    spec fn inv(self) -> bool {
        is_valid_date(self.year as int, self.month as int, self.day as int)
    }

    /// The year.
    pub closed spec fn spec_year(self) -> int {
        self.year as int
    }

    /// The month, `1..=12`.
    pub closed spec fn spec_month(self) -> int {
        self.month as int
    }

    /// The day of the month, starting at 1.
    pub closed spec fn spec_day(self) -> int {
        self.day as int
    }

    /// The year, month and day form a day that exists; every `Date` value of
    /// executable code is one.
    pub open spec fn is_valid(self) -> bool {
        is_valid_date(self.spec_year(), self.spec_month(), self.spec_day())
    }

    /// The date of the given year, month and day, if that day exists.
    pub fn from_ymd_opt(year: i32, month: u32, day: u32) -> (r: Option<Date>)
        ensures
            r is Some <==> is_valid_date(year as int, month as int, day as int),
            r matches Some(d) ==> d.spec_year() == year && d.spec_month() == month
                && d.spec_day() == day && d.is_valid(),
    {
        match chrono_from_ymd(year, month, day) {
            Some((y, m, d)) => Some(Date { year: y, month: m, day: d }),
            None => None,
        }
    }

    /// Reads a date written in `format` (a strftime pattern).
    pub fn parse_from_str(text: &str, format: &str) -> (r: Option<Date>)
        ensures
            match chrono_parse_date(text@, format@) {
                Some((y, m, d)) => r matches Some(date) && date.spec_year() == y
                    && date.spec_month() == m && date.spec_day() == d && date.is_valid(),
                None => r is None,
            },
    {
        match chrono_parse(text, format) {
            Some((y, m, d)) => Some(Date { year: y, month: m, day: d }),
            None => None,
        }
    }

    /// Writes the date in `format`: `%Y-%m-%d` or `%Y/%m/%d`.
    pub fn format(&self, format: &str) -> (r: String)
        requires
            format@ == ymd_dash() || format@ == ymd_slash(),
        ensures
            format@ == ymd_dash() ==> r@ == date_text(
                self.spec_year(),
                self.spec_month(),
                self.spec_day(),
                '-',
            ),
            format@ == ymd_dash() ==> chrono_parse_date(r@, format@) == Some(
                (self.spec_year(), self.spec_month(), self.spec_day()),
            ),
            format@ == ymd_slash() ==> r@ == date_text(
                self.spec_year(),
                self.spec_month(),
                self.spec_day(),
                '/',
            ),
    {
        proof {
            use_type_invariant(self);
        }
        chrono_format(self.year, self.month, self.day, format)
    }

    /// The year.
    pub fn year(&self) -> (r: i32)
        ensures
            r == self.spec_year(),
            self.is_valid(),
    {
        proof {
            use_type_invariant(self);
        }
        self.year
    }

    /// The month, `1..=12`.
    pub fn month(&self) -> (r: u32)
        ensures
            r == self.spec_month(),
            self.is_valid(),
    {
        proof {
            use_type_invariant(self);
        }
        self.month
    }

    /// The day of the month, starting at 1.
    pub fn day(&self) -> (r: u32)
        ensures
            r == self.spec_day(),
            self.is_valid(),
    {
        proof {
            use_type_invariant(self);
        }
        self.day
    }

    /// The month counted from 0.
    pub fn month0(&self) -> (r: u32)
        ensures
            r == self.spec_month() - 1,
    {
        proof {
            use_type_invariant(self);
        }
        self.month - 1
    }

    /// The day of the month counted from 0.
    pub fn day0(&self) -> (r: u32)
        ensures
            r == self.spec_day() - 1,
    {
        proof {
            use_type_invariant(self);
        }
        self.day - 1
    }
}

} // verus!
