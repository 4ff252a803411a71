//! Storage keys of posts, in the form `ASCD_DATE_NAME`.
//!
//! `ASCD` is the date inverted and written with letters, so that listing the
//! keys in ascending order lists the posts by descending date. For the years
//! `0..=8999` it is `9999 - year`, `99 - month` and `99 - day`; the years
//! outside them take a marked, fixed-width form, so that the order holds for
//! every year a `Date` can hold.

use vstd::prelude::*;
use crate::date::{
    Date, date_lt, date_text, is_valid_date, lemma_date_text_injective, max_year, two_digits,
    year_text, zero_pad, ymd_dash,
};
use crate::text::{
    decimal, digit_char, lemma_decimal_digits, lemma_decimal_four_digits,
    lemma_decimal_two_digits, lemma_digit_char, lemma_text_lt_at, push_char, text_lt,
};

verus! {

/// A digit moved up to the letters (`0` to `A`, ..., `9` to `J`); any other
/// character is kept.
pub open spec fn ascending_char(c: char) -> char {
    if '0' <= c && c <= '9' {
        ((c as u32) + 17) as char
    } else {
        c
    }
}

/// A text with each digit moved up to the letters.
pub open spec fn ascending_text(s: Seq<char>) -> Seq<char> {
    s.map_values(|c: char| ascending_char(c))
}

/// `n` written with exactly `width` decimal digits, most significant first:
/// leading zeros are added, and digits above `width` are dropped.
pub open spec fn fixed_digits(n: nat, width: nat) -> Seq<char>
    decreases width,
{
    if width == 0 {
        Seq::empty()
    } else {
        fixed_digits(n / 10, (width - 1) as nat).push(digit_char((n % 10) as int))
    }
}

/// The inverted date after its year part: `-`, `99 - month`, `-` and
/// `99 - day`, in decimal, behind the year's digits.
pub open spec fn inverted_parts(year_digits: Seq<char>, month: int, day: int) -> Seq<char> {
    year_digits + seq!['-'] + decimal((99 - month) as nat) + seq!['-'] + decimal(
        (99 - day) as nat,
    )
}

/// The `ASCD` part of a key, with its digits moved up to the letters. For the
/// years `0..=8999` it is `9999 - year`, `99 - month` and `99 - day` in
/// decimal, joined by `-`. Later years, whose `9999 - year` would have fewer
/// than four digits, write `A` and then `262142 - year` with six digits
/// (262142 is the last year a `Date` can hold); years before 0 write `K` and
/// then `-1 - year` with six digits. Keys of later days then come first
/// whatever the year.
pub open spec fn ascending_date(year: int, month: int, day: int) -> Seq<char> {
    if 0 <= year <= 8999 {
        ascending_text(inverted_parts(decimal((9999 - year) as nat), month, day))
    } else if year > 8999 {
        seq!['A'] + ascending_text(
            inverted_parts(fixed_digits((max_year() - year) as nat, 6), month, day),
        )
    } else {
        seq!['K'] + ascending_text(inverted_parts(fixed_digits((-1 - year) as nat, 6), month, day))
    }
}

/// The key of the post titled `title` of the given day:
/// `ASCD_YYYY-MM-DD_title`.
pub open spec fn key_text(year: int, month: int, day: int, title: Seq<char>) -> Seq<char> {
    ascending_date(year, month, day) + seq!['_'] + date_text(year, month, day, '-') + seq!['_']
        + title
}

/// The key of the post titled `title` published on `date`.
pub open spec fn date_key(date: Date, title: Seq<char>) -> Seq<char> {
    key_text(date.spec_year(), date.spec_month(), date.spec_day(), title)
}

proof fn lemma_ascending_concat(a: Seq<char>, b: Seq<char>)
    ensures
        ascending_text(a + b) == ascending_text(a) + ascending_text(b),
{
    assert(ascending_text(a + b) =~= ascending_text(a) + ascending_text(b));
}

fn ascending_digit(d: u32) -> (c: char)
    requires
        d < 10,
    ensures
        c == ascending_char(digit_char(d as int)),
{
    let b: u8 = (d as u8) + 65;
    b as char
}

/// Appends `n` written with `width` digits, moved up to the letters.
fn push_ascending_fixed(s: &mut String, n: u32, width: u32)
    ensures
        final(s)@ == old(s)@ + ascending_text(fixed_digits(n as nat, width as nat)),
    decreases width,
{
    if width > 0 {
        push_ascending_fixed(s, n / 10, width - 1);
        push_char(s, ascending_digit(n % 10));
        proof {
            let high = fixed_digits((n / 10) as nat, (width - 1) as nat);
            let low = seq![digit_char((n % 10) as int)];
            lemma_ascending_concat(high, low);
            assert(ascending_text(low) =~= seq![ascending_char(digit_char((n % 10) as int))]);
            assert(fixed_digits(n as nat, width as nat) =~= high + low);
        }
    } else {
        proof {
            assert(ascending_text(Seq::<char>::empty()) =~= Seq::<char>::empty());
        }
    }
}

/// Appends the decimal numeral of `n` with its digits moved up to the letters.
fn push_ascending_decimal(s: &mut String, n: u32)
    ensures
        final(s)@ == old(s)@ + ascending_text(decimal(n as nat)),
    decreases n,
{
    if n >= 10 {
        push_ascending_decimal(s, n / 10);
    }
    push_char(s, ascending_digit(n % 10));
    proof {
        let low = seq![digit_char((n % 10) as int)];
        if n >= 10 {
            lemma_ascending_concat(decimal((n / 10) as nat), low);
        }
        assert(ascending_text(low) =~= seq![ascending_char(digit_char((n % 10) as int))]);
    }
}

/// The storage key of the post titled `title` published on `date`.
pub fn encode_key(date: &Date, title: &str) -> (r: String)
    ensures
        r@ == date_key(*date, title@),
{
    // convert the date into something lexicographically ascending
    let year: i32 = date.year();
    let month: u32 = 99 - (date.month0() + 1);
    let day: u32 = 99 - (date.day0() + 1);

    let mut key = String::new();
    let ghost digits: Seq<char>;
    let ghost prefix: Seq<char>;
    if 0 <= year && year <= 8999 {
        push_ascending_decimal(&mut key, (9999 - year) as u32);
        proof {
            digits = decimal((9999 - year) as nat);
            prefix = seq![];
            assert(key@ =~= prefix + ascending_text(digits));
        }
    } else if year > 8999 {
        // 262142 is the last year a `Date` can hold
        push_char(&mut key, 'A');
        push_ascending_fixed(&mut key, (262142 - year) as u32, 6);
        proof {
            digits = fixed_digits((max_year() - year) as nat, 6);
            prefix = seq!['A'];
        }
    } else {
        push_char(&mut key, 'K');
        push_ascending_fixed(&mut key, (-1 - year) as u32, 6);
        proof {
            digits = fixed_digits((-1 - year) as nat, 6);
            prefix = seq!['K'];
        }
    }
    push_char(&mut key, '-');
    push_ascending_decimal(&mut key, month);
    push_char(&mut key, '-');
    push_ascending_decimal(&mut key, day);
    proof {
        let m = decimal(month as nat);
        let d = decimal(day as nat);
        lemma_ascending_concat(digits, seq!['-']);
        lemma_ascending_concat(digits + seq!['-'], m);
        lemma_ascending_concat(digits + seq!['-'] + m, seq!['-']);
        lemma_ascending_concat(digits + seq!['-'] + m + seq!['-'], d);
        assert(ascending_text(seq!['-']) =~= seq!['-']);
        assert(key@ =~= prefix + ascending_text(inverted_parts(digits, date.spec_month(), date.spec_day())));
        assert(key@ =~= ascending_date(date.spec_year(), date.spec_month(), date.spec_day()));
    }
    push_char(&mut key, '_');
    let fmt = "%Y-%m-%d";
    proof {
        reveal_strlit("%Y-%m-%d");
        assert(fmt@ =~= ymd_dash());
    }
    let written = date.format(fmt);
    key.append(written.as_str());
    push_char(&mut key, '_');
    key.append(title);
    proof {
        assert(key@ =~= date_key(*date, title@));
    }
    key
}

/// `10` to the power `width`: the numbers below it fit in `width` digits.
spec fn pow10(width: nat) -> nat
    decreases width,
{
    if width == 0 {
        1
    } else {
        10 * pow10((width - 1) as nat)
    }
}

proof fn lemma_fixed_digits_shape(n: nat, width: nat)
    ensures
        fixed_digits(n, width).len() == width,
        forall|j: int|
            0 <= j < width ==> 48 <= #[trigger] (fixed_digits(n, width)[j] as u32) <= 57,
    decreases width,
{
    if width > 0 {
        lemma_fixed_digits_shape(n / 10, (width - 1) as nat);
        lemma_digit_char((n % 10) as int);
        let f = fixed_digits(n, width);
        let high = fixed_digits(n / 10, (width - 1) as nat);
        assert forall|j: int| 0 <= j < width implies 48 <= #[trigger] (f[j] as u32) <= 57 by {
            if j < width - 1 {
                assert(f[j] == high[j]);
            }
        }
    }
}

/// The first digit where `fixed_digits` of two numbers `n1 < n2` that fit in
/// `width` digits differ; `n1` has the smaller one.
proof fn lemma_fixed_digits_first_difference(n1: nat, n2: nat, width: nat) -> (i: int)
    requires
        n1 < n2 < pow10(width),
    ensures
        0 <= i < width,
        forall|j: int| 0 <= j < i ==> fixed_digits(n1, width)[j] == fixed_digits(n2, width)[j],
        (fixed_digits(n1, width)[i] as u32) < (fixed_digits(n2, width)[i] as u32),
    decreases width,
{
    let w = (width - 1) as nat;
    lemma_fixed_digits_shape(n1 / 10, w);
    lemma_fixed_digits_shape(n2 / 10, w);
    let f1 = fixed_digits(n1, width);
    let f2 = fixed_digits(n2, width);
    let h1 = fixed_digits(n1 / 10, w);
    let h2 = fixed_digits(n2 / 10, w);
    if n1 / 10 < n2 / 10 {
        let i = lemma_fixed_digits_first_difference(n1 / 10, n2 / 10, w);
        assert forall|j: int| 0 <= j < i implies f1[j] == f2[j] by {
            assert(f1[j] == h1[j] && f2[j] == h2[j]);
        }
        assert(f1[i] == h1[i] && f2[i] == h2[i]);
        i
    } else {
        lemma_digit_char((n1 % 10) as int);
        lemma_digit_char((n2 % 10) as int);
        assert forall|j: int| 0 <= j < w implies f1[j] == f2[j] by {
            assert(f1[j] == h1[j] && f2[j] == h2[j]);
        }
        w as int
    }
}

proof fn lemma_pow10_widths()
    ensures
        pow10(6) == 1000000,
        pow10(4) == 10000,
        pow10(2) == 100,
{
    reveal_with_fuel(pow10, 7);
}

/// The decimal numeral of a four-digit number is its four fixed digits.
proof fn lemma_decimal_fixed_four(n: nat)
    requires
        1000 <= n <= 9999,
    ensures
        decimal(n) == fixed_digits(n, 4),
        decimal(n)[0] == digit_char((n / 1000) as int),
{
    lemma_decimal_four_digits(n);
    reveal_with_fuel(fixed_digits, 5);
    assert(n / 10 / 10 == n / 100);
    assert(n / 100 / 10 == n / 1000);
    assert(n / 1000 / 10 == 0);
    assert(fixed_digits(n, 4) =~= decimal(n));
}

/// The decimal numeral of a two-digit number is its two fixed digits.
proof fn lemma_decimal_fixed_two(n: nat)
    requires
        10 <= n <= 99,
    ensures
        decimal(n) == fixed_digits(n, 2),
{
    lemma_decimal_two_digits(n);
    reveal_with_fuel(fixed_digits, 3);
    assert(n / 10 / 10 == 0);
    assert(fixed_digits(n, 2) =~= decimal(n));
}

/// The inverted parts of a date with a `width`-digit year, before the digits
/// move up to the letters.
spec fn ascd_digits(a: nat, b: nat, c: nat, width: nat) -> Seq<char> {
    fixed_digits(a, width) + seq!['-'] + fixed_digits(b, 2) + seq!['-'] + fixed_digits(c, 2)
}

proof fn lemma_ascd_digits_at(a: nat, b: nat, c: nat, w: nat)
    ensures
        ascd_digits(a, b, c, w).len() == w + 6,
        forall|j: int| 0 <= j < w ==> #[trigger] ascd_digits(a, b, c, w)[j] == fixed_digits(a, w)[j],
        ascd_digits(a, b, c, w)[w as int] == '-',
        forall|j: int|
            0 <= j < 2 ==> #[trigger] ascd_digits(a, b, c, w)[w + 1 + j] == fixed_digits(b, 2)[j],
        ascd_digits(a, b, c, w)[w + 3 as int] == '-',
        forall|j: int|
            0 <= j < 2 ==> #[trigger] ascd_digits(a, b, c, w)[w + 4 + j] == fixed_digits(c, 2)[j],
        forall|j: int| 0 <= j < w + 6 ==> #[trigger] (ascd_digits(a, b, c, w)[j] as u32) <= 57,
{
    lemma_fixed_digits_shape(a, w);
    lemma_fixed_digits_shape(b, 2);
    lemma_fixed_digits_shape(c, 2);
    let s = ascd_digits(a, b, c, w);
    assert forall|j: int| 0 <= j < w + 6 implies #[trigger] (s[j] as u32) <= 57 by {
        if j < w {
            assert(s[j] == fixed_digits(a, w)[j]);
        } else if w + 1 <= j < w + 3 {
            assert(s[j] == fixed_digits(b, 2)[j - w - 1]);
        } else if w + 4 <= j {
            assert(s[j] == fixed_digits(c, 2)[j - w - 4]);
        }
    }
}

/// Texts that share a prefix and go on with the `ASCD` of smaller inverted
/// parts come first.
proof fn lemma_ascd_order(
    p: Seq<char>,
    a1: nat,
    b1: nat,
    c1: nat,
    a2: nat,
    b2: nat,
    c2: nat,
    w: nat,
    rest1: Seq<char>,
    rest2: Seq<char>,
)
    requires
        a1 < pow10(w),
        a2 < pow10(w),
        b1 < 100,
        b2 < 100,
        c1 < 100,
        c2 < 100,
        a1 < a2 || (a1 == a2 && b1 < b2) || (a1 == a2 && b1 == b2 && c1 < c2),
    ensures
        text_lt(
            p + ascending_text(ascd_digits(a1, b1, c1, w)) + rest1,
            p + ascending_text(ascd_digits(a2, b2, c2, w)) + rest2,
        ),
{
    let s1 = ascd_digits(a1, b1, c1, w);
    let s2 = ascd_digits(a2, b2, c2, w);
    let k1 = p + ascending_text(s1) + rest1;
    let k2 = p + ascending_text(s2) + rest2;
    let n = p.len() as int;
    lemma_ascd_digits_at(a1, b1, c1, w);
    lemma_ascd_digits_at(a2, b2, c2, w);
    lemma_pow10_widths();
    assert forall|j: int| 0 <= j < w + 6 implies #[trigger] k1[n + j] == ascending_char(s1[j])
        && k2[n + j] == ascending_char(s2[j]) by {}
    let at = if a1 < a2 {
        let i = lemma_fixed_digits_first_difference(a1, a2, w);
        assert forall|j: int| 0 <= j < i implies s1[j] == s2[j] by {
            assert(s1[j] == fixed_digits(a1, w)[j] && s2[j] == fixed_digits(a2, w)[j]);
        }
        assert(s1[i] == fixed_digits(a1, w)[i] && s2[i] == fixed_digits(a2, w)[i]);
        i
    } else if b1 < b2 {
        let i = lemma_fixed_digits_first_difference(b1, b2, 2);
        assert forall|j: int| 0 <= j < w + 1 + i implies s1[j] == s2[j] by {
            if w + 1 <= j {
                assert(s1[w + 1 + (j - w - 1)] == fixed_digits(b1, 2)[j - w - 1]);
                assert(s2[w + 1 + (j - w - 1)] == fixed_digits(b2, 2)[j - w - 1]);
            } else if j < w {
                assert(s1[j] == fixed_digits(a1, w)[j] && s2[j] == fixed_digits(a2, w)[j]);
            }
        }
        assert(s1[w + 1 + i] == fixed_digits(b1, 2)[i] && s2[w + 1 + i] == fixed_digits(b2, 2)[i]);
        w + 1 + i
    } else {
        let i = lemma_fixed_digits_first_difference(c1, c2, 2);
        assert forall|j: int| 0 <= j < w + 4 + i implies s1[j] == s2[j] by {
            if w + 4 <= j {
                assert(s1[w + 4 + (j - w - 4)] == fixed_digits(c1, 2)[j - w - 4]);
                assert(s2[w + 4 + (j - w - 4)] == fixed_digits(c2, 2)[j - w - 4]);
            } else if w + 1 <= j < w + 3 {
                assert(s1[w + 1 + (j - w - 1)] == fixed_digits(b1, 2)[j - w - 1]);
                assert(s2[w + 1 + (j - w - 1)] == fixed_digits(b2, 2)[j - w - 1]);
            } else if j < w {
                assert(s1[j] == fixed_digits(a1, w)[j] && s2[j] == fixed_digits(a2, w)[j]);
            }
        }
        assert(s1[w + 4 + i] == fixed_digits(c1, 2)[i] && s2[w + 4 + i] == fixed_digits(c2, 2)[i]);
        w + 4 + i
    };
    assert forall|j: int| 0 <= j < n + at implies k1[j] == k2[j] by {
        if j >= n {
            assert(k1[n + (j - n)] == ascending_char(s1[j - n]));
            assert(k2[n + (j - n)] == ascending_char(s2[j - n]));
        }
    }
    assert(k1[n + at] == ascending_char(s1[at]) && k2[n + at] == ascending_char(s2[at]));
    lemma_text_lt_at(k1, k2, n + at);
}

/// Which form the year part of a key takes: `0` for the years after 8999,
/// `1` for `0..=8999`, `2` for the years before 0.
spec fn year_form(year: int) -> int {
    if year > 8999 {
        0
    } else if year >= 0 {
        1
    } else {
        2
    }
}

/// What the year part of a key starts with.
spec fn year_prefix(year: int) -> Seq<char> {
    if 0 <= year <= 8999 {
        seq![]
    } else if year > 8999 {
        seq!['A']
    } else {
        seq!['K']
    }
}

/// The number that the year part of a key writes.
spec fn inverted_year(year: int) -> nat {
    if 0 <= year <= 8999 {
        (9999 - year) as nat
    } else if year > 8999 {
        (max_year() - year) as nat
    } else {
        (-1 - year) as nat
    }
}

/// How many digits the year part of a key has.
spec fn year_width(year: int) -> nat {
    if 0 <= year <= 8999 {
        4
    } else {
        6
    }
}

proof fn lemma_ascending_date_shape(year: int, month: int, day: int)
    requires
        is_valid_date(year, month, day),
    ensures
        ascending_date(year, month, day) == year_prefix(year) + ascending_text(
            ascd_digits(inverted_year(year), (99 - month) as nat, (99 - day) as nat, year_width(year)),
        ),
        inverted_year(year) < pow10(year_width(year)),
        (99 - month) < 100,
        (99 - day) < 100,
        ascending_date(year, month, day).len() > 0,
        year_form(year) == 0 ==> ascending_date(year, month, day)[0] == 'A',
        year_form(year) == 1 ==> 66 <= (ascending_date(year, month, day)[0] as u32) <= 74,
        year_form(year) == 2 ==> ascending_date(year, month, day)[0] == 'K',
{
    lemma_pow10_widths();
    lemma_decimal_fixed_two((99 - month) as nat);
    lemma_decimal_fixed_two((99 - day) as nat);
    let a = inverted_year(year);
    let w = year_width(year);
    let s = ascd_digits(a, (99 - month) as nat, (99 - day) as nat, w);
    lemma_ascd_digits_at(a, (99 - month) as nat, (99 - day) as nat, w);
    if 0 <= year <= 8999 {
        lemma_decimal_fixed_four(a);
        assert(inverted_parts(decimal(a), month, day) == s);
        lemma_digit_char((a / 1000) as int);
        assert(s[0] == decimal(a)[0]);
    } else {
        assert(inverted_parts(fixed_digits(a, 6), month, day) == s);
    }
}

/// What follows the `ASCD` part of a key.
spec fn key_rest(year: int, month: int, day: int, title: Seq<char>) -> Seq<char> {
    seq!['_'] + date_text(year, month, day, '-') + seq!['_'] + title
}

proof fn lemma_concat4(a: Seq<char>, b: Seq<char>, c: Seq<char>, d: Seq<char>, e: Seq<char>)
    ensures
        a + b + c + d + e == a + (b + c + d + e),
{
    assert(a + b + c + d + e =~= a + (b + c + d + e));
}

proof fn lemma_key_split(year: int, month: int, day: int, title: Seq<char>)
    ensures
        key_text(year, month, day, title) == ascending_date(year, month, day) + key_rest(
            year,
            month,
            day,
            title,
        ),
{
    lemma_concat4(
        ascending_date(year, month, day),
        seq!['_'],
        date_text(year, month, day, '-'),
        seq!['_'],
        title,
    );
}

/// Keys list later posts first: the key of a later day is smaller than the
/// key of an earlier day, whatever the titles.
pub proof fn lemma_later_dates_sort_first(
    later: Date,
    later_title: Seq<char>,
    earlier: Date,
    earlier_title: Seq<char>,
)
    requires
        later.is_valid(),
        earlier.is_valid(),
        date_lt(earlier, later),
    ensures
        text_lt(date_key(later, later_title), date_key(earlier, earlier_title)),
{
    let (y1, m1, d1) = (later.spec_year(), later.spec_month(), later.spec_day());
    let (y2, m2, d2) = (earlier.spec_year(), earlier.spec_month(), earlier.spec_day());
    lemma_key_split(y1, m1, d1, later_title);
    lemma_key_split(y2, m2, d2, earlier_title);
    lemma_ascending_date_shape(y1, m1, d1);
    lemma_ascending_date_shape(y2, m2, d2);
    let rest1 = key_rest(y1, m1, d1, later_title);
    let rest2 = key_rest(y2, m2, d2, earlier_title);
    let k1 = ascending_date(y1, m1, d1) + rest1;
    let k2 = ascending_date(y2, m2, d2) + rest2;
    if year_form(y1) == year_form(y2) {
        lemma_ascd_order(
            year_prefix(y1),
            inverted_year(y1),
            (99 - m1) as nat,
            (99 - d1) as nat,
            inverted_year(y2),
            (99 - m2) as nat,
            (99 - d2) as nat,
            year_width(y1),
            rest1,
            rest2,
        );
    } else {
        assert(k1[0] == ascending_date(y1, m1, d1)[0]);
        assert(k2[0] == ascending_date(y2, m2, d2)[0]);
        lemma_text_lt_at(k1, k2, 0);
    }
}

/// No character of `s` is `_`.
spec fn no_underscore(s: Seq<char>) -> bool {
    forall|i: int| 0 <= i < s.len() ==> s[i] != '_'
}

/// Characters that numbers are written with: digits, signs and `-`.
spec fn numeral_chars(s: Seq<char>) -> bool {
    forall|i: int|
        0 <= i < s.len() ==> (48 <= #[trigger] (s[i] as u32) <= 57 || s[i] == '-' || s[i]
            == '+')
}

proof fn lemma_numeral_chars_concat(a: Seq<char>, b: Seq<char>)
    requires
        numeral_chars(a),
        numeral_chars(b),
    ensures
        numeral_chars(a + b),
{
    assert forall|i: int| 0 <= i < (a + b).len() implies 48 <= #[trigger] ((a + b)[i] as u32)
        <= 57 || (a + b)[i] == '-' || (a + b)[i] == '+' by {
        if i < a.len() {
            assert((a + b)[i] == a[i]);
        } else {
            assert((a + b)[i] == b[i - a.len()]);
        }
    }
}

proof fn lemma_decimal_numeral_chars(n: nat)
    ensures
        numeral_chars(decimal(n)),
{
    lemma_decimal_digits(n);
}

proof fn lemma_zero_pad_numeral_chars(n: nat, width: nat)
    ensures
        numeral_chars(zero_pad(decimal(n), width)),
{
    lemma_decimal_numeral_chars(n);
    if decimal(n).len() < width {
        let zeros = Seq::new((width - decimal(n).len()) as nat, |i: int| '0');
        assert(numeral_chars(zeros));
        lemma_numeral_chars_concat(zeros, decimal(n));
    }
}

/// A date's text has no `_`.
proof fn lemma_date_text_no_underscore(year: int, month: int, day: int)
    ensures
        no_underscore(date_text(year, month, day, '-')),
{
    let y = year_text(year);
    if 0 <= year <= 9999 {
        lemma_zero_pad_numeral_chars(year as nat, 4);
    } else if year > 9999 {
        lemma_decimal_numeral_chars(year as nat);
        lemma_numeral_chars_concat(seq!['+'], decimal(year as nat));
    } else {
        lemma_zero_pad_numeral_chars((-year) as nat, 4);
        lemma_numeral_chars_concat(seq!['-'], zero_pad(decimal((-year) as nat), 4));
    }
    lemma_zero_pad_numeral_chars(month as nat, 2);
    lemma_zero_pad_numeral_chars(day as nat, 2);
    lemma_numeral_chars_concat(y, seq!['-']);
    lemma_numeral_chars_concat(y + seq!['-'], two_digits(month));
    lemma_numeral_chars_concat(y + seq!['-'] + two_digits(month), seq!['-']);
    lemma_numeral_chars_concat(y + seq!['-'] + two_digits(month) + seq!['-'], two_digits(day));
    let t = date_text(year, month, day, '-');
    assert forall|i: int| 0 <= i < t.len() implies t[i] != '_' by {
        assert(48 <= (t[i] as u32) <= 57 || t[i] == '-' || t[i] == '+');
    }
}

/// The `ASCD` part of a key has no `_`.
proof fn lemma_ascending_date_no_underscore(year: int, month: int, day: int)
    requires
        is_valid_date(year, month, day),
    ensures
        no_underscore(ascending_date(year, month, day)),
{
    lemma_ascending_date_shape(year, month, day);
    let p = year_prefix(year);
    let s = ascd_digits(inverted_year(year), (99 - month) as nat, (99 - day) as nat, year_width(year));
    lemma_ascd_digits_at(inverted_year(year), (99 - month) as nat, (99 - day) as nat, year_width(year));
    let t = ascending_date(year, month, day);
    assert forall|i: int| 0 <= i < t.len() implies t[i] != '_' by {
        if i < p.len() {
            assert(t[i] == p[i]);
        } else {
            assert(t[i] == ascending_char(s[i - p.len()]));
            assert((s[i - p.len()] as u32) <= 57);
        }
    }
}

/// Texts without `_`, each followed by `_`, split the same way.
proof fn lemma_split_at_underscore(a1: Seq<char>, r1: Seq<char>, a2: Seq<char>, r2: Seq<char>)
    requires
        no_underscore(a1),
        no_underscore(a2),
        a1 + seq!['_'] + r1 == a2 + seq!['_'] + r2,
    ensures
        a1 == a2,
        r1 == r2,
{
    let k = a1 + seq!['_'] + r1;
    if a1.len() < a2.len() {
        assert(k[a1.len() as int] == '_');
        assert(k[a1.len() as int] == a2[a1.len() as int]);
    } else if a2.len() < a1.len() {
        assert(k[a2.len() as int] == '_');
        assert(k[a2.len() as int] == a1[a2.len() as int]);
    }
    assert(a1 =~= k.take(a1.len() as int));
    assert(a2 =~= k.take(a1.len() as int));
    assert(r1 =~= k.skip(a1.len() as int + 1));
    assert(r2 =~= k.skip(a1.len() as int + 1));
}

/// A key names one post: posts with the same key have the same date and the
/// same title.
pub proof fn lemma_key_identifies_post(d1: Date, t1: Seq<char>, d2: Date, t2: Seq<char>)
    requires
        d1.is_valid(),
        d2.is_valid(),
        date_key(d1, t1) == date_key(d2, t2),
    ensures
        d1.spec_year() == d2.spec_year(),
        d1.spec_month() == d2.spec_month(),
        d1.spec_day() == d2.spec_day(),
        t1 == t2,
{
    let (y1, m1, e1) = (d1.spec_year(), d1.spec_month(), d1.spec_day());
    let (y2, m2, e2) = (d2.spec_year(), d2.spec_month(), d2.spec_day());
    lemma_key_split(y1, m1, e1, t1);
    lemma_key_split(y2, m2, e2, t2);
    lemma_ascending_date_no_underscore(y1, m1, e1);
    lemma_ascending_date_no_underscore(y2, m2, e2);
    lemma_date_text_no_underscore(y1, m1, e1);
    lemma_date_text_no_underscore(y2, m2, e2);
    let dt1 = date_text(y1, m1, e1, '-');
    let dt2 = date_text(y2, m2, e2, '-');
    assert(key_rest(y1, m1, e1, t1) =~= seq!['_'] + (dt1 + seq!['_'] + t1));
    assert(key_rest(y2, m2, e2, t2) =~= seq!['_'] + (dt2 + seq!['_'] + t2));
    assert(ascending_date(y1, m1, e1) + key_rest(y1, m1, e1, t1) =~= ascending_date(y1, m1, e1)
        + seq!['_'] + (dt1 + seq!['_'] + t1));
    assert(ascending_date(y2, m2, e2) + key_rest(y2, m2, e2, t2) =~= ascending_date(y2, m2, e2)
        + seq!['_'] + (dt2 + seq!['_'] + t2));
    lemma_split_at_underscore(
        ascending_date(y1, m1, e1),
        dt1 + seq!['_'] + t1,
        ascending_date(y2, m2, e2),
        dt2 + seq!['_'] + t2,
    );
    lemma_split_at_underscore(dt1, t1, dt2, t2);
    lemma_date_text_injective(y1, m1, e1, y2, m2, e2, '-');
}

} // verus!
