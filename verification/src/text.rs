//! Text building blocks: decimal numerals and character-level string growth.

use vstd::prelude::*;

verus! {

/// The ASCII digit for a value in `0..10`.
pub open spec fn digit_char(d: int) -> char
    recommends
        0 <= d < 10,
{
    ((d + 48) as u32) as char
}

/// The decimal numeral of a natural number, most significant digit first,
/// without leading zeros (zero is written `0`).
pub open spec fn decimal(n: nat) -> Seq<char>
    decreases n,
{
    if n < 10 {
        seq![digit_char(n as int)]
    } else {
        decimal(n / 10).push(digit_char((n % 10) as int))
    }
}

/// Every character of `s` is an ASCII digit.
pub open spec fn all_digits(s: Seq<char>) -> bool {
    forall|i: int| 0 <= i < s.len() ==> 48 <= #[trigger] (s[i] as u32) <= 57
}

/// The number that a string of ASCII digits denotes, most significant digit
/// first (leading zeros allowed; the empty string is 0).
pub open spec fn digits_value(s: Seq<char>) -> int
    decreases s.len(),
{
    if s.len() == 0 {
        0
    } else {
        10 * digits_value(s.drop_last()) + (s.last() as u32 - 48)
    }
}

/// Strict lexicographic order of texts, character by character (the order of
/// Rust's `str`, since UTF-8 keeps the order of code points).
pub open spec fn text_lt(a: Seq<char>, b: Seq<char>) -> bool {
    exists|i: int|
        #![trigger a.take(i), b.take(i)]
        0 <= i <= a.len() && i <= b.len() && a.take(i) == b.take(i) && ((i < a.len() && i
            < b.len() && (a[i] as u32) < (b[i] as u32)) || (i == a.len() && i < b.len()))
}

/// Two texts that agree before `i` and differ at `i` are ordered by their
/// characters at `i`.
pub proof fn lemma_text_lt_at(a: Seq<char>, b: Seq<char>, i: int)
    requires
        0 <= i < a.len(),
        i < b.len(),
        forall|j: int| 0 <= j < i ==> a[j] == b[j],
        (a[i] as u32) < (b[i] as u32),
    ensures
        text_lt(a, b),
{
    assert(a.take(i) =~= b.take(i));
}

/// The decimal numeral of a four-digit number, digit by digit.
pub proof fn lemma_decimal_four_digits(n: nat)
    requires
        1000 <= n <= 9999,
    ensures
        decimal(n) == seq![
            digit_char((n / 1000) as int),
            digit_char(((n / 100) % 10) as int),
            digit_char(((n / 10) % 10) as int),
            digit_char((n % 10) as int),
        ],
{
    let n1 = n / 10;
    let n2 = n1 / 10;
    let n3 = n2 / 10;
    assert(n2 == n / 100);
    assert(n3 == n / 1000);
    assert(n3 < 10);
    assert(decimal(n3) == seq![digit_char(n3 as int)]);
    assert(decimal(n2) == decimal(n3).push(digit_char((n2 % 10) as int)));
    assert(decimal(n1) == decimal(n2).push(digit_char((n1 % 10) as int)));
    assert(decimal(n) == decimal(n1).push(digit_char((n % 10) as int)));
    assert(decimal(n) =~= seq![
        digit_char((n / 1000) as int),
        digit_char(((n / 100) % 10) as int),
        digit_char(((n / 10) % 10) as int),
        digit_char((n % 10) as int),
    ]);
}

/// The decimal numeral of a two-digit number, digit by digit.
pub proof fn lemma_decimal_two_digits(n: nat)
    requires
        10 <= n <= 99,
    ensures
        decimal(n) == seq![digit_char((n / 10) as int), digit_char((n % 10) as int)],
{
    assert(decimal(n / 10) == seq![digit_char((n / 10) as int)]);
    assert(decimal(n) =~= seq![digit_char((n / 10) as int), digit_char((n % 10) as int)]);
}

/// A digit character is the character of its value.
pub proof fn lemma_digit_char(d: int)
    requires
        0 <= d < 10,
    ensures
        digit_char(d) as u32 == d + 48,
{
}

/// Different digits have different characters.
pub proof fn lemma_digit_char_injective(a: int, b: int)
    requires
        0 <= a < 10,
        0 <= b < 10,
        digit_char(a) == digit_char(b),
    ensures
        a == b,
{
    lemma_digit_char(a);
    lemma_digit_char(b);
}

/// A numeral is made of digits: characters `0` to `9`.
pub proof fn lemma_decimal_digits(n: nat)
    ensures
        forall|i: int|
            0 <= i < decimal(n).len() ==> 48 <= #[trigger] (decimal(n)[i] as u32) <= 57,
    decreases n,
{
    if n < 10 {
        lemma_digit_char(n as int);
    } else {
        lemma_decimal_digits(n / 10);
        lemma_digit_char((n % 10) as int);
        assert forall|i: int| 0 <= i < decimal(n).len() implies 48 <= #[trigger] (
        decimal(n)[i] as u32) <= 57 by {
            if i < decimal(n / 10).len() {
                assert(decimal(n)[i] == decimal(n / 10)[i]);
            }
        }
    }
}

/// Numerals of one digit are the numbers below 10, and numerals of at most
/// four digits are the numbers below 10000.
pub proof fn lemma_decimal_len(n: nat)
    ensures
        decimal(n).len() >= 1,
        n < 10 <==> decimal(n).len() == 1,
        n < 100 <==> decimal(n).len() <= 2,
        n < 1000 <==> decimal(n).len() <= 3,
        n < 10000 <==> decimal(n).len() <= 4,
    decreases n,
{
    if n >= 10 {
        lemma_decimal_len(n / 10);
    }
}

/// Different numbers have different numerals.
pub proof fn lemma_decimal_injective(a: nat, b: nat)
    requires
        decimal(a) == decimal(b),
    ensures
        a == b,
    decreases a,
{
    lemma_decimal_len(a);
    lemma_decimal_len(b);
    if a < 10 {
        assert(b < 10);
        assert(decimal(a)[0] == digit_char(a as int));
        assert(decimal(b)[0] == digit_char(b as int));
        lemma_digit_char_injective(a as int, b as int);
    } else {
        let la = decimal(a).len() - 1;
        assert(decimal(a)[la] == digit_char((a % 10) as int));
        assert(decimal(b)[la] == digit_char((b % 10) as int));
        lemma_digit_char_injective((a % 10) as int, (b % 10) as int);
        assert(decimal(a / 10) =~= decimal(a).drop_last());
        assert(decimal(b / 10) =~= decimal(b).drop_last());
        lemma_decimal_injective(a / 10, b / 10);
    }
}

/// `String::push`: appends one character.
#[verifier::external_body]
pub(crate) fn push_char(s: &mut String, c: char)
    ensures
        final(s)@ == old(s)@.push(c),
{
    s.push(c);
}

} // verus!
