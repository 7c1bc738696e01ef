//! Mathematical model of decimal notation: powers of ten, digit counts,
//! positional digits, digit characters, and the facts relating them.
//!
//! Everything in this module is specification and proof; the executable
//! formatter and parser state their contracts in these terms.

use vstd::prelude::*;
use vstd::arithmetic::div_mod::{
    lemma_div_denominator, lemma_fundamental_div_mod, lemma_mod_division_less_than_divisor,
};

verus! {

/// Ten raised to the power `e`.
pub open spec fn pow10(e: nat) -> nat
    decreases e,
{
    if e == 0 {
        1
    } else {
        10 * pow10((e - 1) as nat)
    }
}

/// The number of digits in the decimal representation of `n` (one digit for
/// zero).
pub open spec fn num_digits(n: nat) -> nat
    decreases n,
{
    if n < 10 {
        1
    } else {
        1 + num_digits(n / 10)
    }
}

/// The absolute value of an integer.
pub open spec fn int_abs(a: int) -> int {
    if a < 0 {
        -a
    } else {
        a
    }
}

/// Division truncating toward zero, as the native `/` of the mantissa kinds
/// behaves.
pub open spec fn tdiv(a: int, b: int) -> int {
    if (a < 0) != (b < 0) {
        -(int_abs(a) / int_abs(b))
    } else {
        int_abs(a) / int_abs(b)
    }
}

/// Remainder matching `tdiv`, as the native `%` of the mantissa kinds behaves
/// (its sign follows the dividend).
pub open spec fn trem(a: int, b: int) -> int {
    a - tdiv(a, b) * b
}

/// The decimal digit of `n` at position `p` (position 0 is the units digit).
pub open spec fn digit_at(n: nat, p: nat) -> nat {
    (n / pow10(p)) % 10
}

/// The character for the single decimal digit `d`.
pub open spec fn digit_char_of(d: nat) -> char {
    ((48 + d) as char)
}

/// Whether `c` is one of the characters `'0'` through `'9'`.
pub open spec fn is_dec_digit(c: char) -> bool {
    '0' <= c && c <= '9'
}

/// The numeric value of a decimal digit character.
pub open spec fn digit_val(c: char) -> int {
    c as int - 48
}

/// Whether every character of `s` lies in the ASCII range.
pub open spec fn ascii_chars(s: Seq<char>) -> bool {
    forall|i: int| #![trigger s[i]] 0 <= i < s.len() ==> (s[i] as int) < 128
}

/// The digits of `n` at positions `hi - 1` down to `lo`, most significant
/// first.
pub open spec fn digits_between(n: nat, lo: nat, hi: nat) -> Seq<char> {
    Seq::new((hi - lo) as nat, |k: int| digit_char_of(digit_at(n, (hi - 1 - k) as nat)))
}

/// `count` repetitions of the character `'0'`.
pub open spec fn zero_chars(count: nat) -> Seq<char> {
    Seq::new(count, |k: int| '0')
}

pub proof fn lemma_pow10_positive(e: nat)
    ensures
        pow10(e) >= 1,
    decreases e,
{
    if e > 0 {
        lemma_pow10_positive((e - 1) as nat);
    }
}

/// The concrete value of ten to the 39th power: one more digit than any
/// mantissa kind can carry.
pub proof fn lemma_pow10_39()
    ensures
        pow10(39) == 1000000000000000000000000000000000000000,
{
    assert(pow10(0) == 1);
    assert(pow10(1) == 10);
    assert(pow10(2) == 100);
    assert(pow10(3) == 1000);
    assert(pow10(4) == 10000);
    assert(pow10(5) == 100000);
    assert(pow10(6) == 1000000);
    assert(pow10(7) == 10000000);
    assert(pow10(8) == 100000000);
    assert(pow10(9) == 1000000000);
    assert(pow10(10) == 10000000000);
    assert(pow10(11) == 100000000000);
    assert(pow10(12) == 1000000000000);
    assert(pow10(13) == 10000000000000);
    assert(pow10(14) == 100000000000000);
    assert(pow10(15) == 1000000000000000);
    assert(pow10(16) == 10000000000000000);
    assert(pow10(17) == 100000000000000000);
    assert(pow10(18) == 1000000000000000000);
    assert(pow10(19) == 10000000000000000000);
    assert(pow10(20) == 100000000000000000000);
    assert(pow10(21) == 1000000000000000000000);
    assert(pow10(22) == 10000000000000000000000);
    assert(pow10(23) == 100000000000000000000000);
    assert(pow10(24) == 1000000000000000000000000);
    assert(pow10(25) == 10000000000000000000000000);
    assert(pow10(26) == 100000000000000000000000000);
    assert(pow10(27) == 1000000000000000000000000000);
    assert(pow10(28) == 10000000000000000000000000000);
    assert(pow10(29) == 100000000000000000000000000000);
    assert(pow10(30) == 1000000000000000000000000000000);
    assert(pow10(31) == 10000000000000000000000000000000);
    assert(pow10(32) == 100000000000000000000000000000000);
    assert(pow10(33) == 1000000000000000000000000000000000);
    assert(pow10(34) == 10000000000000000000000000000000000);
    assert(pow10(35) == 100000000000000000000000000000000000);
    assert(pow10(36) == 1000000000000000000000000000000000000);
    assert(pow10(37) == 10000000000000000000000000000000000000);
    assert(pow10(38) == 100000000000000000000000000000000000000);
    assert(pow10(39) == 1000000000000000000000000000000000000000);
}

pub proof fn lemma_pow10_monotone(a: nat, b: nat)
    requires
        a <= b,
    ensures
        pow10(a) <= pow10(b),
    decreases b,
{
    if a < b {
        lemma_pow10_monotone(a, (b - 1) as nat);
        lemma_pow10_positive((b - 1) as nat);
    }
}

pub proof fn lemma_pow10_adds(a: nat, b: nat)
    ensures
        pow10(a + b) == pow10(a) * pow10(b),
    decreases a,
{
    if a == 0 {
        assert(pow10(0 + b) == 1 * pow10(b));
    } else {
        let am1 = (a - 1) as nat;
        lemma_pow10_adds(am1, b);
        assert(pow10(a + b) == 10 * pow10((a + b - 1) as nat));
        assert(pow10(a + b) == 10 * (pow10(am1) * pow10(b)));
        assert(pow10(a) == 10 * pow10(am1));
        assert((10 * pow10(am1)) * pow10(b) == 10 * (pow10(am1) * pow10(b))) by (nonlinear_arith);
        assert(pow10(a) * pow10(b) == 10 * (pow10(am1) * pow10(b)));
        assert(pow10(a + b) == pow10(a) * pow10(b));
    }
}

/// A number is smaller than ten to its digit count, and at least ten to one
/// less than its digit count when it is nonzero.
pub proof fn lemma_num_digits_bounds(n: nat)
    ensures
        num_digits(n) >= 1,
        n < pow10(num_digits(n)),
        n >= 1 ==> pow10((num_digits(n) - 1) as nat) <= n,
    decreases n,
{
    if n < 10 {
        lemma_pow10_positive(1);
    } else {
        lemma_num_digits_bounds(n / 10);
        let d = num_digits(n / 10);
        // n < 10 * pow10(d) because n / 10 < pow10(d)
        assert(n / 10 < pow10(d));
        assert(n < 10 * pow10(d)) by {
            lemma_fundamental_div_mod(n as int, 10);
            lemma_mod_division_less_than_divisor(n as int, 10);
        };
        assert(pow10(d) <= n) by {
            assert(pow10((d - 1) as nat) <= n / 10);
            lemma_fundamental_div_mod(n as int, 10);
            assert(n >= 10 * (n / 10));
            assert(10 * pow10((d - 1) as nat) <= 10 * (n / 10)) by (nonlinear_arith)
                requires pow10((d - 1) as nat) <= n / 10,
            ;
        };
    }
}

/// Every digit count at most `e` means the number is below ten to the `e`.
pub proof fn lemma_below_pow10_digits(n: nat, e: nat)
    requires
        n < pow10(e),
        e >= 1,
    ensures
        num_digits(n) <= e,
{
    lemma_num_digits_bounds(n);
    let d = num_digits(n);
    if d > e {
        // then pow10(d - 1) <= n < pow10(e) <= pow10(d - 1): contradiction
        if n >= 1 {
            lemma_pow10_monotone(e, (d - 1) as nat);
        }
    }
}

/// Digits at or above the digit count are zero.
pub proof fn lemma_digit_at_high_zero(n: nat, p: nat)
    requires
        p >= num_digits(n),
    ensures
        digit_at(n, p) == 0,
        n / pow10(p) == 0,
{
    lemma_num_digits_bounds(n);
    lemma_pow10_monotone(num_digits(n), p);
    lemma_pow10_positive(p);
    assert(n < pow10(p));
    assert(n / pow10(p) == 0) by {
        vstd::arithmetic::div_mod::lemma_basic_div(n as int, pow10(p) as int);
    };
}

/// The core positional identity: shifting out one more digit.
pub proof fn lemma_div_pow10_step(n: nat, p: nat)
    ensures
        n / pow10(p) == (n / pow10(p + 1)) * 10 + digit_at(n, p),
{
    lemma_pow10_positive(p);
    let q = n / pow10(p);
    assert(pow10(p + 1) == pow10(p) * 10) by {
        lemma_pow10_adds(p, 1);
    };
    assert((n as int) / (pow10(p) as int) / 10 == (n as int) / (pow10(p) as int * 10)) by {
        lemma_div_denominator(n as int, pow10(p) as int, 10);
    };
    assert(q / 10 == n / pow10(p + 1));
    lemma_fundamental_div_mod(q as int, 10);
    assert(q == 10 * (q / 10) + q % 10);
    assert(digit_at(n, p) == q % 10);
}

pub proof fn lemma_digit_at_bound(n: nat, p: nat)
    ensures
        digit_at(n, p) < 10,
{
    lemma_pow10_positive(p);
    lemma_mod_division_less_than_divisor((n / pow10(p)) as int, 10);
}

/// Dividing by a larger power of ten gives a no larger quotient.
pub proof fn lemma_div_pow10_ordered(n: nat, p: nat, q: nat)
    requires
        p <= q,
    ensures
        n / pow10(q) <= n / pow10(p) <= n,
{
    lemma_pow10_positive(p);
    lemma_pow10_positive(q);
    lemma_pow10_monotone(p, q);
    vstd::arithmetic::div_mod::lemma_div_is_ordered_by_denominator(n as int, pow10(p) as int, pow10(q) as int);
    vstd::arithmetic::div_mod::lemma_div_is_ordered_by_denominator(n as int, 1, pow10(p) as int);
    assert(n as int / 1 == n as int) by {
        vstd::arithmetic::div_mod::lemma_div_basics_1(n as int);
    };
}

/// Digit ranges hold only digit characters, hence only ASCII characters.
pub proof fn lemma_digits_between_dec(n: nat, lo: nat, hi: nat)
    ensures
        forall|i: int|
            0 <= i < digits_between(n, lo, hi).len() ==> is_dec_digit(
                #[trigger] digits_between(n, lo, hi)[i],
            ),
        ascii_chars(digits_between(n, lo, hi)),
{
    assert forall|i: int| 0 <= i < digits_between(n, lo, hi).len() implies is_dec_digit(
        digits_between(n, lo, hi)[i],
    ) && (digits_between(n, lo, hi)[i] as int) < 128 by {
        lemma_digit_at_bound(n, (hi - 1 - i) as nat);
    };
}

/// A digit character's value is its digit.
pub proof fn lemma_digit_char_val(d: nat)
    requires
        d < 10,
    ensures
        is_dec_digit(digit_char_of(d)),
        digit_val(digit_char_of(d)) == d,
        digit_char_of(d) as int == 48 + d,
{
}

} // verus!
