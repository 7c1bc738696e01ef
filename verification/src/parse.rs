//! The parser: exact decimal text to a mantissa at the target scale, in one
//! left-to-right scan with no intermediate string.
//!
//! The accumulator is built digit by digit — multiply by ten, then add the
//! digit under the sign being accumulated — failing the moment a step would
//! leave the kind's range. Accumulating the sign into every step (rather
//! than negating a positive total at the end) is what lets the most
//! negative value of a signed kind parse exactly.
//!
//! `parse_spec` and the scan functions below state the accepted grammar,
//! the exact mantissa produced, and which failure each rejected input
//! yields; `parse_str_radix_10_exact` returns precisely what they describe.

use vstd::prelude::*;
use crate::digits::{digit_val, is_dec_digit};
use crate::fixed_decimal::FixedDecimal;
use crate::num_kind::IntKind;

verus! {

/// A parse failure.
#[derive(Clone, Copy, Debug, PartialEq, Eq, Structural)]
#[non_exhaustive]
pub enum ParseError {
    /// No digits present: the input is empty, all whitespace, or only a
    /// sign and/or a decimal point.
    Empty,
    /// A character outside `[+-.0-9]` in a structurally invalid position,
    /// or a minus sign for an unsigned kind.
    InvalidDigit,
    /// The accumulated value would exceed the kind's maximum.
    PosOverflow,
    /// The accumulated value would fall below the kind's minimum.
    NegOverflow,
    /// Nonzero fractional digits beyond the target scale.
    Underflow,
}

/// The characters treated as whitespace: ASCII space, tab, line feed,
/// carriage return, and form feed.
pub open spec fn is_space_char(c: char) -> bool {
    c == ' ' || c == '\t' || c == '\n' || c == '\r' || c == '\u{000C}'
}

/// Whether the whole input is whitespace (an empty input included).
pub open spec fn all_whitespace(cs: Seq<char>) -> bool {
    forall|i: int| 0 <= i < cs.len() ==> is_space_char(#[trigger] cs[i])
}

/// The overflow failure under the sign being accumulated.
pub open spec fn overflow_of(neg: bool) -> ParseError {
    if neg {
        ParseError::NegOverflow
    } else {
        ParseError::PosOverflow
    }
}

/// The digit's contribution under the sign being accumulated.
pub open spec fn signed_digit(c: char, neg: bool) -> int {
    if neg {
        -digit_val(c)
    } else {
        digit_val(c)
    }
}

/// Multiplying the accumulator by ten once per missing fractional digit —
/// the zero padding applied when the input supplies fewer fractional
/// digits than the scale — failing the moment the range is left. As
/// everywhere in the parser, the overflow is labeled by the sign under
/// which the value is being accumulated: `NegOverflow` after a minus sign,
/// `PosOverflow` otherwise.
pub open spec fn shift_scale(acc: int, k: nat, neg: bool, min: int, max: int) -> Result<
    int,
    ParseError,
>
    decreases k,
{
    if k == 0 {
        Result::Ok(acc)
    } else if !(min <= 10 * acc <= max) {
        Result::Err(overflow_of(neg))
    } else {
        shift_scale(10 * acc, (k - 1) as nat, neg, min, max)
    }
}

/// What remains after the scale's worth of fractional digits: nothing is
/// success; a non-digit anywhere is invalid; trailing zeros only are
/// harmless excess; any nonzero excess digit is more precision than the
/// scale can hold.
pub open spec fn tail_after_frac(cs: Seq<char>, i: int, acc: int) -> Result<int, ParseError> {
    if i >= cs.len() {
        Result::Ok(acc)
    } else if exists|j: int| i <= j < cs.len() && !is_dec_digit(#[trigger] cs[j]) {
        Result::Err(ParseError::InvalidDigit)
    } else if forall|j: int| i <= j < cs.len() ==> #[trigger] cs[j] == '0' {
        Result::Ok(acc)
    } else {
        Result::Err(ParseError::Underflow)
    }
}

/// The scan after the decimal point: up to `scale - taken` more digits
/// accumulate (multiply by ten first, then the digit check, then the
/// signed addition — each failing exactly when its native step would);
/// input ending early zero-pads the remainder.
pub open spec fn scan_frac(
    cs: Seq<char>,
    i: int,
    acc: int,
    taken: nat,
    neg: bool,
    min: int,
    max: int,
    scale: nat,
) -> Result<int, ParseError>
    decreases scale - taken,
{
    if taken >= scale {
        tail_after_frac(cs, i, acc)
    } else if i >= cs.len() {
        shift_scale(acc, (scale - taken) as nat, neg, min, max)
    } else if !(min <= 10 * acc <= max) {
        Result::Err(overflow_of(neg))
    } else if !is_dec_digit(cs[i]) {
        Result::Err(ParseError::InvalidDigit)
    } else if !(min <= 10 * acc + signed_digit(cs[i], neg) <= max) {
        Result::Err(overflow_of(neg))
    } else {
        scan_frac(
            cs,
            i + 1,
            10 * acc + signed_digit(cs[i], neg),
            taken + 1,
            neg,
            min,
            max,
            scale,
        )
    }
}

/// The scan of the integer part, beginning after any sign: digits
/// accumulate as in `scan_frac`; a decimal point hands over to the
/// fractional scan; the end of the input zero-pads the whole scale.
pub open spec fn scan_int(
    cs: Seq<char>,
    i: int,
    acc: int,
    neg: bool,
    min: int,
    max: int,
    scale: nat,
) -> Result<int, ParseError>
    decreases cs.len() - i,
{
    if i >= cs.len() {
        shift_scale(acc, scale, neg, min, max)
    } else if cs[i] == '.' {
        scan_frac(cs, i + 1, acc, 0, neg, min, max, scale)
    } else if !(min <= 10 * acc <= max) {
        Result::Err(overflow_of(neg))
    } else if !is_dec_digit(cs[i]) {
        Result::Err(ParseError::InvalidDigit)
    } else if !(min <= 10 * acc + signed_digit(cs[i], neg) <= max) {
        Result::Err(overflow_of(neg))
    } else {
        scan_int(cs, i + 1, 10 * acc + signed_digit(cs[i], neg), neg, min, max, scale)
    }
}

/// What parsing returns, for every input: the exact mantissa on success,
/// and the precise failure otherwise. A whitespace-only input is `Empty`;
/// a minus sign is rejected for unsigned kinds; an input that is only a
/// sign and/or a decimal point holds no digits and is `Empty`; everything
/// else is decided by the scan.
pub open spec fn parse_spec(cs: Seq<char>, signed: bool, min: int, max: int, scale: nat) -> Result<
    int,
    ParseError,
> {
    if all_whitespace(cs) {
        Result::Err(ParseError::Empty)
    } else if cs[0] == '-' && !signed {
        Result::Err(ParseError::InvalidDigit)
    } else {
        let neg = cs[0] == '-';
        let rest = if cs[0] == '-' || cs[0] == '+' {
            cs.subrange(1, cs.len() as int)
        } else {
            cs
        };
        if rest.len() == 0 || (rest.len() == 1 && rest[0] == '.') {
            Result::Err(ParseError::Empty)
        } else {
            scan_int(rest, 0, 0, neg, min, max, scale)
        }
    }
}

/// The digit a character stands for, if it is one.
fn digit_of_char(c: char) -> (r: Option<u8>)
    ensures
        (r is Some) == is_dec_digit(c),
        r matches Some(d) ==> d as int == digit_val(c) && d < 10,
{
    match c {
        '0' => Some(0u8),
        '1' => Some(1u8),
        '2' => Some(2u8),
        '3' => Some(3u8),
        '4' => Some(4u8),
        '5' => Some(5u8),
        '6' => Some(6u8),
        '7' => Some(7u8),
        '8' => Some(8u8),
        '9' => Some(9u8),
        _ => None,
    }
}

/// The overflow failure under the sign being accumulated.
fn overflow_error(neg: bool) -> (e: ParseError)
    ensures
        e == overflow_of(neg),
{
    if neg {
        ParseError::NegOverflow
    } else {
        ParseError::PosOverflow
    }
}

/// Zero-pads `k` missing fractional digit positions into the accumulator,
/// returning exactly what `shift_scale` describes.
fn apply_scale_shift<T: IntKind>(acc: T, k: u8, neg: bool) -> (r: Result<T, ParseError>)
    ensures
        match r {
            Result::Ok(v) => shift_scale(acc.ival(), k as nat, neg, T::imin(), T::imax())
                == Result::<int, ParseError>::Ok(v.ival()),
            Result::Err(e) => shift_scale(acc.ival(), k as nat, neg, T::imin(), T::imax())
                == Result::<int, ParseError>::Err(e),
        },
{
    let mut a = acc;
    let mut t: u8 = 0;
    while t < k
        invariant
            t <= k,
            shift_scale(acc.ival(), k as nat, neg, T::imin(), T::imax()) == shift_scale(
                a.ival(),
                (k - t) as nat,
                neg,
                T::imin(),
                T::imax(),
            ),
        decreases k - t,
    {
        match a.checked_mul_ten() {
            Some(v) => {
                a = v;
            },
            None => {
                return Result::Err(overflow_error(neg));
            },
        }
        t = t + 1;
    }
    Result::Ok(a)
}

/// Parses decimal text into a value of the target kind and scale, exactly
/// as `parse_spec` describes: `Ok` with the exact mantissa for every
/// accepted input, and the precise failure for every rejected one.
pub fn parse_str_radix_10_exact<T: IntKind, const SCALE: u8>(s: &str) -> (r: Result<
    FixedDecimal<T, SCALE>,
    ParseError,
>)
    ensures
        ({
            let sp = parse_spec(s@, T::signed_kind(), T::imin(), T::imax(), SCALE as nat);
            match r {
                Result::Ok(d) => sp == Result::<int, ParseError>::Ok(d.mant()),
                Result::Err(e) => sp == Result::<int, ParseError>::Err(e),
            }
        }),
{
    let ghost goal = parse_spec(s@, T::signed_kind(), T::imin(), T::imax(), SCALE as nat);
    let ghost min = T::imin();
    let ghost max = T::imax();
    let ghost scale = SCALE as nat;
    let n = s.unicode_len();

    let mut all_ws = true;
    let mut w: usize = 0;
    while w < n
        invariant
            w <= n,
            n == s@.len(),
            all_ws == (forall|j: int| 0 <= j < w ==> is_space_char(#[trigger] s@[j])),
        decreases n - w,
    {
        let c = s.get_char(w);
        let sp = c == ' ' || c == '\t' || c == '\n' || c == '\r' || c == '\u{000C}';
        all_ws = all_ws && sp;
        w = w + 1;
    }
    if all_ws {
        assert(goal == Result::<int, ParseError>::Err(ParseError::Empty));
        return Result::Err(ParseError::Empty);
    }
    assert(n >= 1);

    let c0 = s.get_char(0);
    let mut neg = false;
    let mut start: usize = 0;
    if c0 == '-' {
        if !T::signed() {
            assert(goal == Result::<int, ParseError>::Err(ParseError::InvalidDigit));
            return Result::Err(ParseError::InvalidDigit);
        }
        neg = true;
        start = 1;
    } else if c0 == '+' {
        start = 1;
    }
    let ghost rest = s@.subrange(start as int, n as int);
    assert(rest =~= if c0 == '-' || c0 == '+' {
        s@.subrange(1, s@.len() as int)
    } else {
        s@
    });

    if start == n {
        assert(goal == Result::<int, ParseError>::Err(ParseError::Empty));
        return Result::Err(ParseError::Empty);
    }
    if start + 1 == n {
        let c = s.get_char(start);
        if c == '.' {
            assert(rest.len() == 1 && rest[0] == '.');
            assert(goal == Result::<int, ParseError>::Err(ParseError::Empty));
            return Result::Err(ParseError::Empty);
        }
    }
    assert(!(rest.len() == 0 || (rest.len() == 1 && rest[0] == '.')));
    assert(goal == scan_int(rest, 0, 0, neg, min, max, scale));

    let mut acc = T::zero();
    let mut i = start;
    let mut saw_dot = false;
    while i < n && !saw_dot
        invariant
            start <= i <= n,
            n == s@.len(),
            rest == s@.subrange(start as int, n as int),
            goal == parse_spec(s@, T::signed_kind(), T::imin(), T::imax(), SCALE as nat),
            neg ==> T::signed_kind(),
            min == T::imin(),
            max == T::imax(),
            scale == SCALE as nat,
            !saw_dot ==> goal == scan_int(rest, i - start, acc.ival(), neg, min, max, scale),
            saw_dot ==> goal == scan_frac(rest, i - start, acc.ival(), 0, neg, min, max, scale),
        decreases n - i,
    {
        let c = s.get_char(i);
        assert(rest[i - start] == c);
        if c == '.' {
            saw_dot = true;
            i = i + 1;
        } else {
            match acc.checked_mul_ten() {
                Some(a) => {
                    acc = a;
                },
                None => {
                    assert(goal == Result::<int, ParseError>::Err(overflow_of(neg)));
                    return Result::Err(overflow_error(neg));
                },
            }
            match digit_of_char(c) {
                Some(d) => {
                    match acc.checked_add_digit(d, neg) {
                        Some(a) => {
                            acc = a;
                        },
                        None => {
                            assert(goal == Result::<int, ParseError>::Err(overflow_of(neg)));
                            return Result::Err(overflow_error(neg));
                        },
                    }
                },
                None => {
                    assert(goal == Result::<int, ParseError>::Err(ParseError::InvalidDigit));
                    return Result::Err(ParseError::InvalidDigit);
                },
            }
            i = i + 1;
        }
    }

    if !saw_dot {
        assert(i == n);
        assert(goal == shift_scale(acc.ival(), scale, neg, min, max));
        match apply_scale_shift(acc, SCALE, neg) {
            Result::Ok(v) => {
                return Result::Ok(FixedDecimal::new(v));
            },
            Result::Err(e) => {
                return Result::Err(e);
            },
        }
    }

    let mut taken: u8 = 0;
    while taken < SCALE
        invariant
            start <= i <= n,
            n == s@.len(),
            rest == s@.subrange(start as int, n as int),
            goal == parse_spec(s@, T::signed_kind(), T::imin(), T::imax(), SCALE as nat),
            neg ==> T::signed_kind(),
            min == T::imin(),
            max == T::imax(),
            scale == SCALE as nat,
            taken <= SCALE,
            goal == scan_frac(rest, i - start, acc.ival(), taken as nat, neg, min, max, scale),
        decreases SCALE - taken,
    {
        if i >= n {
            assert(goal == shift_scale(
                acc.ival(),
                (scale - taken as nat) as nat,
                neg,
                min,
                max,
            ));
            match apply_scale_shift(acc, SCALE - taken, neg) {
                Result::Ok(v) => {
                    return Result::Ok(FixedDecimal::new(v));
                },
                Result::Err(e) => {
                    return Result::Err(e);
                },
            }
        }
        let c = s.get_char(i);
        assert(rest[i - start] == c);
        match acc.checked_mul_ten() {
            Some(a) => {
                acc = a;
            },
            None => {
                assert(goal == Result::<int, ParseError>::Err(overflow_of(neg)));
                return Result::Err(overflow_error(neg));
            },
        }
        match digit_of_char(c) {
            Some(d) => {
                match acc.checked_add_digit(d, neg) {
                    Some(a) => {
                        acc = a;
                    },
                    None => {
                        assert(goal == Result::<int, ParseError>::Err(overflow_of(neg)));
                        return Result::Err(overflow_error(neg));
                    },
                }
            },
            None => {
                assert(goal == Result::<int, ParseError>::Err(ParseError::InvalidDigit));
                return Result::Err(ParseError::InvalidDigit);
            },
        }
        i = i + 1;
        taken = taken + 1;
    }

    assert(goal == tail_after_frac(rest, i - start, acc.ival()));
    if i >= n {
        assert(goal == Result::<int, ParseError>::Ok(acc.ival()));
        return Result::Ok(FixedDecimal::new(acc));
    }
    let tail_start = i;
    let mut has_nondigit = false;
    let mut all_zero = true;
    while i < n
        invariant
            tail_start <= i <= n,
            n == s@.len(),
            rest == s@.subrange(start as int, n as int),
            start <= tail_start,
            goal == parse_spec(s@, T::signed_kind(), T::imin(), T::imax(), SCALE as nat),
            goal == tail_after_frac(rest, tail_start - start, acc.ival()),
            has_nondigit == (exists|j: int|
                tail_start - start <= j < i - start && !is_dec_digit(#[trigger] rest[j])),
            all_zero == (forall|j: int|
                tail_start - start <= j < i - start ==> #[trigger] rest[j] == '0'),
        decreases n - i,
    {
        let c = s.get_char(i);
        assert(rest[i - start] == c);
        let dig = digit_of_char(c);
        has_nondigit = has_nondigit || dig.is_none();
        all_zero = all_zero && c == '0';
        i = i + 1;
    }
    if has_nondigit {
        assert(goal == Result::<int, ParseError>::Err(ParseError::InvalidDigit));
        Result::Err(ParseError::InvalidDigit)
    } else if all_zero {
        assert(goal == Result::<int, ParseError>::Ok(acc.ival()));
        Result::Ok(FixedDecimal::new(acc))
    } else {
        assert(goal == Result::<int, ParseError>::Err(ParseError::Underflow));
        Result::Err(ParseError::Underflow)
    }
}

impl<T: IntKind, const SCALE: u8> core::str::FromStr for FixedDecimal<T, SCALE> {
    type Err = ParseError;

    fn from_str(s: &str) -> Result<Self, ParseError> {
        parse_str_radix_10_exact(s)
    }
}

} // verus!
