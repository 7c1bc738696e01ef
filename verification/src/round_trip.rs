//! The round-trip law: parsing what the formatter produced yields the
//! original value back, for every kind, every scale, and every mantissa —
//! the two ends of the text codec agree exactly.

use vstd::prelude::*;
use crate::digits::{
    digit_at, digit_char_of, digit_val, digits_between, int_abs, is_dec_digit, num_digits, pow10,
    lemma_digit_at_bound, lemma_digit_at_high_zero, lemma_digit_char_val, lemma_div_pow10_ordered,
    lemma_div_pow10_step, lemma_num_digits_bounds, lemma_pow10_monotone,
};
use crate::parse::{
    all_whitespace, is_space_char, parse_spec, scan_frac, scan_int, shift_scale, tail_after_frac,
    ParseError,
};
use crate::render::{fmt_chars, fmt_frac_chars, fmt_int_chars, sign_chars};

verus! {

/// A magnitude under an accumulation sign.
pub open spec fn signed_val(q: int, neg: bool) -> int {
    if neg {
        -q
    } else {
        q
    }
}

/// Scanning a run of the digits of `mag` — positions `hi - 1` down to `lo`
/// at indices `i0` onward — carries the accumulator from the value above
/// the run to the value above position `lo`, with no step leaving the
/// range: each intermediate prefix of a representable number is itself in
/// range.
proof fn lemma_scan_digits_int(
    cs: Seq<char>,
    i0: int,
    mag: nat,
    lo: nat,
    hi: nat,
    neg: bool,
    min: int,
    max: int,
    scale: nat,
)
    requires
        lo <= hi,
        0 <= i0,
        i0 + (hi - lo) <= cs.len(),
        forall|k: int|
            0 <= k < hi - lo ==> #[trigger] cs[i0 + k] == digit_char_of(
                digit_at(mag, (hi - 1 - k) as nat),
            ),
        min <= 0 <= max,
        neg ==> min <= -(mag as int),
        !neg ==> mag as int <= max,
    ensures
        scan_int(cs, i0, signed_val((mag / pow10(hi)) as int, neg), neg, min, max, scale)
            == scan_int(
            cs,
            i0 + (hi - lo),
            signed_val((mag / pow10(lo)) as int, neg),
            neg,
            min,
            max,
            scale,
        ),
    decreases hi - lo,
{
    if lo < hi {
        let p = (hi - 1) as nat;
        let q_hi = (mag / pow10(hi)) as int;
        let q_next = (mag / pow10(p)) as int;
        let d = digit_at(mag, p);
        lemma_div_pow10_step(mag, p);
        lemma_digit_at_bound(mag, p);
        lemma_digit_char_val(d);
        lemma_div_pow10_ordered(mag, p, hi);
        let c = cs[i0];
        assert(cs[i0 + 0] == digit_char_of(digit_at(mag, (hi - 1 - 0) as nat)));
        assert(c == digit_char_of(d));
        assert(is_dec_digit(c));
        assert(c != '.');
        let acc = signed_val(q_hi, neg);
        assert(q_next == 10 * q_hi + d);
        assert(min <= 10 * acc <= max);
        assert(digit_val(c) == d);
        assert(10 * acc + crate::parse::signed_digit(c, neg) == signed_val(q_next, neg));
        assert(min <= signed_val(q_next, neg) <= max);
        assert(scan_int(cs, i0, acc, neg, min, max, scale) == scan_int(
            cs,
            i0 + 1,
            signed_val(q_next, neg),
            neg,
            min,
            max,
            scale,
        ));
        assert forall|k: int| 0 <= k < p - lo implies #[trigger] cs[i0 + 1 + k] == digit_char_of(
            digit_at(mag, (p - 1 - k) as nat),
        ) by {
            assert(cs[i0 + (k + 1)] == digit_char_of(digit_at(mag, (hi - 1 - (k + 1)) as nat)));
        };
        lemma_scan_digits_int(cs, i0 + 1, mag, lo, p, neg, min, max, scale);
    }
}

/// The fractional counterpart of `lemma_scan_digits_int`, counting the
/// digits taken toward the scale.
proof fn lemma_scan_digits_frac(
    cs: Seq<char>,
    i0: int,
    mag: nat,
    lo: nat,
    hi: nat,
    taken: nat,
    neg: bool,
    min: int,
    max: int,
    scale: nat,
)
    requires
        lo <= hi,
        0 <= i0,
        i0 + (hi - lo) <= cs.len(),
        taken + (hi - lo) <= scale,
        forall|k: int|
            0 <= k < hi - lo ==> #[trigger] cs[i0 + k] == digit_char_of(
                digit_at(mag, (hi - 1 - k) as nat),
            ),
        min <= 0 <= max,
        neg ==> min <= -(mag as int),
        !neg ==> mag as int <= max,
    ensures
        scan_frac(
            cs,
            i0,
            signed_val((mag / pow10(hi)) as int, neg),
            taken,
            neg,
            min,
            max,
            scale,
        ) == scan_frac(
            cs,
            i0 + (hi - lo),
            signed_val((mag / pow10(lo)) as int, neg),
            (taken + (hi - lo)) as nat,
            neg,
            min,
            max,
            scale,
        ),
    decreases hi - lo,
{
    if lo < hi {
        let p = (hi - 1) as nat;
        let q_hi = (mag / pow10(hi)) as int;
        let q_next = (mag / pow10(p)) as int;
        let d = digit_at(mag, p);
        lemma_div_pow10_step(mag, p);
        lemma_digit_at_bound(mag, p);
        lemma_digit_char_val(d);
        lemma_div_pow10_ordered(mag, p, hi);
        let c = cs[i0];
        assert(cs[i0 + 0] == digit_char_of(digit_at(mag, (hi - 1 - 0) as nat)));
        assert(c == digit_char_of(d));
        assert(is_dec_digit(c));
        let acc = signed_val(q_hi, neg);
        assert(q_next == 10 * q_hi + d);
        assert(min <= 10 * acc <= max);
        assert(10 * acc + crate::parse::signed_digit(c, neg) == signed_val(q_next, neg));
        assert(min <= signed_val(q_next, neg) <= max);
        assert(taken < scale);
        assert(scan_frac(cs, i0, acc, taken, neg, min, max, scale) == scan_frac(
            cs,
            i0 + 1,
            signed_val(q_next, neg),
            taken + 1,
            neg,
            min,
            max,
            scale,
        ));
        assert forall|k: int| 0 <= k < p - lo implies #[trigger] cs[i0 + 1 + k] == digit_char_of(
            digit_at(mag, (p - 1 - k) as nat),
        ) by {
            assert(cs[i0 + (k + 1)] == digit_char_of(digit_at(mag, (hi - 1 - (k + 1)) as nat)));
        };
        lemma_scan_digits_frac(cs, i0 + 1, mag, lo, p, taken + 1, neg, min, max, scale);
    }
}

/// Round trip: for every kind shape (range and signedness), every scale,
/// and every representable mantissa `m`, parsing the formatter's output at
/// the same scale — sign included, precision equal to the scale — yields
/// exactly `m` back.
#[verifier::rlimit(100)]
pub proof fn lemma_round_trip(m: int, signed: bool, min: int, max: int, scale: nat)
    requires
        min <= m <= max,
        min <= 0 <= max,
        m < 0 ==> signed,
    ensures
        parse_spec(fmt_chars(m, scale, true, scale), signed, min, max, scale)
            == Result::<int, ParseError>::Ok(m),
{
    let mag = int_abs(m) as nat;
    let total = num_digits(mag);
    let l: nat = if total <= scale {
        scale + 1
    } else {
        total
    };
    let neg = m < 0;
    let cs = fmt_chars(m, scale, true, scale);
    let sign_seq = sign_chars(m, true);
    let int_seq = fmt_int_chars(mag, scale);
    let frac_seq = fmt_frac_chars(mag, scale, scale);
    let idigits = digits_between(mag, scale, l);

    lemma_num_digits_bounds(mag);

    // The integer part is exactly the digits of positions l-1 down to scale.
    assert(int_seq =~= idigits) by {
        if total <= scale {
            lemma_digit_at_high_zero(mag, scale);
            assert(digit_char_of(0) == '0');
        }
    };

    // The body after any sign: digits, then for a positive scale the point
    // and the fractional digits.
    let fdigits = digits_between(mag, 0, scale);
    let body = if scale == 0 {
        idigits
    } else {
        idigits + (seq!['.'] + fdigits)
    };
    assert(int_seq + frac_seq =~= body);
    assert(cs =~= sign_seq + body);
    assert(body.len() == if scale == 0 {
        l - scale
    } else {
        l as int + 1
    });

    // The first character: a minus for negative values, else a digit.
    lemma_digit_at_bound(mag, (l - 1) as nat);
    lemma_digit_char_val(digit_at(mag, (l - 1) as nat));
    assert(body[0] == digit_char_of(digit_at(mag, (l - 1) as nat)));
    assert(is_dec_digit(body[0]));
    if neg {
        assert(cs[0] == '-');
    } else {
        assert(cs[0] == body[0]);
        assert(cs[0] != '-' && cs[0] != '+');
    }
    assert(!is_space_char(cs[0]));
    assert(!all_whitespace(cs));

    // The rest the parser scans is the body.
    let rest = if cs[0] == '-' || cs[0] == '+' {
        cs.subrange(1, cs.len() as int)
    } else {
        cs
    };
    assert(rest =~= body);
    assert(rest.len() > 0);
    assert(!(rest.len() == 1 && rest[0] == '.'));
    assert(parse_spec(cs, signed, min, max, scale) == scan_int(body, 0, 0, neg, min, max, scale));

    // The magnitude bounds under the sign.
    assert(neg ==> min <= -(mag as int));
    assert(!neg ==> mag as int <= max);

    // Above every digit the accumulator starts at zero.
    lemma_pow10_monotone(total, l);
    lemma_digit_at_high_zero(mag, l);
    assert((mag / pow10(l)) as int == 0);

    // Scan the integer digits.
    assert forall|k: int| 0 <= k < l - scale implies #[trigger] body[k] == digit_char_of(
        digit_at(mag, (l - 1 - k) as nat),
    ) by {
        assert(body[k] == idigits[k]);
    };
    lemma_scan_digits_int(body, 0, mag, scale, l, neg, min, max, scale);
    assert(scan_int(body, 0, 0, neg, min, max, scale) == scan_int(
        body,
        l - scale,
        signed_val((mag / pow10(scale)) as int, neg),
        neg,
        min,
        max,
        scale,
    ));

    if scale == 0 {
        // No point, no fraction: the scan ends at the input's end with the
        // whole magnitude accumulated, and no shift remains.
        vstd::arithmetic::div_mod::lemma_div_basics_1(mag as int);
        assert(pow10(0) == 1);
        assert((mag / pow10(0)) as int == mag as int);
        assert(signed_val(mag as int, neg) == m);
        assert(scan_int(body, l - scale, m, neg, min, max, scale) == shift_scale(
            m,
            0,
            neg,
            min,
            max,
        ));
        assert(shift_scale(m, 0, neg, min, max) == Result::<int, ParseError>::Ok(m));
    } else {
        // The point hands over to the fractional scan, which consumes
        // exactly the scale's worth of digits and ends at the input's end.
        let acc_mid = signed_val((mag / pow10(scale)) as int, neg);
        assert(body[l - scale] == '.');
        assert(scan_int(body, l - scale, acc_mid, neg, min, max, scale) == scan_frac(
            body,
            l - scale + 1,
            acc_mid,
            0,
            neg,
            min,
            max,
            scale,
        ));
        assert forall|k: int| 0 <= k < scale implies #[trigger] body[l - scale + 1 + k] == digit_char_of(
            digit_at(mag, (scale - 1 - k) as nat),
        ) by {
            assert(body[l - scale + 1 + k] == fdigits[k]);
        };
        lemma_scan_digits_frac(
            body,
            l - scale + 1,
            mag,
            0,
            scale,
            0,
            neg,
            min,
            max,
            scale,
        );
        vstd::arithmetic::div_mod::lemma_div_basics_1(mag as int);
        assert(pow10(0) == 1);
        assert((mag / pow10(0)) as int == mag as int);
        assert(signed_val(mag as int, neg) == m);
        assert(scan_frac(body, l - scale + 1, acc_mid, 0, neg, min, max, scale) == scan_frac(
            body,
            l as int + 1,
            m,
            scale,
            neg,
            min,
            max,
            scale,
        ));
        assert(scan_frac(body, l as int + 1, m, scale, neg, min, max, scale) == tail_after_frac(
            body,
            l as int + 1,
            m,
        ));
        assert(l as int + 1 >= body.len());
        assert(tail_after_frac(body, l as int + 1, m) == Result::<int, ParseError>::Ok(m));
    }
}

} // verus!
