//! The formatter: decimal text for a value, written into the fixed-capacity
//! buffer, with any precision beyond the buffer's digit capacity returned
//! as a count of zeros for the caller to append.
//!
//! Digits are produced by positional division — digit `i` of the magnitude
//! is `(mag / 10^i) % 10` — rather than by building and reversing a string,
//! so no heap allocation is ever needed and positions beyond the number's
//! digit count are uniformly zero.

use vstd::prelude::*;
use vstd::string::StringExecFns;
use crate::buffer::{buf_chars, buf_new, buf_push, MAX_STR_BUFFER_SIZE};
use crate::digits::{
    ascii_chars, digit_at, digit_char_of, digits_between, int_abs, num_digits, pow10, zero_chars,
    lemma_digit_at_bound, lemma_digit_at_high_zero, lemma_digits_between_dec,
    lemma_num_digits_bounds, lemma_pow10_monotone,
};
use crate::fixed_decimal::FixedDecimal;
use crate::num_kind::{digit_count, upow10, IntKind, UnsignedKind};

verus! {

/// The fractional-digit count actually written to the buffer: the requested
/// precision when one is given (capped at the largest possible scale), the
/// scale otherwise.
pub open spec fn effective_prec(precision: Option<usize>, scale: nat) -> nat {
    match precision {
        Option::None => scale,
        Option::Some(p) => if p > 255 {
            255
        } else {
            p as nat
        },
    }
}

/// The zeros still owed when the requested precision exceeds the largest
/// possible scale.
pub open spec fn rem_zeros(precision: Option<usize>) -> Option<usize> {
    match precision {
        Option::None => Option::None,
        Option::Some(p) => if p > 255 {
            Option::Some((p - 255) as usize)
        } else {
            Option::None
        },
    }
}

/// The sign prefix: a minus for negative values when a sign was asked for.
pub open spec fn sign_chars(m: int, append_sign: bool) -> Seq<char> {
    if append_sign && m < 0 {
        seq!['-']
    } else {
        Seq::<char>::empty()
    }
}

/// The integer part: the magnitude's digits above the scale, or the single
/// digit zero when the magnitude is entirely fractional.
pub open spec fn fmt_int_chars(mag: nat, scale: nat) -> Seq<char> {
    if num_digits(mag) <= scale {
        seq!['0']
    } else {
        digits_between(mag, scale, num_digits(mag))
    }
}

/// The fractional part: nothing for precision zero, else a point, then the
/// magnitude's digits below the scale, then literal zeros for any requested
/// precision beyond the scale.
pub open spec fn fmt_frac_chars(mag: nat, scale: nat, prec: nat) -> Seq<char> {
    if prec == 0 {
        Seq::<char>::empty()
    } else {
        let head = if prec <= scale {
            prec
        } else {
            scale
        };
        seq!['.'] + digits_between(mag, (scale - head) as nat, scale) + zero_chars(
            (prec - head) as nat,
        )
    }
}

/// The full text of a value: sign, integer part, fractional part.
pub open spec fn fmt_chars(m: int, scale: nat, append_sign: bool, prec: nat) -> Seq<char> {
    sign_chars(m, append_sign) + fmt_int_chars(int_abs(m) as nat, scale) + fmt_frac_chars(
        int_abs(m) as nat,
        scale,
        prec,
    )
}

/// Appends the digit character at position `i` of `mag`; positions at or
/// beyond the digit count hold zero.
fn push_digit<U: UnsignedKind>(
    rep: &mut arrayvec::ArrayString<MAX_STR_BUFFER_SIZE>,
    mag: U,
    total_len: u8,
    i: u8,
)
    requires
        total_len as nat == num_digits(mag.uval() as nat),
        buf_chars(*old(rep)).len() < MAX_STR_BUFFER_SIZE,
        ascii_chars(buf_chars(*old(rep))),
    ensures
        buf_chars(*final(rep)) == buf_chars(*old(rep)).push(
            digit_char_of(digit_at(mag.uval() as nat, i as nat)),
        ),
{
    let ghost magv = mag.uval() as nat;
    let d: u8 = if i >= total_len {
        proof {
            lemma_digit_at_high_zero(magv, i as nat);
        }
        0
    } else {
        proof {
            U::lemma_umax();
            mag.lemma_uval_bounds();
            lemma_num_digits_bounds(magv);
            crate::digits::lemma_pow10_positive(i as nat);
            if magv >= 1 {
                lemma_pow10_monotone(i as nat, (total_len - 1) as nat);
            }
        }
        let p = upow10::<U>(i);
        let ten = U::uten();
        proof {
            vstd::arithmetic::div_mod::lemma_mod_division_less_than_divisor(
                (magv / pow10(i as nat)) as int,
                10,
            );
        }
        mag.udiv(p).urem(ten).as_digit()
    };
    proof {
        lemma_digit_at_bound(magv, i as nat);
    }
    let c: char = (48 + d) as char;
    buf_push(rep, c);
}

/// Appends the integer part: digits from the top position down to the
/// scale, or a single zero when the magnitude is entirely fractional.
fn write_int_part<U: UnsignedKind>(
    rep: &mut arrayvec::ArrayString<MAX_STR_BUFFER_SIZE>,
    mag: U,
    total_len: u8,
    scale: u8,
)
    requires
        total_len as nat == num_digits(mag.uval() as nat),
        total_len <= 39,
        buf_chars(*old(rep)).len() <= 1,
        ascii_chars(buf_chars(*old(rep))),
    ensures
        buf_chars(*final(rep)) == buf_chars(*old(rep)) + fmt_int_chars(
            mag.uval() as nat,
            scale as nat,
        ),
        ascii_chars(buf_chars(*final(rep))),
{
    let ghost magv = mag.uval() as nat;
    let ghost base = buf_chars(*old(rep));
    if total_len <= scale {
        buf_push(rep, '0');
        assert(buf_chars(*rep) =~= base + fmt_int_chars(magv, scale as nat));
    } else {
        let mut i: u8 = total_len;
        while i > scale
            invariant
                scale <= i <= total_len,
                total_len as nat == num_digits(magv),
                total_len > scale,
                total_len <= 39,
                magv == mag.uval() as nat,
                base.len() <= 1,
                ascii_chars(base),
                buf_chars(*rep) == base + digits_between(magv, i as nat, total_len as nat),
            decreases i,
        {
            i = i - 1;
            proof {
                lemma_digits_between_dec(magv, i as nat + 1, total_len as nat);
                assert(ascii_chars(buf_chars(*rep)));
                assert(buf_chars(*rep).len() < MAX_STR_BUFFER_SIZE);
            }
            push_digit(rep, mag, total_len, i);
            proof {
                assert(buf_chars(*rep) =~= base + digits_between(
                    magv,
                    i as nat,
                    total_len as nat,
                ));
            }
        }
        assert(buf_chars(*rep) =~= base + fmt_int_chars(magv, scale as nat));
        proof {
            lemma_digits_between_dec(magv, scale as nat, total_len as nat);
        }
    }
}

/// Appends the fractional part for a nonzero precision: the point, the
/// digits below the scale, and the zeros the precision asks for beyond the
/// scale.
fn write_frac_part<U: UnsignedKind>(
    rep: &mut arrayvec::ArrayString<MAX_STR_BUFFER_SIZE>,
    mag: U,
    total_len: u8,
    scale: u8,
    prec: usize,
)
    requires
        total_len as nat == num_digits(mag.uval() as nat),
        1 <= prec <= 255,
        buf_chars(*old(rep)).len() <= 40,
        ascii_chars(buf_chars(*old(rep))),
    ensures
        buf_chars(*final(rep)) == buf_chars(*old(rep)) + fmt_frac_chars(
            mag.uval() as nat,
            scale as nat,
            prec as nat,
        ),
        ascii_chars(buf_chars(*final(rep))),
{
    let ghost magv = mag.uval() as nat;
    buf_push(rep, '.');
    let head: usize = if prec <= scale as usize {
        prec
    } else {
        scale as usize
    };
    let ghost base = buf_chars(*old(rep)) + seq!['.'];
    assert(buf_chars(*rep) =~= base);
    let mut k: usize = 0;
    while k < head
        invariant
            0 <= k <= head,
            head <= scale as usize,
            head <= 255,
            total_len as nat == num_digits(magv),
            magv == mag.uval() as nat,
            base.len() <= 41,
            ascii_chars(base),
            buf_chars(*rep) == base + digits_between(
                magv,
                (scale as nat - k as nat) as nat,
                scale as nat,
            ),
        decreases head - k,
    {
        proof {
            lemma_digits_between_dec(magv, (scale as nat - k as nat) as nat, scale as nat);
            assert(ascii_chars(buf_chars(*rep)));
            assert(buf_chars(*rep).len() <= base.len() + k < MAX_STR_BUFFER_SIZE);
        }
        push_digit(rep, mag, total_len, scale - 1 - (k as u8));
        k = k + 1;
        proof {
            assert(buf_chars(*rep) =~= base + digits_between(
                magv,
                (scale as nat - k as nat) as nat,
                scale as nat,
            ));
        }
    }
    let ghost head_seq = digits_between(magv, (scale as nat - head as nat) as nat, scale as nat);
    proof {
        lemma_digits_between_dec(magv, (scale as nat - head as nat) as nat, scale as nat);
    }
    let zcount: usize = prec - head;
    let mut z: usize = 0;
    while z < zcount
        invariant
            0 <= z <= zcount,
            base.len() <= 41,
            head_seq.len() == head,
            head + zcount <= 255,
            ascii_chars(base),
            ascii_chars(head_seq),
            buf_chars(*rep) == base + head_seq + zero_chars(z as nat),
        decreases zcount - z,
    {
        proof {
            assert(ascii_chars(buf_chars(*rep)));
            assert(buf_chars(*rep).len() <= base.len() + head_seq.len() + z < MAX_STR_BUFFER_SIZE);
        }
        buf_push(rep, '0');
        z = z + 1;
        proof {
            assert(buf_chars(*rep) =~= base + head_seq + zero_chars(z as nat));
        }
    }
    proof {
        assert(buf_chars(*rep) =~= buf_chars(*old(rep)) + fmt_frac_chars(
            magv,
            scale as nat,
            prec as nat,
        ));
        assert(ascii_chars(buf_chars(*rep)));
    }
}

/// Formats `value` into a fresh buffer. The buffer receives exactly the
/// text `fmt_chars` describes, with the precision capped at the largest
/// possible scale; the second component reports the zeros beyond the cap,
/// which the caller appends without growing the buffer.
pub fn to_str_internal<T: IntKind, const SCALE: u8>(
    value: &FixedDecimal<T, SCALE>,
    append_sign: bool,
    precision: Option<usize>,
) -> (res: (arrayvec::ArrayString<MAX_STR_BUFFER_SIZE>, Option<usize>))
    ensures
        buf_chars(res.0) == fmt_chars(
            value.mant(),
            SCALE as nat,
            append_sign,
            effective_prec(precision, SCALE as nat),
        ),
        ascii_chars(buf_chars(res.0)),
        res.1 == rem_zeros(precision),
{
    let m = value.mantissa();
    let ghost mv = value.mant();
    let mag = m.uabs();
    let ghost magv = mag.uval() as nat;
    proof {
        T::Mag::lemma_umax();
        mag.lemma_uval_bounds();
        lemma_num_digits_bounds(magv);
        crate::digits::lemma_below_pow10_digits(magv, 39);
    }
    let total_len: u8 = if m.is_zero_val() {
        1
    } else {
        digit_count(mag)
    };
    let (prec, prec_rem): (usize, Option<usize>) = match precision {
        Some(p) => {
            if p > 255 {
                (255, Some(p - 255))
            } else {
                (p, None)
            }
        },
        None => ((SCALE as usize), None),
    };
    let ghost precv = prec as nat;
    assert(precv == effective_prec(precision, SCALE as nat));

    let mut rep = buf_new();
    let ghost sign_seq = sign_chars(mv, append_sign);
    if append_sign && m.is_negative_val() {
        buf_push(&mut rep, '-');
    }
    assert(buf_chars(rep) =~= sign_seq);

    write_int_part(&mut rep, mag, total_len, SCALE);
    let ghost int_seq = fmt_int_chars(magv, SCALE as nat);
    proof {
        assert(int_seq.len() <= 39);
        assert(buf_chars(rep).len() <= 40);
    }

    if prec != 0 {
        write_frac_part(&mut rep, mag, total_len, SCALE, prec);
        proof {
            assert(buf_chars(rep) =~= sign_seq + int_seq + fmt_frac_chars(
                magv,
                SCALE as nat,
                precv,
            ));
        }
    } else {
        proof {
            assert(fmt_frac_chars(magv, SCALE as nat, precv) =~= Seq::<char>::empty());
            assert(buf_chars(rep) =~= sign_seq + int_seq + fmt_frac_chars(
                magv,
                SCALE as nat,
                precv,
            ));
        }
    }
    proof {
        assert(magv == int_abs(mv));
        assert(buf_chars(rep) =~= fmt_chars(mv, SCALE as nat, append_sign, precv));
    }
    (rep, prec_rem)
}

/// Precision beyond the scale only appends zeros: for any precision at
/// least the scale (and at least one), asking for more fractional digits
/// appends exactly the difference in zero characters after the same text.
pub proof fn lemma_precision_extends(m: int, scale: nat, append_sign: bool, p1: nat, p2: nat)
    requires
        scale <= p2 <= p1,
        1 <= p2,
    ensures
        fmt_chars(m, scale, append_sign, p1) == fmt_chars(m, scale, append_sign, p2)
            + zero_chars((p1 - p2) as nat),
{
    let mag = int_abs(m) as nat;
    assert(fmt_frac_chars(mag, scale, p1) =~= fmt_frac_chars(mag, scale, p2) + zero_chars(
        (p1 - p2) as nat,
    ));
    assert(fmt_chars(m, scale, append_sign, p1) =~= fmt_chars(m, scale, append_sign, p2)
        + zero_chars((p1 - p2) as nat));
}

impl<T: IntKind, const SCALE: u8> FixedDecimal<T, SCALE> {
    /// The decimal text of the value at its natural scale, sign included.
    pub fn to_text(&self) -> (s: String)
        ensures
            s@ == fmt_chars(self.mant(), SCALE as nat, true, SCALE as nat),
    {
        let (rep, _) = to_str_internal(self, true, None);
        let sl = crate::buffer::buf_as_str(&rep);
        sl.to_owned()
    }

    /// The decimal text with exactly `precision` fractional digits, sign
    /// included; zeros beyond the buffer's digit capacity are appended
    /// here.
    pub fn to_text_precision(&self, precision: usize) -> (s: String)
        ensures
            s@ == fmt_chars(self.mant(), SCALE as nat, true, precision as nat),
    {
        let (rep, rem) = to_str_internal(self, true, Some(precision));
        let sl = crate::buffer::buf_as_str(&rep);
        let mut s = sl.to_owned();
        match rem {
            None => s,
            Some(n) => {
                let ghost capped = fmt_chars(self.mant(), SCALE as nat, true, 255);
                let mut z: usize = 0;
                while z < n
                    invariant
                        z <= n,
                        s@ == capped + zero_chars(z as nat),
                    decreases n - z,
                {
                    s.append("0");
                    z = z + 1;
                    proof {
                        reveal_strlit("0");
                        assert(s@ =~= capped + zero_chars(z as nat));
                    }
                }
                proof {
                    lemma_precision_extends(
                        self.mant(),
                        SCALE as nat,
                        true,
                        precision as nat,
                        255,
                    );
                }
                s
            },
        }
    }
}

} // verus!
