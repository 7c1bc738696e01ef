//! Capability traits over the ten primitive mantissa kinds.
//!
//! One generic formatter and parser serve every fixed-width integer kind;
//! these traits give them the vocabulary they need: bounds, the constant
//! ten, the unsigned magnitude of a possibly signed value, sign tests, and
//! checked decimal accumulation steps. Every operation is total over the
//! kind's whole range — in particular the magnitude of the most negative
//! signed value is returned correctly rather than overflowing.

use vstd::prelude::*;
use crate::digits::{pow10, num_digits, int_abs, tdiv, trem};
use crate::digits::{lemma_pow10_monotone, lemma_below_pow10_digits};

verus! {

/// An unsigned kind: the magnitude side of a mantissa kind.
pub trait UnsignedKind: Sized + Copy {
    /// The value this unsigned word denotes.
    spec fn uval(self) -> int;

    /// The largest value of the kind.
    spec fn umax() -> int;

    /// The kind's range covers at least a byte and at most 39 decimal digits.
    proof fn lemma_umax()
        ensures
            Self::umax() >= 255,
            Self::umax() < pow10(39),
    ;

    proof fn lemma_uval_bounds(self)
        ensures
            0 <= self.uval() <= Self::umax(),
    ;

    fn uone() -> (r: Self)
        ensures
            r.uval() == 1,
    ;

    fn uten() -> (r: Self)
        ensures
            r.uval() == 10,
    ;

    fn udiv(self, d: Self) -> (r: Self)
        requires
            d.uval() > 0,
        ensures
            r.uval() == self.uval() / d.uval(),
    ;

    fn urem(self, d: Self) -> (r: Self)
        requires
            d.uval() > 0,
        ensures
            r.uval() == self.uval() % d.uval(),
    ;

    fn umul(self, o: Self) -> (r: Self)
        requires
            self.uval() * o.uval() <= Self::umax(),
        ensures
            r.uval() == self.uval() * o.uval(),
    ;

    fn ult(self, o: Self) -> (b: bool)
        ensures
            b == (self.uval() < o.uval()),
    ;

    /// A value below ten, as a byte.
    fn as_digit(self) -> (d: u8)
        requires
            self.uval() < 10,
        ensures
            d as int == self.uval(),
            d < 10,
    ;
}

/// A mantissa kind: one of the ten fixed-width integer kinds, signed or
/// unsigned.
pub trait IntKind: Sized + Copy {
    /// The same-width unsigned kind that carries magnitudes (the kind itself
    /// when it is unsigned).
    type Mag: UnsignedKind;

    /// The value this word denotes.
    spec fn ival(self) -> int;

    spec fn imin() -> int;

    spec fn imax() -> int;

    /// Whether the kind is signed.
    spec fn signed_kind() -> bool;

    /// The shape of the kind's range, and how the magnitude kind's range
    /// relates to it.
    proof fn lemma_kind()
        ensures
            Self::signed_kind() ==> Self::imin() == -Self::imax() - 1 && Self::imax() >= 127,
            !Self::signed_kind() ==> Self::imin() == 0 && Self::imax() >= 255,
            Self::Mag::umax() == if Self::signed_kind() {
                2 * Self::imax() + 1
            } else {
                Self::imax()
            },
    ;

    proof fn lemma_ival_bounds(self)
        ensures
            Self::imin() <= self.ival() <= Self::imax(),
    ;

    /// Two words denoting the same value are the same word.
    proof fn lemma_ival_injective(self, other: Self)
        requires
            self.ival() == other.ival(),
        ensures
            self == other,
    ;

    fn signed() -> (b: bool)
        ensures
            b == Self::signed_kind(),
    ;

    fn zero() -> (r: Self)
        ensures
            r.ival() == 0,
    ;

    fn one() -> (r: Self)
        ensures
            r.ival() == 1,
    ;

    fn min_value() -> (r: Self)
        ensures
            r.ival() == Self::imin(),
    ;

    fn max_value() -> (r: Self)
        ensures
            r.ival() == Self::imax(),
    ;

    fn is_zero_val(self) -> (b: bool)
        ensures
            b == (self.ival() == 0),
    ;

    fn is_positive_val(self) -> (b: bool)
        ensures
            b == (self.ival() >= 0),
    ;

    fn is_negative_val(self) -> (b: bool)
        ensures
            b == (self.ival() < 0),
    ;

    fn eq_val(self, o: Self) -> (b: bool)
        ensures
            b == (self.ival() == o.ival()),
    ;

    fn lt_val(self, o: Self) -> (b: bool)
        ensures
            b == (self.ival() < o.ival()),
    ;

    /// The unsigned magnitude, correct also at the kind's minimum.
    fn uabs(self) -> (r: Self::Mag)
        ensures
            r.uval() == int_abs(self.ival()),
    ;

    fn add_val(self, o: Self) -> (r: Self)
        requires
            Self::imin() <= self.ival() + o.ival() <= Self::imax(),
        ensures
            r.ival() == self.ival() + o.ival(),
    ;

    fn sub_val(self, o: Self) -> (r: Self)
        requires
            Self::imin() <= self.ival() - o.ival() <= Self::imax(),
        ensures
            r.ival() == self.ival() - o.ival(),
    ;

    fn mul_val(self, o: Self) -> (r: Self)
        requires
            Self::imin() <= self.ival() * o.ival() <= Self::imax(),
        ensures
            r.ival() == self.ival() * o.ival(),
    ;

    fn div_val(self, o: Self) -> (r: Self)
        requires
            o.ival() != 0,
            Self::imin() <= tdiv(self.ival(), o.ival()) <= Self::imax(),
        ensures
            r.ival() == tdiv(self.ival(), o.ival()),
    ;

    fn rem_val(self, o: Self) -> (r: Self)
        requires
            o.ival() != 0,
            !(self.ival() == Self::imin() && o.ival() == -1),
        ensures
            r.ival() == trem(self.ival(), o.ival()),
    ;

    fn neg_val(self) -> (r: Self)
        requires
            Self::imin() <= -self.ival() <= Self::imax(),
        ensures
            r.ival() == -self.ival(),
    ;

    fn checked_add_val(self, o: Self) -> (r: Option<Self>)
        ensures
            (r is Some) == (Self::imin() <= self.ival() + o.ival() <= Self::imax()),
            r matches Some(v) ==> v.ival() == self.ival() + o.ival(),
    ;

    /// One decimal accumulation shift: multiply by ten, reporting overflow.
    fn checked_mul_ten(self) -> (r: Option<Self>)
        ensures
            (r is Some) == (Self::imin() <= 10 * self.ival() <= Self::imax()),
            r matches Some(v) ==> v.ival() == 10 * self.ival(),
    ;

    /// One decimal accumulation step: add a digit with the sign under which
    /// it is being accumulated, reporting overflow.
    fn checked_add_digit(self, d: u8, negative: bool) -> (r: Option<Self>)
        requires
            d < 10,
            negative ==> Self::signed_kind(),
        ensures
            (r is Some) == (Self::imin() <= self.ival() + digit_signed(d, negative)
                <= Self::imax()),
            r matches Some(v) ==> v.ival() == self.ival() + digit_signed(d, negative),
    ;
}

/// The signed contribution of one accumulated digit.
pub open spec fn digit_signed(d: u8, negative: bool) -> int {
    if negative {
        -(d as int)
    } else {
        d as int
    }
}

/// The number of decimal digits of a nonzero unsigned value.
pub fn digit_count<U: UnsignedKind>(n: U) -> (c: u8)
    requires
        n.uval() >= 1,
    ensures
        c as nat == num_digits(n.uval() as nat),
        1 <= c <= 39,
{
    proof {
        U::lemma_umax();
        n.lemma_uval_bounds();
        lemma_below_pow10_digits(n.uval() as nat, 39);
    }
    let ten = U::uten();
    let mut c: u8 = 1;
    let mut m = n;
    while !m.ult(ten)
        invariant
            ten.uval() == 10,
            1 <= c <= 39,
            m.uval() >= 1,
            c as nat + num_digits(m.uval() as nat) == 1 + num_digits(n.uval() as nat),
            num_digits(n.uval() as nat) <= 39,
        decreases m.uval(),
    {
        proof {
            assert(num_digits(m.uval() as nat) == 1 + num_digits((m.uval() as nat) / 10));
            vstd::arithmetic::div_mod::lemma_div_non_zero(m.uval(), 10);
            vstd::arithmetic::div_mod::lemma_div_is_strictly_smaller(m.uval(), 10);
        }
        m = m.udiv(ten);
        c = c + 1;
    }
    proof {
        assert(num_digits(m.uval() as nat) == 1);
    }
    c
}

/// Ten to the power `e`, in an unsigned kind that can hold it.
pub fn upow10<U: UnsignedKind>(e: u8) -> (r: U)
    requires
        pow10(e as nat) <= U::umax(),
    ensures
        r.uval() == pow10(e as nat),
{
    let ten = U::uten();
    let mut r = U::uone();
    let mut i: u8 = 0;
    while i < e
        invariant
            ten.uval() == 10,
            i <= e,
            r.uval() == pow10(i as nat),
            pow10(e as nat) <= U::umax(),
        decreases e - i,
    {
        proof {
            lemma_pow10_monotone(i as nat + 1, e as nat);
            assert(pow10(i as nat + 1) == 10 * pow10(i as nat));
        }
        r = r.umul(ten);
        i = i + 1;
    }
    r
}

} // verus!
