//! The decimal value type: a mantissa of one of the ten integer kinds,
//! tagged with a compile-time scale. The value denoted is
//! `mantissa / 10^SCALE`; no rounding ever happens, and arithmetic between
//! values of the same kind and scale is exact integer arithmetic on the
//! mantissa.

use vstd::prelude::*;
use crate::num_kind::IntKind;
use crate::digits::{pow10, tdiv, trem, lemma_pow10_monotone};

verus! {

/// A fixed-point decimal number with `SCALE` fractional digits.
#[derive(Clone, Copy, Debug, PartialEq, Eq, PartialOrd, Ord)]
pub struct FixedDecimal<T, const SCALE: u8>(pub(crate) T);

impl<T: IntKind, const SCALE: u8> FixedDecimal<T, SCALE> {
    /// The mantissa as a mathematical integer.
    pub closed spec fn mant(self) -> int {
        self.0.ival()
    }

    /// Wraps a mantissa; the resulting value denotes `num / 10^SCALE`.
    pub fn new(num: T) -> (r: Self)
        ensures
            r.mant() == num.ival(),
    {
        FixedDecimal(num)
    }

    /// The stored mantissa.
    pub fn mantissa(&self) -> (r: T)
        ensures
            r.ival() == self.mant(),
    {
        self.0
    }

    /// Reinterprets the value at another scale: the mantissa is kept
    /// bit-for-bit and only the denoted value changes ("move the decimal
    /// point").
    pub fn with_scale<const TARGET_SCALE: u8>(self) -> (r: FixedDecimal<T, TARGET_SCALE>)
        ensures
            r.mant() == self.mant(),
    {
        FixedDecimal(self.0)
    }

    /// The largest representable value: mantissa at the kind's maximum.
    pub fn max_value() -> (r: Self)
        ensures
            r.mant() == T::imax(),
    {
        FixedDecimal(T::max_value())
    }

    /// The smallest representable value: mantissa at the kind's minimum.
    pub fn min_value() -> (r: Self)
        ensures
            r.mant() == T::imin(),
    {
        FixedDecimal(T::min_value())
    }

    /// The value zero (mantissa zero at every scale).
    pub fn zero() -> (r: Self)
        ensures
            r.mant() == 0,
    {
        FixedDecimal(T::zero())
    }

    pub fn is_zero(&self) -> (b: bool)
        ensures
            b == (self.mant() == 0),
    {
        self.0.is_zero_val()
    }

    /// The value one: mantissa ten to the `SCALE`, which must fit the kind.
    pub fn one() -> (r: Self)
        requires
            pow10(SCALE as nat) <= T::imax(),
        ensures
            r.mant() == pow10(SCALE as nat),
    {
        proof {
            T::lemma_kind();
        }
        let mut acc = T::one();
        let mut i: u8 = 0;
        while i < SCALE
            invariant
                i <= SCALE,
                acc.ival() == pow10(i as nat),
                pow10(SCALE as nat) <= T::imax(),
                T::imin() <= 0,
            decreases SCALE - i,
        {
            proof {
                lemma_pow10_monotone(i as nat + 1, SCALE as nat);
                assert(pow10(i as nat + 1) == 10 * pow10(i as nat));
            }
            let next = acc.checked_mul_ten();
            assert(next is Some);
            acc = next.unwrap();
            i = i + 1;
        }
        FixedDecimal(acc)
    }

    /// Whether the value is at least zero (always true for unsigned kinds).
    pub fn is_positive(&self) -> (b: bool)
        ensures
            b == (self.mant() >= 0),
    {
        self.0.is_positive_val()
    }

    /// Whether the value is below zero (never true for unsigned kinds).
    pub fn is_negative(&self) -> (b: bool)
        ensures
            b == (self.mant() < 0),
    {
        self.0.is_negative_val()
    }

    /// Mantissa equality; same-scale values are equal exactly when their
    /// mantissas are.
    pub fn eq_value(&self, other: &Self) -> (b: bool)
        ensures
            b == (self.mant() == other.mant()),
            b == (*self == *other),
    {
        proof {
            if self.0.ival() == other.0.ival() {
                self.0.lemma_ival_injective(other.0);
            }
        }
        self.0.eq_val(other.0)
    }

    /// Mantissa order; same-scale values are ordered as their mantissas.
    pub fn lt(&self, other: &Self) -> (b: bool)
        ensures
            b == (self.mant() < other.mant()),
    {
        self.0.lt_val(other.0)
    }

    /// Exact addition on the mantissa. For representable operands whose sum
    /// is again representable, the result is the decimal with the mantissa
    /// sum — addition is exact, never rounded.
    pub fn add(self, rhs: Self) -> (r: Self)
        requires
            T::imin() <= self.mant() + rhs.mant() <= T::imax(),
        ensures
            r.mant() == self.mant() + rhs.mant(),
    {
        FixedDecimal(self.0.add_val(rhs.0))
    }

    /// Checked exact addition: `Some` exactly when the mantissa sum is
    /// representable, and then with the exact sum; `None` instead of a
    /// wrapped value on overflow.
    pub fn checked_add(&self, rhs: &Self) -> (r: Option<Self>)
        ensures
            (r is Some) == (T::imin() <= self.mant() + rhs.mant() <= T::imax()),
            r matches Some(v) ==> v.mant() == self.mant() + rhs.mant(),
    {
        match self.0.checked_add_val(rhs.0) {
            Some(m) => Some(FixedDecimal(m)),
            None => None,
        }
    }

    /// Exact subtraction on the mantissa.
    pub fn sub(self, rhs: Self) -> (r: Self)
        requires
            T::imin() <= self.mant() - rhs.mant() <= T::imax(),
        ensures
            r.mant() == self.mant() - rhs.mant(),
    {
        FixedDecimal(self.0.sub_val(rhs.0))
    }

    /// Negation of the mantissa.
    pub fn neg(self) -> (r: Self)
        requires
            T::imin() <= -self.mant() <= T::imax(),
        ensures
            r.mant() == -self.mant(),
    {
        FixedDecimal(self.0.neg_val())
    }

    /// Mantissa multiplication (the raw native product, as the underlying
    /// `*` would give).
    pub fn mul(self, rhs: Self) -> (r: Self)
        requires
            T::imin() <= self.mant() * rhs.mant() <= T::imax(),
        ensures
            r.mant() == self.mant() * rhs.mant(),
    {
        FixedDecimal(self.0.mul_val(rhs.0))
    }

    /// Mantissa division (truncating toward zero, as the native `/` does).
    pub fn div(self, rhs: Self) -> (r: Self)
        requires
            rhs.mant() != 0,
            T::imin() <= tdiv(self.mant(), rhs.mant()) <= T::imax(),
        ensures
            r.mant() == tdiv(self.mant(), rhs.mant()),
    {
        FixedDecimal(self.0.div_val(rhs.0))
    }

    /// Mantissa remainder (sign following the dividend, as the native `%`
    /// does).
    pub fn rem(self, rhs: Self) -> (r: Self)
        requires
            rhs.mant() != 0,
            !(self.mant() == T::imin() && rhs.mant() == -1),
        ensures
            r.mant() == trem(self.mant(), rhs.mant()),
    {
        FixedDecimal(self.0.rem_val(rhs.0))
    }
}

} // verus!
