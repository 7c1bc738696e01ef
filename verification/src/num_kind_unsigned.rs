//! The capability-trait implementations for the five unsigned mantissa
//! kinds. Each unsigned kind is its own magnitude kind.

use vstd::prelude::*;
use crate::num_kind::{IntKind, UnsignedKind};
use crate::digits::lemma_pow10_39;

verus! {

impl UnsignedKind for u128 {
    open spec fn uval(self) -> int {
        self as int
    }

    open spec fn umax() -> int {
        u128::MAX as int
    }

    proof fn lemma_umax() {
        lemma_pow10_39();
    }

    proof fn lemma_uval_bounds(self) {
    }

    fn uone() -> (r: Self) {
        1
    }

    fn uten() -> (r: Self) {
        10
    }

    fn udiv(self, d: Self) -> (r: Self) {
        self / d
    }

    fn urem(self, d: Self) -> (r: Self) {
        self % d
    }

    fn umul(self, o: Self) -> (r: Self) {
        self * o
    }

    fn ult(self, o: Self) -> (b: bool) {
        self < o
    }

    fn as_digit(self) -> (d: u8) {
        self as u8
    }
}

impl IntKind for u128 {
    type Mag = u128;

    open spec fn ival(self) -> int {
        self as int
    }

    open spec fn imin() -> int {
        0
    }

    open spec fn imax() -> int {
        u128::MAX as int
    }

    open spec fn signed_kind() -> bool {
        false
    }

    proof fn lemma_kind() {
    }

    proof fn lemma_ival_bounds(self) {
    }

    proof fn lemma_ival_injective(self, other: Self) {
    }

    fn signed() -> (b: bool) {
        false
    }

    fn zero() -> (r: Self) {
        0
    }

    fn one() -> (r: Self) {
        1
    }

    fn min_value() -> (r: Self) {
        u128::MIN
    }

    fn max_value() -> (r: Self) {
        u128::MAX
    }

    fn is_zero_val(self) -> (b: bool) {
        self == 0
    }

    fn is_positive_val(self) -> (b: bool) {
        true
    }

    fn is_negative_val(self) -> (b: bool) {
        false
    }

    fn eq_val(self, o: Self) -> (b: bool) {
        self == o
    }

    fn lt_val(self, o: Self) -> (b: bool) {
        self < o
    }

    fn uabs(self) -> (r: Self) {
        self
    }

    fn add_val(self, o: Self) -> (r: Self) {
        self + o
    }

    fn sub_val(self, o: Self) -> (r: Self) {
        self - o
    }

    fn mul_val(self, o: Self) -> (r: Self) {
        self * o
    }

    fn div_val(self, o: Self) -> (r: Self) {
        self / o
    }

    fn rem_val(self, o: Self) -> (r: Self) {
        proof {
            vstd::arithmetic::div_mod::lemma_fundamental_div_mod(self as int, o as int);
            assert((o as int) * ((self as int) / (o as int)) == ((self as int) / (o as int)) * (
            o as int)) by (nonlinear_arith);
        }
        self % o
    }

    fn neg_val(self) -> (r: Self) {
        self
    }

    fn checked_add_val(self, o: Self) -> (r: Option<Self>) {
        self.checked_add(o)
    }

    fn checked_mul_ten(self) -> (r: Option<Self>) {
        self.checked_mul(10)
    }

    fn checked_add_digit(self, d: u8, negative: bool) -> (r: Option<Self>) {
        self.checked_add(d as u128)
    }
}

impl UnsignedKind for u64 {
    open spec fn uval(self) -> int {
        self as int
    }

    open spec fn umax() -> int {
        u64::MAX as int
    }

    proof fn lemma_umax() {
        lemma_pow10_39();
    }

    proof fn lemma_uval_bounds(self) {
    }

    fn uone() -> (r: Self) {
        1
    }

    fn uten() -> (r: Self) {
        10
    }

    fn udiv(self, d: Self) -> (r: Self) {
        self / d
    }

    fn urem(self, d: Self) -> (r: Self) {
        self % d
    }

    fn umul(self, o: Self) -> (r: Self) {
        self * o
    }

    fn ult(self, o: Self) -> (b: bool) {
        self < o
    }

    fn as_digit(self) -> (d: u8) {
        self as u8
    }
}

impl IntKind for u64 {
    type Mag = u64;

    open spec fn ival(self) -> int {
        self as int
    }

    open spec fn imin() -> int {
        0
    }

    open spec fn imax() -> int {
        u64::MAX as int
    }

    open spec fn signed_kind() -> bool {
        false
    }

    proof fn lemma_kind() {
    }

    proof fn lemma_ival_bounds(self) {
    }

    proof fn lemma_ival_injective(self, other: Self) {
    }

    fn signed() -> (b: bool) {
        false
    }

    fn zero() -> (r: Self) {
        0
    }

    fn one() -> (r: Self) {
        1
    }

    fn min_value() -> (r: Self) {
        u64::MIN
    }

    fn max_value() -> (r: Self) {
        u64::MAX
    }

    fn is_zero_val(self) -> (b: bool) {
        self == 0
    }

    fn is_positive_val(self) -> (b: bool) {
        true
    }

    fn is_negative_val(self) -> (b: bool) {
        false
    }

    fn eq_val(self, o: Self) -> (b: bool) {
        self == o
    }

    fn lt_val(self, o: Self) -> (b: bool) {
        self < o
    }

    fn uabs(self) -> (r: Self) {
        self
    }

    fn add_val(self, o: Self) -> (r: Self) {
        self + o
    }

    fn sub_val(self, o: Self) -> (r: Self) {
        self - o
    }

    fn mul_val(self, o: Self) -> (r: Self) {
        self * o
    }

    fn div_val(self, o: Self) -> (r: Self) {
        self / o
    }

    fn rem_val(self, o: Self) -> (r: Self) {
        proof {
            vstd::arithmetic::div_mod::lemma_fundamental_div_mod(self as int, o as int);
            assert((o as int) * ((self as int) / (o as int)) == ((self as int) / (o as int)) * (
            o as int)) by (nonlinear_arith);
        }
        self % o
    }

    fn neg_val(self) -> (r: Self) {
        self
    }

    fn checked_add_val(self, o: Self) -> (r: Option<Self>) {
        self.checked_add(o)
    }

    fn checked_mul_ten(self) -> (r: Option<Self>) {
        self.checked_mul(10)
    }

    fn checked_add_digit(self, d: u8, negative: bool) -> (r: Option<Self>) {
        self.checked_add(d as u64)
    }
}

impl UnsignedKind for u32 {
    open spec fn uval(self) -> int {
        self as int
    }

    open spec fn umax() -> int {
        u32::MAX as int
    }

    proof fn lemma_umax() {
        lemma_pow10_39();
    }

    proof fn lemma_uval_bounds(self) {
    }

    fn uone() -> (r: Self) {
        1
    }

    fn uten() -> (r: Self) {
        10
    }

    fn udiv(self, d: Self) -> (r: Self) {
        self / d
    }

    fn urem(self, d: Self) -> (r: Self) {
        self % d
    }

    fn umul(self, o: Self) -> (r: Self) {
        self * o
    }

    fn ult(self, o: Self) -> (b: bool) {
        self < o
    }

    fn as_digit(self) -> (d: u8) {
        self as u8
    }
}

impl IntKind for u32 {
    type Mag = u32;

    open spec fn ival(self) -> int {
        self as int
    }

    open spec fn imin() -> int {
        0
    }

    open spec fn imax() -> int {
        u32::MAX as int
    }

    open spec fn signed_kind() -> bool {
        false
    }

    proof fn lemma_kind() {
    }

    proof fn lemma_ival_bounds(self) {
    }

    proof fn lemma_ival_injective(self, other: Self) {
    }

    fn signed() -> (b: bool) {
        false
    }

    fn zero() -> (r: Self) {
        0
    }

    fn one() -> (r: Self) {
        1
    }

    fn min_value() -> (r: Self) {
        u32::MIN
    }

    fn max_value() -> (r: Self) {
        u32::MAX
    }

    fn is_zero_val(self) -> (b: bool) {
        self == 0
    }

    fn is_positive_val(self) -> (b: bool) {
        true
    }

    fn is_negative_val(self) -> (b: bool) {
        false
    }

    fn eq_val(self, o: Self) -> (b: bool) {
        self == o
    }

    fn lt_val(self, o: Self) -> (b: bool) {
        self < o
    }

    fn uabs(self) -> (r: Self) {
        self
    }

    fn add_val(self, o: Self) -> (r: Self) {
        self + o
    }

    fn sub_val(self, o: Self) -> (r: Self) {
        self - o
    }

    fn mul_val(self, o: Self) -> (r: Self) {
        self * o
    }

    fn div_val(self, o: Self) -> (r: Self) {
        self / o
    }

    fn rem_val(self, o: Self) -> (r: Self) {
        proof {
            vstd::arithmetic::div_mod::lemma_fundamental_div_mod(self as int, o as int);
            assert((o as int) * ((self as int) / (o as int)) == ((self as int) / (o as int)) * (
            o as int)) by (nonlinear_arith);
        }
        self % o
    }

    fn neg_val(self) -> (r: Self) {
        self
    }

    fn checked_add_val(self, o: Self) -> (r: Option<Self>) {
        self.checked_add(o)
    }

    fn checked_mul_ten(self) -> (r: Option<Self>) {
        self.checked_mul(10)
    }

    fn checked_add_digit(self, d: u8, negative: bool) -> (r: Option<Self>) {
        self.checked_add(d as u32)
    }
}

impl UnsignedKind for u16 {
    open spec fn uval(self) -> int {
        self as int
    }

    open spec fn umax() -> int {
        u16::MAX as int
    }

    proof fn lemma_umax() {
        lemma_pow10_39();
    }

    proof fn lemma_uval_bounds(self) {
    }

    fn uone() -> (r: Self) {
        1
    }

    fn uten() -> (r: Self) {
        10
    }

    fn udiv(self, d: Self) -> (r: Self) {
        self / d
    }

    fn urem(self, d: Self) -> (r: Self) {
        self % d
    }

    fn umul(self, o: Self) -> (r: Self) {
        self * o
    }

    fn ult(self, o: Self) -> (b: bool) {
        self < o
    }

    fn as_digit(self) -> (d: u8) {
        self as u8
    }
}

impl IntKind for u16 {
    type Mag = u16;

    open spec fn ival(self) -> int {
        self as int
    }

    open spec fn imin() -> int {
        0
    }

    open spec fn imax() -> int {
        u16::MAX as int
    }

    open spec fn signed_kind() -> bool {
        false
    }

    proof fn lemma_kind() {
    }

    proof fn lemma_ival_bounds(self) {
    }

    proof fn lemma_ival_injective(self, other: Self) {
    }

    fn signed() -> (b: bool) {
        false
    }

    fn zero() -> (r: Self) {
        0
    }

    fn one() -> (r: Self) {
        1
    }

    fn min_value() -> (r: Self) {
        u16::MIN
    }

    fn max_value() -> (r: Self) {
        u16::MAX
    }

    fn is_zero_val(self) -> (b: bool) {
        self == 0
    }

    fn is_positive_val(self) -> (b: bool) {
        true
    }

    fn is_negative_val(self) -> (b: bool) {
        false
    }

    fn eq_val(self, o: Self) -> (b: bool) {
        self == o
    }

    fn lt_val(self, o: Self) -> (b: bool) {
        self < o
    }

    fn uabs(self) -> (r: Self) {
        self
    }

    fn add_val(self, o: Self) -> (r: Self) {
        self + o
    }

    fn sub_val(self, o: Self) -> (r: Self) {
        self - o
    }

    fn mul_val(self, o: Self) -> (r: Self) {
        self * o
    }

    fn div_val(self, o: Self) -> (r: Self) {
        self / o
    }

    fn rem_val(self, o: Self) -> (r: Self) {
        proof {
            vstd::arithmetic::div_mod::lemma_fundamental_div_mod(self as int, o as int);
            assert((o as int) * ((self as int) / (o as int)) == ((self as int) / (o as int)) * (
            o as int)) by (nonlinear_arith);
        }
        self % o
    }

    fn neg_val(self) -> (r: Self) {
        self
    }

    fn checked_add_val(self, o: Self) -> (r: Option<Self>) {
        self.checked_add(o)
    }

    fn checked_mul_ten(self) -> (r: Option<Self>) {
        self.checked_mul(10)
    }

    fn checked_add_digit(self, d: u8, negative: bool) -> (r: Option<Self>) {
        self.checked_add(d as u16)
    }
}

impl UnsignedKind for u8 {
    open spec fn uval(self) -> int {
        self as int
    }

    open spec fn umax() -> int {
        u8::MAX as int
    }

    proof fn lemma_umax() {
        lemma_pow10_39();
    }

    proof fn lemma_uval_bounds(self) {
    }

    fn uone() -> (r: Self) {
        1
    }

    fn uten() -> (r: Self) {
        10
    }

    fn udiv(self, d: Self) -> (r: Self) {
        self / d
    }

    fn urem(self, d: Self) -> (r: Self) {
        self % d
    }

    fn umul(self, o: Self) -> (r: Self) {
        self * o
    }

    fn ult(self, o: Self) -> (b: bool) {
        self < o
    }

    fn as_digit(self) -> (d: u8) {
        self as u8
    }
}

impl IntKind for u8 {
    type Mag = u8;

    open spec fn ival(self) -> int {
        self as int
    }

    open spec fn imin() -> int {
        0
    }

    open spec fn imax() -> int {
        u8::MAX as int
    }

    open spec fn signed_kind() -> bool {
        false
    }

    proof fn lemma_kind() {
    }

    proof fn lemma_ival_bounds(self) {
    }

    proof fn lemma_ival_injective(self, other: Self) {
    }

    fn signed() -> (b: bool) {
        false
    }

    fn zero() -> (r: Self) {
        0
    }

    fn one() -> (r: Self) {
        1
    }

    fn min_value() -> (r: Self) {
        u8::MIN
    }

    fn max_value() -> (r: Self) {
        u8::MAX
    }

    fn is_zero_val(self) -> (b: bool) {
        self == 0
    }

    fn is_positive_val(self) -> (b: bool) {
        true
    }

    fn is_negative_val(self) -> (b: bool) {
        false
    }

    fn eq_val(self, o: Self) -> (b: bool) {
        self == o
    }

    fn lt_val(self, o: Self) -> (b: bool) {
        self < o
    }

    fn uabs(self) -> (r: Self) {
        self
    }

    fn add_val(self, o: Self) -> (r: Self) {
        self + o
    }

    fn sub_val(self, o: Self) -> (r: Self) {
        self - o
    }

    fn mul_val(self, o: Self) -> (r: Self) {
        self * o
    }

    fn div_val(self, o: Self) -> (r: Self) {
        self / o
    }

    fn rem_val(self, o: Self) -> (r: Self) {
        proof {
            vstd::arithmetic::div_mod::lemma_fundamental_div_mod(self as int, o as int);
            assert((o as int) * ((self as int) / (o as int)) == ((self as int) / (o as int)) * (
            o as int)) by (nonlinear_arith);
        }
        self % o
    }

    fn neg_val(self) -> (r: Self) {
        self
    }

    fn checked_add_val(self, o: Self) -> (r: Option<Self>) {
        self.checked_add(o)
    }

    fn checked_mul_ten(self) -> (r: Option<Self>) {
        self.checked_mul(10)
    }

    fn checked_add_digit(self, d: u8, negative: bool) -> (r: Option<Self>) {
        self.checked_add(d as u8)
    }
}

} // verus!
