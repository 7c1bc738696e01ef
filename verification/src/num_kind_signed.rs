//! The capability-trait implementations for the five signed mantissa kinds.
//! Each signed kind pairs with the unsigned kind of the same width, so that
//! the magnitude of the most negative value is representable.

use vstd::prelude::*;
use crate::num_kind::{IntKind, UnsignedKind};
use crate::digits::{int_abs, tdiv, trem};
use vstd::arithmetic::div_mod::lemma_fundamental_div_mod;

verus! {

/// The truncating quotient and remainder agree with the native signed
/// `checked_div` / `checked_rem` case analysis.
proof fn lemma_truncating_ops(x: int, d: int)
    requires
        d != 0,
    ensures
        x > 0 && d > 0 ==> tdiv(x, d) == x / d && trem(x, d) == x % d,
        x < 0 && d < 0 ==> tdiv(x, d) == (x * -1) / (d * -1) && trem(x, d) == ((x * -1) % (d
            * -1)) * -1,
        x < 0 && d > 0 ==> tdiv(x, d) == ((x * -1) / d) * -1 && trem(x, d) == ((x * -1) % d) * -1,
        x > 0 && d < 0 ==> tdiv(x, d) == (x / (d * -1)) * -1 && trem(x, d) == x % (d * -1),
        x == 0 ==> tdiv(x, d) == 0 && trem(x, d) == 0,
{
    let ax = int_abs(x);
    let ad = int_abs(d);
    lemma_fundamental_div_mod(ax, ad);
    assert(ax == ad * (ax / ad) + ax % ad);
    let q = ax / ad;
    let r = ax % ad;
    if x == 0 {
        vstd::arithmetic::div_mod::lemma_div_of0(ad);
        assert(tdiv(x, d) == 0 || tdiv(x, d) == -(0int / ad));
        assert(0int / ad == 0);
        assert(tdiv(x, d) * d == 0) by (nonlinear_arith)
            requires tdiv(x, d) == 0,
        ;
    } else if x > 0 && d > 0 {
        assert(trem(x, d) == x - (x / d) * d);
        assert(d * (x / d) == (x / d) * d) by (nonlinear_arith);
    } else if x < 0 && d < 0 {
        assert(tdiv(x, d) == q);
        assert(trem(x, d) == x - q * d);
        assert(ax == -x && ad == -d);
        assert(q * d == -(ad * q)) by (nonlinear_arith)
            requires ad == -d,
        ;
        assert(x - q * d == -(ax - ad * q));
        assert(x - q * d == -r);
    } else if x < 0 && d > 0 {
        assert(tdiv(x, d) == -q);
        assert(trem(x, d) == x - (-q) * d);
        assert(ax == -x && ad == d);
        assert((-q) * d == -(ad * q)) by (nonlinear_arith)
            requires ad == d,
        ;
        assert(x - (-q) * d == -(ax - ad * q));
        assert(x - (-q) * d == -r);
    } else {
        assert(x > 0 && d < 0);
        assert(tdiv(x, d) == -q);
        assert(trem(x, d) == x - (-q) * d);
        assert(ax == x && ad == -d);
        assert((-q) * d == ad * q) by (nonlinear_arith)
            requires ad == -d,
        ;
        assert(x - (-q) * d == ax - ad * q);
        assert(x - (-q) * d == r);
    }
}

impl IntKind for i128 {
    type Mag = u128;

    open spec fn ival(self) -> int {
        self as int
    }

    open spec fn imin() -> int {
        i128::MIN as int
    }

    open spec fn imax() -> int {
        i128::MAX as int
    }

    open spec fn signed_kind() -> bool {
        true
    }

    proof fn lemma_kind() {
    }

    proof fn lemma_ival_bounds(self) {
    }

    proof fn lemma_ival_injective(self, other: Self) {
    }

    fn signed() -> (b: bool) {
        true
    }

    fn zero() -> (r: Self) {
        0
    }

    fn one() -> (r: Self) {
        1
    }

    fn min_value() -> (r: Self) {
        i128::MIN
    }

    fn max_value() -> (r: Self) {
        i128::MAX
    }

    fn is_zero_val(self) -> (b: bool) {
        self == 0
    }

    fn is_positive_val(self) -> (b: bool) {
        self >= 0
    }

    fn is_negative_val(self) -> (b: bool) {
        self < 0
    }

    fn eq_val(self, o: Self) -> (b: bool) {
        self == o
    }

    fn lt_val(self, o: Self) -> (b: bool) {
        self < o
    }

    fn uabs(self) -> (r: u128) {
        if self == i128::MIN {
            (i128::MAX as u128) + 1
        } else if self < 0 {
            (-self) as u128
        } else {
            self as u128
        }
    }

    fn add_val(self, o: Self) -> (r: Self) {
        self + o
    }

    fn sub_val(self, o: Self) -> (r: Self) {
        self - o
    }

    fn mul_val(self, o: Self) -> (r: Self) {
        self * o
    }

    fn div_val(self, o: Self) -> (r: Self) {
        proof {
            lemma_truncating_ops(self as int, o as int);
        }
        let r = self.checked_div(o);
        r.unwrap()
    }

    fn rem_val(self, o: Self) -> (r: Self) {
        proof {
            lemma_truncating_ops(self as int, o as int);
            vstd::arithmetic::div_mod::lemma_mod_bound(int_abs(self as int), int_abs(o as int));
        }
        let r = self.checked_rem(o);
        r.unwrap()
    }

    fn neg_val(self) -> (r: Self) {
        -self
    }

    fn checked_add_val(self, o: Self) -> (r: Option<Self>) {
        self.checked_add(o)
    }

    fn checked_mul_ten(self) -> (r: Option<Self>) {
        self.checked_mul(10)
    }

    fn checked_add_digit(self, d: u8, negative: bool) -> (r: Option<Self>) {
        if negative {
            self.checked_add(-(d as i128))
        } else {
            self.checked_add(d as i128)
        }
    }
}

impl IntKind for i64 {
    type Mag = u64;

    open spec fn ival(self) -> int {
        self as int
    }

    open spec fn imin() -> int {
        i64::MIN as int
    }

    open spec fn imax() -> int {
        i64::MAX as int
    }

    open spec fn signed_kind() -> bool {
        true
    }

    proof fn lemma_kind() {
    }

    proof fn lemma_ival_bounds(self) {
    }

    proof fn lemma_ival_injective(self, other: Self) {
    }

    fn signed() -> (b: bool) {
        true
    }

    fn zero() -> (r: Self) {
        0
    }

    fn one() -> (r: Self) {
        1
    }

    fn min_value() -> (r: Self) {
        i64::MIN
    }

    fn max_value() -> (r: Self) {
        i64::MAX
    }

    fn is_zero_val(self) -> (b: bool) {
        self == 0
    }

    fn is_positive_val(self) -> (b: bool) {
        self >= 0
    }

    fn is_negative_val(self) -> (b: bool) {
        self < 0
    }

    fn eq_val(self, o: Self) -> (b: bool) {
        self == o
    }

    fn lt_val(self, o: Self) -> (b: bool) {
        self < o
    }

    fn uabs(self) -> (r: u64) {
        if self == i64::MIN {
            (i64::MAX as u64) + 1
        } else if self < 0 {
            (-self) as u64
        } else {
            self as u64
        }
    }

    fn add_val(self, o: Self) -> (r: Self) {
        self + o
    }

    fn sub_val(self, o: Self) -> (r: Self) {
        self - o
    }

    fn mul_val(self, o: Self) -> (r: Self) {
        self * o
    }

    fn div_val(self, o: Self) -> (r: Self) {
        proof {
            lemma_truncating_ops(self as int, o as int);
        }
        let r = self.checked_div(o);
        r.unwrap()
    }

    fn rem_val(self, o: Self) -> (r: Self) {
        proof {
            lemma_truncating_ops(self as int, o as int);
            vstd::arithmetic::div_mod::lemma_mod_bound(int_abs(self as int), int_abs(o as int));
        }
        let r = self.checked_rem(o);
        r.unwrap()
    }

    fn neg_val(self) -> (r: Self) {
        -self
    }

    fn checked_add_val(self, o: Self) -> (r: Option<Self>) {
        self.checked_add(o)
    }

    fn checked_mul_ten(self) -> (r: Option<Self>) {
        self.checked_mul(10)
    }

    fn checked_add_digit(self, d: u8, negative: bool) -> (r: Option<Self>) {
        if negative {
            self.checked_add(-(d as i64))
        } else {
            self.checked_add(d as i64)
        }
    }
}

impl IntKind for i32 {
    type Mag = u32;

    open spec fn ival(self) -> int {
        self as int
    }

    open spec fn imin() -> int {
        i32::MIN as int
    }

    open spec fn imax() -> int {
        i32::MAX as int
    }

    open spec fn signed_kind() -> bool {
        true
    }

    proof fn lemma_kind() {
    }

    proof fn lemma_ival_bounds(self) {
    }

    proof fn lemma_ival_injective(self, other: Self) {
    }

    fn signed() -> (b: bool) {
        true
    }

    fn zero() -> (r: Self) {
        0
    }

    fn one() -> (r: Self) {
        1
    }

    fn min_value() -> (r: Self) {
        i32::MIN
    }

    fn max_value() -> (r: Self) {
        i32::MAX
    }

    fn is_zero_val(self) -> (b: bool) {
        self == 0
    }

    fn is_positive_val(self) -> (b: bool) {
        self >= 0
    }

    fn is_negative_val(self) -> (b: bool) {
        self < 0
    }

    fn eq_val(self, o: Self) -> (b: bool) {
        self == o
    }

    fn lt_val(self, o: Self) -> (b: bool) {
        self < o
    }

    fn uabs(self) -> (r: u32) {
        if self == i32::MIN {
            (i32::MAX as u32) + 1
        } else if self < 0 {
            (-self) as u32
        } else {
            self as u32
        }
    }

    fn add_val(self, o: Self) -> (r: Self) {
        self + o
    }

    fn sub_val(self, o: Self) -> (r: Self) {
        self - o
    }

    fn mul_val(self, o: Self) -> (r: Self) {
        self * o
    }

    fn div_val(self, o: Self) -> (r: Self) {
        proof {
            lemma_truncating_ops(self as int, o as int);
        }
        let r = self.checked_div(o);
        r.unwrap()
    }

    fn rem_val(self, o: Self) -> (r: Self) {
        proof {
            lemma_truncating_ops(self as int, o as int);
            vstd::arithmetic::div_mod::lemma_mod_bound(int_abs(self as int), int_abs(o as int));
        }
        let r = self.checked_rem(o);
        r.unwrap()
    }

    fn neg_val(self) -> (r: Self) {
        -self
    }

    fn checked_add_val(self, o: Self) -> (r: Option<Self>) {
        self.checked_add(o)
    }

    fn checked_mul_ten(self) -> (r: Option<Self>) {
        self.checked_mul(10)
    }

    fn checked_add_digit(self, d: u8, negative: bool) -> (r: Option<Self>) {
        if negative {
            self.checked_add(-(d as i32))
        } else {
            self.checked_add(d as i32)
        }
    }
}

impl IntKind for i16 {
    type Mag = u16;

    open spec fn ival(self) -> int {
        self as int
    }

    open spec fn imin() -> int {
        i16::MIN as int
    }

    open spec fn imax() -> int {
        i16::MAX as int
    }

    open spec fn signed_kind() -> bool {
        true
    }

    proof fn lemma_kind() {
    }

    proof fn lemma_ival_bounds(self) {
    }

    proof fn lemma_ival_injective(self, other: Self) {
    }

    fn signed() -> (b: bool) {
        true
    }

    fn zero() -> (r: Self) {
        0
    }

    fn one() -> (r: Self) {
        1
    }

    fn min_value() -> (r: Self) {
        i16::MIN
    }

    fn max_value() -> (r: Self) {
        i16::MAX
    }

    fn is_zero_val(self) -> (b: bool) {
        self == 0
    }

    fn is_positive_val(self) -> (b: bool) {
        self >= 0
    }

    fn is_negative_val(self) -> (b: bool) {
        self < 0
    }

    fn eq_val(self, o: Self) -> (b: bool) {
        self == o
    }

    fn lt_val(self, o: Self) -> (b: bool) {
        self < o
    }

    fn uabs(self) -> (r: u16) {
        if self == i16::MIN {
            (i16::MAX as u16) + 1
        } else if self < 0 {
            (-self) as u16
        } else {
            self as u16
        }
    }

    fn add_val(self, o: Self) -> (r: Self) {
        self + o
    }

    fn sub_val(self, o: Self) -> (r: Self) {
        self - o
    }

    fn mul_val(self, o: Self) -> (r: Self) {
        self * o
    }

    fn div_val(self, o: Self) -> (r: Self) {
        proof {
            lemma_truncating_ops(self as int, o as int);
        }
        let r = self.checked_div(o);
        r.unwrap()
    }

    fn rem_val(self, o: Self) -> (r: Self) {
        proof {
            lemma_truncating_ops(self as int, o as int);
            vstd::arithmetic::div_mod::lemma_mod_bound(int_abs(self as int), int_abs(o as int));
        }
        let r = self.checked_rem(o);
        r.unwrap()
    }

    fn neg_val(self) -> (r: Self) {
        -self
    }

    fn checked_add_val(self, o: Self) -> (r: Option<Self>) {
        self.checked_add(o)
    }

    fn checked_mul_ten(self) -> (r: Option<Self>) {
        self.checked_mul(10)
    }

    fn checked_add_digit(self, d: u8, negative: bool) -> (r: Option<Self>) {
        if negative {
            self.checked_add(-(d as i16))
        } else {
            self.checked_add(d as i16)
        }
    }
}

impl IntKind for i8 {
    type Mag = u8;

    open spec fn ival(self) -> int {
        self as int
    }

    open spec fn imin() -> int {
        i8::MIN as int
    }

    open spec fn imax() -> int {
        i8::MAX as int
    }

    open spec fn signed_kind() -> bool {
        true
    }

    proof fn lemma_kind() {
    }

    proof fn lemma_ival_bounds(self) {
    }

    proof fn lemma_ival_injective(self, other: Self) {
    }

    fn signed() -> (b: bool) {
        true
    }

    fn zero() -> (r: Self) {
        0
    }

    fn one() -> (r: Self) {
        1
    }

    fn min_value() -> (r: Self) {
        i8::MIN
    }

    fn max_value() -> (r: Self) {
        i8::MAX
    }

    fn is_zero_val(self) -> (b: bool) {
        self == 0
    }

    fn is_positive_val(self) -> (b: bool) {
        self >= 0
    }

    fn is_negative_val(self) -> (b: bool) {
        self < 0
    }

    fn eq_val(self, o: Self) -> (b: bool) {
        self == o
    }

    fn lt_val(self, o: Self) -> (b: bool) {
        self < o
    }

    fn uabs(self) -> (r: u8) {
        if self == i8::MIN {
            (i8::MAX as u8) + 1
        } else if self < 0 {
            (-self) as u8
        } else {
            self as u8
        }
    }

    fn add_val(self, o: Self) -> (r: Self) {
        self + o
    }

    fn sub_val(self, o: Self) -> (r: Self) {
        self - o
    }

    fn mul_val(self, o: Self) -> (r: Self) {
        self * o
    }

    fn div_val(self, o: Self) -> (r: Self) {
        proof {
            lemma_truncating_ops(self as int, o as int);
        }
        let r = self.checked_div(o);
        r.unwrap()
    }

    fn rem_val(self, o: Self) -> (r: Self) {
        proof {
            lemma_truncating_ops(self as int, o as int);
            vstd::arithmetic::div_mod::lemma_mod_bound(int_abs(self as int), int_abs(o as int));
        }
        let r = self.checked_rem(o);
        r.unwrap()
    }

    fn neg_val(self) -> (r: Self) {
        -self
    }

    fn checked_add_val(self, o: Self) -> (r: Option<Self>) {
        self.checked_add(o)
    }

    fn checked_mul_ten(self) -> (r: Option<Self>) {
        self.checked_mul(10)
    }

    fn checked_add_digit(self, d: u8, negative: bool) -> (r: Option<Self>) {
        if negative {
            self.checked_add(-(d as i8))
        } else {
            self.checked_add(d as i8)
        }
    }
}

} // verus!
