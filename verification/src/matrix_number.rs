//! The scalar types that may fill a matrix.
//!
//! Every scalar stands for a mathematical integer, its `value`. The arithmetic
//! of a scalar type is the arithmetic of those integers, restricted to the
//! results that the type can represent.

use vstd::prelude::*;

verus! {

/// Integer division that rounds toward zero, as the machine integers divide.
pub open spec fn quotient(a: int, b: int) -> int {
    if a >= 0 {
        a / b
    } else {
        -((-a) / b)
    }
}

/// Dividing a negative integer by -1 gives its absolute value.
pub proof fn lemma_quotient_by_minus_one(a: int)
    requires
        a < 0,
    ensures
        quotient(a, -1) == -a,
{
    assert((-a) / (-1int) == a) by (nonlinear_arith)
        requires
            a < 0,
    ;
}

/// A scalar that can populate a matrix: it can be copied, added, subtracted,
/// multiplied and divided, and it has an additive and a multiplicative
/// identity.
///
/// No operation wraps or saturates: each one demands that its result is
/// representable in the type.
pub trait MatrixNumber: Copy + Sized {
    /// The integer that this scalar stands for.
    spec fn value(self) -> int;

    /// Whether the type has a scalar that stands for `v`.
    spec fn representable(v: int) -> bool;

    /// Every scalar stands for a representable integer.
    proof fn value_is_representable(self)
        ensures
            Self::representable(self.value()),
    ;

    /// The type has scalars for 0 and for 1.
    proof fn identities_are_representable()
        ensures
            Self::representable(0),
            Self::representable(1),
    ;

    /// Two scalars that stand for the same integer are the same scalar.
    proof fn value_determines(a: Self, b: Self)
        requires
            a.value() == b.value(),
        ensures
            a == b,
    ;

    /// The additive identity.
    fn zero() -> (r: Self)
        ensures
            r.value() == 0,
    ;

    /// The multiplicative identity.
    fn one() -> (r: Self)
        ensures
            r.value() == 1,
    ;

    fn plus(self, rhs: Self) -> (r: Self)
        requires
            Self::representable(self.value() + rhs.value()),
        ensures
            r.value() == self.value() + rhs.value(),
    ;

    fn minus(self, rhs: Self) -> (r: Self)
        requires
            Self::representable(self.value() - rhs.value()),
        ensures
            r.value() == self.value() - rhs.value(),
    ;

    fn times(self, rhs: Self) -> (r: Self)
        requires
            Self::representable(self.value() * rhs.value()),
        ensures
            r.value() == self.value() * rhs.value(),
    ;

    /// Division rounds toward zero. The divisor is not zero.
    fn divided_by(self, rhs: Self) -> (r: Self)
        requires
            rhs.value() != 0,
            Self::representable(quotient(self.value(), rhs.value())),
        ensures
            r.value() == quotient(self.value(), rhs.value()),
    ;

    /// In-place addition: `a.add_assign(b)` leaves `a + b` in `a`.
    fn add_assign(&mut self, rhs: Self)
        requires
            Self::representable(old(self).value() + rhs.value()),
        ensures
            final(self).value() == old(self).value() + rhs.value(),
    {
        *self = self.plus(rhs);
    }

    /// In-place multiplication: `a.mul_assign(b)` leaves `a * b` in `a`.
    fn mul_assign(&mut self, rhs: Self)
        requires
            Self::representable(old(self).value() * rhs.value()),
        ensures
            final(self).value() == old(self).value() * rhs.value(),
    {
        *self = self.times(rhs);
    }
}

/// `num_traits::Zero::zero` for `u8`, which num-traits defines as the literal 0.
#[verifier::external_body]
fn zero_u8() -> (r: u8)
    ensures
        r == 0,
{
    num_traits::Zero::zero()
}

/// `num_traits::One::one` for `u8`, which num-traits defines as the literal 1.
#[verifier::external_body]
fn one_u8() -> (r: u8)
    ensures
        r == 1,
{
    num_traits::One::one()
}

impl MatrixNumber for u8 {
    open spec fn value(self) -> int {
        self as int
    }

    open spec fn representable(v: int) -> bool {
        u8::MIN <= v <= u8::MAX
    }

    proof fn value_is_representable(self) {
    }

    proof fn identities_are_representable() {
    }

    proof fn value_determines(a: u8, b: u8) {
    }

    fn zero() -> (r: u8) {
        zero_u8()
    }

    fn one() -> (r: u8) {
        one_u8()
    }

    fn plus(self, rhs: u8) -> (r: u8) {
        self + rhs
    }

    fn minus(self, rhs: u8) -> (r: u8) {
        self - rhs
    }

    fn times(self, rhs: u8) -> (r: u8) {
        self * rhs
    }

    fn divided_by(self, rhs: u8) -> (r: u8) {
        self / rhs
    }
}

/// `num_traits::Zero::zero` for `u16`, which num-traits defines as the literal 0.
#[verifier::external_body]
fn zero_u16() -> (r: u16)
    ensures
        r == 0,
{
    num_traits::Zero::zero()
}

/// `num_traits::One::one` for `u16`, which num-traits defines as the literal 1.
#[verifier::external_body]
fn one_u16() -> (r: u16)
    ensures
        r == 1,
{
    num_traits::One::one()
}

impl MatrixNumber for u16 {
    open spec fn value(self) -> int {
        self as int
    }

    open spec fn representable(v: int) -> bool {
        u16::MIN <= v <= u16::MAX
    }

    proof fn value_is_representable(self) {
    }

    proof fn identities_are_representable() {
    }

    proof fn value_determines(a: u16, b: u16) {
    }

    fn zero() -> (r: u16) {
        zero_u16()
    }

    fn one() -> (r: u16) {
        one_u16()
    }

    fn plus(self, rhs: u16) -> (r: u16) {
        self + rhs
    }

    fn minus(self, rhs: u16) -> (r: u16) {
        self - rhs
    }

    fn times(self, rhs: u16) -> (r: u16) {
        self * rhs
    }

    fn divided_by(self, rhs: u16) -> (r: u16) {
        self / rhs
    }
}

/// `num_traits::Zero::zero` for `u32`, which num-traits defines as the literal 0.
#[verifier::external_body]
fn zero_u32() -> (r: u32)
    ensures
        r == 0,
{
    num_traits::Zero::zero()
}

/// `num_traits::One::one` for `u32`, which num-traits defines as the literal 1.
#[verifier::external_body]
fn one_u32() -> (r: u32)
    ensures
        r == 1,
{
    num_traits::One::one()
}

impl MatrixNumber for u32 {
    open spec fn value(self) -> int {
        self as int
    }

    open spec fn representable(v: int) -> bool {
        u32::MIN <= v <= u32::MAX
    }

    proof fn value_is_representable(self) {
    }

    proof fn identities_are_representable() {
    }

    proof fn value_determines(a: u32, b: u32) {
    }

    fn zero() -> (r: u32) {
        zero_u32()
    }

    fn one() -> (r: u32) {
        one_u32()
    }

    fn plus(self, rhs: u32) -> (r: u32) {
        self + rhs
    }

    fn minus(self, rhs: u32) -> (r: u32) {
        self - rhs
    }

    fn times(self, rhs: u32) -> (r: u32) {
        self * rhs
    }

    fn divided_by(self, rhs: u32) -> (r: u32) {
        self / rhs
    }
}

/// `num_traits::Zero::zero` for `u64`, which num-traits defines as the literal 0.
#[verifier::external_body]
fn zero_u64() -> (r: u64)
    ensures
        r == 0,
{
    num_traits::Zero::zero()
}

/// `num_traits::One::one` for `u64`, which num-traits defines as the literal 1.
#[verifier::external_body]
fn one_u64() -> (r: u64)
    ensures
        r == 1,
{
    num_traits::One::one()
}

impl MatrixNumber for u64 {
    open spec fn value(self) -> int {
        self as int
    }

    open spec fn representable(v: int) -> bool {
        u64::MIN <= v <= u64::MAX
    }

    proof fn value_is_representable(self) {
    }

    proof fn identities_are_representable() {
    }

    proof fn value_determines(a: u64, b: u64) {
    }

    fn zero() -> (r: u64) {
        zero_u64()
    }

    fn one() -> (r: u64) {
        one_u64()
    }

    fn plus(self, rhs: u64) -> (r: u64) {
        self + rhs
    }

    fn minus(self, rhs: u64) -> (r: u64) {
        self - rhs
    }

    fn times(self, rhs: u64) -> (r: u64) {
        self * rhs
    }

    fn divided_by(self, rhs: u64) -> (r: u64) {
        self / rhs
    }
}

/// `num_traits::Zero::zero` for `u128`, which num-traits defines as the literal 0.
#[verifier::external_body]
fn zero_u128() -> (r: u128)
    ensures
        r == 0,
{
    num_traits::Zero::zero()
}

/// `num_traits::One::one` for `u128`, which num-traits defines as the literal 1.
#[verifier::external_body]
fn one_u128() -> (r: u128)
    ensures
        r == 1,
{
    num_traits::One::one()
}

impl MatrixNumber for u128 {
    open spec fn value(self) -> int {
        self as int
    }

    open spec fn representable(v: int) -> bool {
        u128::MIN <= v <= u128::MAX
    }

    proof fn value_is_representable(self) {
    }

    proof fn identities_are_representable() {
    }

    proof fn value_determines(a: u128, b: u128) {
    }

    fn zero() -> (r: u128) {
        zero_u128()
    }

    fn one() -> (r: u128) {
        one_u128()
    }

    fn plus(self, rhs: u128) -> (r: u128) {
        self + rhs
    }

    fn minus(self, rhs: u128) -> (r: u128) {
        self - rhs
    }

    fn times(self, rhs: u128) -> (r: u128) {
        self * rhs
    }

    fn divided_by(self, rhs: u128) -> (r: u128) {
        self / rhs
    }
}

/// `num_traits::Zero::zero` for `i8`, which num-traits defines as the literal 0.
#[verifier::external_body]
fn zero_i8() -> (r: i8)
    ensures
        r == 0,
{
    num_traits::Zero::zero()
}

/// `num_traits::One::one` for `i8`, which num-traits defines as the literal 1.
#[verifier::external_body]
fn one_i8() -> (r: i8)
    ensures
        r == 1,
{
    num_traits::One::one()
}

impl MatrixNumber for i8 {
    open spec fn value(self) -> int {
        self as int
    }

    open spec fn representable(v: int) -> bool {
        i8::MIN <= v <= i8::MAX
    }

    proof fn value_is_representable(self) {
    }

    proof fn identities_are_representable() {
    }

    proof fn value_determines(a: i8, b: i8) {
    }

    fn zero() -> (r: i8) {
        zero_i8()
    }

    fn one() -> (r: i8) {
        one_i8()
    }

    fn plus(self, rhs: i8) -> (r: i8) {
        self + rhs
    }

    fn minus(self, rhs: i8) -> (r: i8) {
        self - rhs
    }

    fn times(self, rhs: i8) -> (r: i8) {
        self * rhs
    }

    fn divided_by(self, rhs: i8) -> (r: i8) {
        proof {
            if self < 0 {
                lemma_quotient_by_minus_one(self as int);
            }
        }
        self / rhs
    }
}

/// `num_traits::Zero::zero` for `i16`, which num-traits defines as the literal 0.
#[verifier::external_body]
fn zero_i16() -> (r: i16)
    ensures
        r == 0,
{
    num_traits::Zero::zero()
}

/// `num_traits::One::one` for `i16`, which num-traits defines as the literal 1.
#[verifier::external_body]
fn one_i16() -> (r: i16)
    ensures
        r == 1,
{
    num_traits::One::one()
}

impl MatrixNumber for i16 {
    open spec fn value(self) -> int {
        self as int
    }

    open spec fn representable(v: int) -> bool {
        i16::MIN <= v <= i16::MAX
    }

    proof fn value_is_representable(self) {
    }

    proof fn identities_are_representable() {
    }

    proof fn value_determines(a: i16, b: i16) {
    }

    fn zero() -> (r: i16) {
        zero_i16()
    }

    fn one() -> (r: i16) {
        one_i16()
    }

    fn plus(self, rhs: i16) -> (r: i16) {
        self + rhs
    }

    fn minus(self, rhs: i16) -> (r: i16) {
        self - rhs
    }

    fn times(self, rhs: i16) -> (r: i16) {
        self * rhs
    }

    fn divided_by(self, rhs: i16) -> (r: i16) {
        proof {
            if self < 0 {
                lemma_quotient_by_minus_one(self as int);
            }
        }
        self / rhs
    }
}

/// `num_traits::Zero::zero` for `i32`, which num-traits defines as the literal 0.
#[verifier::external_body]
fn zero_i32() -> (r: i32)
    ensures
        r == 0,
{
    num_traits::Zero::zero()
}

/// `num_traits::One::one` for `i32`, which num-traits defines as the literal 1.
#[verifier::external_body]
fn one_i32() -> (r: i32)
    ensures
        r == 1,
{
    num_traits::One::one()
}

impl MatrixNumber for i32 {
    open spec fn value(self) -> int {
        self as int
    }

    open spec fn representable(v: int) -> bool {
        i32::MIN <= v <= i32::MAX
    }

    proof fn value_is_representable(self) {
    }

    proof fn identities_are_representable() {
    }

    proof fn value_determines(a: i32, b: i32) {
    }

    fn zero() -> (r: i32) {
        zero_i32()
    }

    fn one() -> (r: i32) {
        one_i32()
    }

    fn plus(self, rhs: i32) -> (r: i32) {
        self + rhs
    }

    fn minus(self, rhs: i32) -> (r: i32) {
        self - rhs
    }

    fn times(self, rhs: i32) -> (r: i32) {
        self * rhs
    }

    fn divided_by(self, rhs: i32) -> (r: i32) {
        proof {
            if self < 0 {
                lemma_quotient_by_minus_one(self as int);
            }
        }
        self / rhs
    }
}

/// `num_traits::Zero::zero` for `i64`, which num-traits defines as the literal 0.
#[verifier::external_body]
fn zero_i64() -> (r: i64)
    ensures
        r == 0,
{
    num_traits::Zero::zero()
}

/// `num_traits::One::one` for `i64`, which num-traits defines as the literal 1.
#[verifier::external_body]
fn one_i64() -> (r: i64)
    ensures
        r == 1,
{
    num_traits::One::one()
}

impl MatrixNumber for i64 {
    open spec fn value(self) -> int {
        self as int
    }

    open spec fn representable(v: int) -> bool {
        i64::MIN <= v <= i64::MAX
    }

    proof fn value_is_representable(self) {
    }

    proof fn identities_are_representable() {
    }

    proof fn value_determines(a: i64, b: i64) {
    }

    fn zero() -> (r: i64) {
        zero_i64()
    }

    fn one() -> (r: i64) {
        one_i64()
    }

    fn plus(self, rhs: i64) -> (r: i64) {
        self + rhs
    }

    fn minus(self, rhs: i64) -> (r: i64) {
        self - rhs
    }

    fn times(self, rhs: i64) -> (r: i64) {
        self * rhs
    }

    fn divided_by(self, rhs: i64) -> (r: i64) {
        proof {
            if self < 0 {
                lemma_quotient_by_minus_one(self as int);
            }
        }
        self / rhs
    }
}

/// `num_traits::Zero::zero` for `i128`, which num-traits defines as the literal 0.
#[verifier::external_body]
fn zero_i128() -> (r: i128)
    ensures
        r == 0,
{
    num_traits::Zero::zero()
}

/// `num_traits::One::one` for `i128`, which num-traits defines as the literal 1.
#[verifier::external_body]
fn one_i128() -> (r: i128)
    ensures
        r == 1,
{
    num_traits::One::one()
}

impl MatrixNumber for i128 {
    open spec fn value(self) -> int {
        self as int
    }

    open spec fn representable(v: int) -> bool {
        i128::MIN <= v <= i128::MAX
    }

    proof fn value_is_representable(self) {
    }

    proof fn identities_are_representable() {
    }

    proof fn value_determines(a: i128, b: i128) {
    }

    fn zero() -> (r: i128) {
        zero_i128()
    }

    fn one() -> (r: i128) {
        one_i128()
    }

    fn plus(self, rhs: i128) -> (r: i128) {
        self + rhs
    }

    fn minus(self, rhs: i128) -> (r: i128) {
        self - rhs
    }

    fn times(self, rhs: i128) -> (r: i128) {
        self * rhs
    }

    fn divided_by(self, rhs: i128) -> (r: i128) {
        proof {
            if self < 0 {
                lemma_quotient_by_minus_one(self as int);
            }
        }
        self / rhs
    }
}

/// `num_traits::Zero::zero` for `usize`, which num-traits defines as the literal 0.
#[verifier::external_body]
fn zero_usize() -> (r: usize)
    ensures
        r == 0,
{
    num_traits::Zero::zero()
}

/// `num_traits::One::one` for `usize`, which num-traits defines as the literal 1.
#[verifier::external_body]
fn one_usize() -> (r: usize)
    ensures
        r == 1,
{
    num_traits::One::one()
}

impl MatrixNumber for usize {
    open spec fn value(self) -> int {
        self as int
    }

    open spec fn representable(v: int) -> bool {
        usize::MIN <= v <= usize::MAX
    }

    proof fn value_is_representable(self) {
    }

    proof fn identities_are_representable() {
    }

    proof fn value_determines(a: usize, b: usize) {
    }

    fn zero() -> (r: usize) {
        zero_usize()
    }

    fn one() -> (r: usize) {
        one_usize()
    }

    fn plus(self, rhs: usize) -> (r: usize) {
        self + rhs
    }

    fn minus(self, rhs: usize) -> (r: usize) {
        self - rhs
    }

    fn times(self, rhs: usize) -> (r: usize) {
        self * rhs
    }

    fn divided_by(self, rhs: usize) -> (r: usize) {
        self / rhs
    }
}

/// `num_traits::Zero::zero` for `isize`, which num-traits defines as the literal 0.
#[verifier::external_body]
fn zero_isize() -> (r: isize)
    ensures
        r == 0,
{
    num_traits::Zero::zero()
}

/// `num_traits::One::one` for `isize`, which num-traits defines as the literal 1.
#[verifier::external_body]
fn one_isize() -> (r: isize)
    ensures
        r == 1,
{
    num_traits::One::one()
}

impl MatrixNumber for isize {
    open spec fn value(self) -> int {
        self as int
    }

    open spec fn representable(v: int) -> bool {
        isize::MIN <= v <= isize::MAX
    }

    proof fn value_is_representable(self) {
    }

    proof fn identities_are_representable() {
    }

    proof fn value_determines(a: isize, b: isize) {
    }

    fn zero() -> (r: isize) {
        zero_isize()
    }

    fn one() -> (r: isize) {
        one_isize()
    }

    fn plus(self, rhs: isize) -> (r: isize) {
        self + rhs
    }

    fn minus(self, rhs: isize) -> (r: isize) {
        self - rhs
    }

    fn times(self, rhs: isize) -> (r: isize) {
        self * rhs
    }

    fn divided_by(self, rhs: isize) -> (r: isize) {
        proof {
            if self < 0 {
                lemma_quotient_by_minus_one(self as int);
            }
        }
        self / rhs
    }
}

} // verus!
