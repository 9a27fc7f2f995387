//! Bounded unsigned quantities: balances, block numbers and nonces.
use vstd::prelude::*;

verus! {

/// An unsigned quantity with a largest representable value.
///
/// `value` is the number a quantity stands for and `ceiling` the largest
/// number the type can hold.  Addition and subtraction are checked: they
/// yield `None` where the exact result does not fit.
pub trait Quantity: Copy + Sized {
    /// The number this quantity stands for.
    spec fn value(&self) -> nat;

    /// The largest number the type can hold.
    spec fn ceiling() -> nat;

    /// Every quantity lies within the range of its type.
    proof fn value_within_ceiling(x: Self)
        ensures
            x.value() <= Self::ceiling(),
    ;

    /// Quantities are told apart by the number they stand for.
    proof fn value_determines(x: Self, y: Self)
        requires
            x.value() == y.value(),
        ensures
            x == y,
    ;

    /// The quantity `0`.
    fn zero() -> (r: Self)
        ensures
            r.value() == 0,
    ;

    /// The quantity `1`.
    fn one() -> (r: Self)
        ensures
            r.value() == 1,
    ;

    /// `self + v`, or `None` where the sum exceeds the ceiling.
    fn checked_add(&self, v: &Self) -> (r: Option<Self>)
        ensures
            match r {
                Some(s) => s.value() == self.value() + v.value(),
                None => self.value() + v.value() > Self::ceiling(),
            },
    ;

    /// `self - v`, or `None` where `v` is the larger.
    fn checked_sub(&self, v: &Self) -> (r: Option<Self>)
        ensures
            match r {
                Some(d) => d.value() + v.value() == self.value(),
                None => self.value() < v.value(),
            },
    ;
}

/// `num`'s `Zero::zero` for `u32`: the constant `0`.
#[verifier::external_body]
fn zero_u32() -> (r: u32)
    ensures
        r == 0,
{
    num::traits::Zero::zero()
}

/// `num`'s `One::one` for `u32`: the constant `1`.
#[verifier::external_body]
fn one_u32() -> (r: u32)
    ensures
        r == 1,
{
    num::traits::One::one()
}

/// `num`'s `CheckedAdd::checked_add` for `u32`: the sum where it fits in a
/// `u32`, `None` where it does not.
#[verifier::external_body]
fn checked_add_u32(a: &u32, b: &u32) -> (r: Option<u32>)
    ensures
        match r {
            Some(s) => s == *a + *b,
            None => *a + *b > u32::MAX,
        },
{
    num::traits::CheckedAdd::checked_add(a, b)
}

/// `num`'s `CheckedSub::checked_sub` for `u32`: the difference where it is
/// not negative, `None` where it is.
#[verifier::external_body]
fn checked_sub_u32(a: &u32, b: &u32) -> (r: Option<u32>)
    ensures
        match r {
            Some(d) => d == *a - *b,
            None => *a < *b,
        },
{
    num::traits::CheckedSub::checked_sub(a, b)
}

/// `num`'s `Zero::zero` for `u128`: the constant `0`.
#[verifier::external_body]
fn zero_u128() -> (r: u128)
    ensures
        r == 0,
{
    num::traits::Zero::zero()
}

/// `num`'s `One::one` for `u128`: the constant `1`.
#[verifier::external_body]
fn one_u128() -> (r: u128)
    ensures
        r == 1,
{
    num::traits::One::one()
}

/// `num`'s `CheckedAdd::checked_add` for `u128`: the sum where it fits in a
/// `u128`, `None` where it does not.
#[verifier::external_body]
fn checked_add_u128(a: &u128, b: &u128) -> (r: Option<u128>)
    ensures
        match r {
            Some(s) => s == *a + *b,
            None => *a + *b > u128::MAX,
        },
{
    num::traits::CheckedAdd::checked_add(a, b)
}

/// `num`'s `CheckedSub::checked_sub` for `u128`: the difference where it is
/// not negative, `None` where it is.
#[verifier::external_body]
fn checked_sub_u128(a: &u128, b: &u128) -> (r: Option<u128>)
    ensures
        match r {
            Some(d) => d == *a - *b,
            None => *a < *b,
        },
{
    num::traits::CheckedSub::checked_sub(a, b)
}

impl Quantity for u32 {
    open spec fn value(&self) -> nat {
        *self as nat
    }

    open spec fn ceiling() -> nat {
        u32::MAX as nat
    }

    proof fn value_within_ceiling(x: Self) {
    }

    proof fn value_determines(x: Self, y: Self) {
    }

    fn zero() -> (r: Self) {
        zero_u32()
    }

    fn one() -> (r: Self) {
        one_u32()
    }

    fn checked_add(&self, v: &Self) -> (r: Option<Self>) {
        checked_add_u32(self, v)
    }

    fn checked_sub(&self, v: &Self) -> (r: Option<Self>) {
        checked_sub_u32(self, v)
    }
}

impl Quantity for u128 {
    open spec fn value(&self) -> nat {
        *self as nat
    }

    open spec fn ceiling() -> nat {
        u128::MAX as nat
    }

    proof fn value_within_ceiling(x: Self) {
    }

    proof fn value_determines(x: Self, y: Self) {
    }

    fn zero() -> (r: Self) {
        zero_u128()
    }

    fn one() -> (r: Self) {
        one_u128()
    }

    fn checked_add(&self, v: &Self) -> (r: Option<Self>) {
        checked_add_u128(self, v)
    }

    fn checked_sub(&self, v: &Self) -> (r: Option<Self>) {
        checked_sub_u128(self, v)
    }
}

} // verus!
