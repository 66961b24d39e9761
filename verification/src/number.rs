//! The scalar abstraction that matrix elements are drawn from.

use vstd::prelude::*;

verus! {

/// A scalar that matrices can hold.
///
/// Arithmetic is closed over the type: sums and products are described by
/// `add_spec` and `mul_spec`, which for the fixed-width integers are the
/// wrapping operations. The proof obligations at the end are the only
/// algebraic facts the matrix laws rely on; neither associativity nor
/// commutativity is asked for.
pub trait Number: Copy + Sized {
    /// The scalar that the small integer `v` converts to.
    spec fn from_u8_spec(v: u8) -> Self;

    /// The sum of two scalars.
    spec fn add_spec(self, rhs: Self) -> Self;

    /// The product of two scalars.
    spec fn mul_spec(self, rhs: Self) -> Self;

    /// Converts a small integer; `0` and `1` give the two identities.
    fn from_u8(v: u8) -> (r: Self)
        ensures
            r == Self::from_u8_spec(v),
    ;

    /// Adds in the scalar's own arithmetic.
    fn plus(self, rhs: Self) -> (r: Self)
        ensures
            r == self.add_spec(rhs),
    ;

    /// Multiplies in the scalar's own arithmetic.
    fn times(self, rhs: Self) -> (r: Self)
        ensures
            r == self.mul_spec(rhs),
    ;

    /// Tells whether two scalars are the same value.
    fn same(&self, rhs: &Self) -> (b: bool)
        ensures
            b == (*self == *rhs),
    ;

    /// Zero is neutral for addition on both sides.
    proof fn lemma_add_zero(x: Self)
        ensures
            Self::from_u8_spec(0).add_spec(x) == x,
            x.add_spec(Self::from_u8_spec(0)) == x,
    ;

    /// One is neutral for multiplication on both sides.
    proof fn lemma_mul_one(x: Self)
        ensures
            Self::from_u8_spec(1).mul_spec(x) == x,
            x.mul_spec(Self::from_u8_spec(1)) == x,
    ;

    /// Zero absorbs multiplication on both sides.
    proof fn lemma_mul_zero(x: Self)
        ensures
            Self::from_u8_spec(0).mul_spec(x) == Self::from_u8_spec(0),
            x.mul_spec(Self::from_u8_spec(0)) == Self::from_u8_spec(0),
    ;
}

/// The additive identity of `T`.
pub open spec fn zero<T: Number>() -> T {
    T::from_u8_spec(0)
}

/// The multiplicative identity of `T`.
pub open spec fn one<T: Number>() -> T {
    T::from_u8_spec(1)
}

} // verus!
