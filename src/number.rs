//! Identity elements of the numeric types the library computes with.

use vstd::prelude::*;

verus! {

/// A type with a neutral element for addition.
pub trait AdditiveIdentity: Sized {
    spec fn zero() -> Self;

    fn additive_identity() -> (r: Self)
        ensures
            r == Self::zero(),
    ;
}

/// A type with a neutral element for multiplication.
pub trait MultiplicativeIdentity: Sized {
    spec fn one() -> Self;

    fn multiplicative_identity() -> (r: Self)
        ensures
            r == Self::one(),
    ;
}

impl AdditiveIdentity for u8 {
    open spec fn zero() -> u8 {
        0
    }

    fn additive_identity() -> (r: u8) {
        0
    }
}

impl MultiplicativeIdentity for u8 {
    open spec fn one() -> u8 {
        1
    }

    fn multiplicative_identity() -> (r: u8) {
        1
    }
}

impl AdditiveIdentity for u32 {
    open spec fn zero() -> u32 {
        0
    }

    fn additive_identity() -> (r: u32) {
        0
    }
}

impl MultiplicativeIdentity for u32 {
    open spec fn one() -> u32 {
        1
    }

    fn multiplicative_identity() -> (r: u32) {
        1
    }
}

} // verus!
