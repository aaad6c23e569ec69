//! A scalar of the animation format is the 32-bit encoding of a real
//! number.  The codec stores scalars opaquely: it never does arithmetic
//! on them, it only compares them for value equality and tests for
//! zero, which is all that deduplication and the compact curve encoding
//! require.  Numeric evaluation of curves lives outside the verified
//! core.

use vstd::prelude::*;

verus! {

/// The encoding of zero whose bits are all clear.
pub const SCALAR_ZERO: u32 = 0;

/// The second encoding of zero: the sign bit alone set.
pub const SCALAR_NEG_ZERO: u32 = 0x8000_0000;

/// A scalar denotes zero when it is either encoding of zero.
pub open spec fn is_zero_scalar(s: u32) -> bool {
    s == SCALAR_ZERO || s == SCALAR_NEG_ZERO
}

/// Two scalars denote the same value: equal encodings, or both zero.
pub open spec fn eq_scalar(a: u32, b: u32) -> bool {
    a == b || (is_zero_scalar(a) && is_zero_scalar(b))
}

/// Decides whether a scalar denotes zero.
pub fn scalar_is_zero(s: u32) -> (r: bool)
    ensures
        r == is_zero_scalar(s),
{
    s == SCALAR_ZERO || s == SCALAR_NEG_ZERO
}

/// Decides value equality of two scalars.
pub fn scalar_eq(a: u32, b: u32) -> (r: bool)
    ensures
        r == eq_scalar(a, b),
{
    a == b || (scalar_is_zero(a) && scalar_is_zero(b))
}

/// Scalar value equality is reflexive, symmetric and transitive.
pub proof fn lemma_eq_scalar_equivalence(a: u32, b: u32, c: u32)
    ensures
        eq_scalar(a, a),
        eq_scalar(a, b) == eq_scalar(b, a),
        eq_scalar(a, b) && eq_scalar(b, c) ==> eq_scalar(a, c),
{
}

} // verus!
