//! Bounds on products, for the proofs that machine arithmetic does not overflow.

use vstd::prelude::*;

verus! {

/// A product of two bounded factors, the second not negative, is bounded by
/// the product of the bounds.
pub proof fn lemma_product_within(a: int, b: int, a_max: int, b_max: int)
    requires
        -a_max <= a <= a_max,
        0 <= b <= b_max,
    ensures
        -(a_max * b_max) <= a * b <= a_max * b_max,
        a >= 0 ==> a * b >= 0,
        a <= 0 ==> a * b <= 0,
{
    assert(-(a_max * b_max) <= a * b <= a_max * b_max && (a >= 0 ==> a * b >= 0) && (a <= 0 ==> a
        * b <= 0)) by (nonlinear_arith)
        requires
            -a_max <= a <= a_max,
            0 <= b <= b_max,
    ;
}

} // verus!
