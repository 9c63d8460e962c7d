//! The fixed-width bit-vector theory: bit-vector sorts parameterized by
//! their width, and the arithmetic, logical, shift, comparison and
//! extraction operators over them, plus the marker for an unconstrained
//! free variable of this theory's sorts.

use vstd::prelude::*;
use crate::compose::TheoryShape;

verus! {

/// The tag the bit-vector theory claims in a composed logic.
pub const BITVEC_TAG: u64 = 1;

/// The value sorts the bit-vector theory contributes: one sort per width.
#[derive(Clone, Copy, Debug, PartialEq, Eq, Structural)]
pub enum Sorts {
    BitVector(u64),
}

/// The operator codes the bit-vector theory contributes. `Const` is a
/// literal with its value and width; `FreeVar` marks an unbound named
/// value of a bit-vector sort.
#[derive(Clone, Debug, PartialEq)]
pub enum OpCodes {
    Concat,
    Extract(u64, u64),
    BvNot,
    BvAnd,
    BvOr,
    BvXor,
    BvNeg,
    BvAdd,
    BvSub,
    BvMul,
    BvUdiv,
    BvUrem,
    BvShl,
    BvLshr,
    BvUlt,
    BvUle,
    Const(u64, u64),
    FreeVar(String),
}

/// The bit-vector theory's contribution: one sort variant, eighteen
/// operator variants, the last of them the free-variable marker.
pub open spec fn spec_shape() -> TheoryShape {
    TheoryShape { tag: BITVEC_TAG, sort_variants: 1, op_variants: 18, free_var_op: Some(17) }
}

/// The bit-vector theory's contribution to a composed logic.
pub fn shape() -> (r: TheoryShape)
    ensures
        r == spec_shape(),
{
    TheoryShape { tag: BITVEC_TAG, sort_variants: 1, op_variants: 18, free_var_op: Some(17) }
}

} // verus!
