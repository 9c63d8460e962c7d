//! The Boolean core theory: the Boolean sort and the propositional
//! connectives of the SMT-LIB core, plus the marker for an unconstrained
//! free variable of this theory's sort.

use vstd::prelude::*;
use crate::compose::TheoryShape;

verus! {

/// The tag the Boolean core claims in a composed logic.
pub const CORE_TAG: u64 = 2;

/// The value sorts the Boolean core contributes.
#[derive(Clone, Copy, Debug, PartialEq, Eq, Structural)]
pub enum Sorts {
    Bool,
}

/// The operator codes the Boolean core contributes. `FreeVar` marks an
/// unbound named value of the Boolean sort.
#[derive(Clone, Debug, PartialEq)]
pub enum OpCodes {
    True,
    False,
    Not,
    And,
    Or,
    Xor,
    Imply,
    Ite,
    Cmp,
    Distinct,
    FreeVar(String),
}

/// The Boolean core's contribution: one sort variant, eleven operator
/// variants, the last of them the free-variable marker.
pub open spec fn spec_shape() -> TheoryShape {
    TheoryShape { tag: CORE_TAG, sort_variants: 1, op_variants: 11, free_var_op: Some(10) }
}

/// The Boolean core's contribution to a composed logic.
pub fn shape() -> (r: TheoryShape)
    ensures
        r == spec_shape(),
{
    TheoryShape { tag: CORE_TAG, sort_variants: 1, op_variants: 11, free_var_op: Some(10) }
}

} // verus!
