//! The extensional array theory: arrays parameterized by an index sort
//! and an element sort taken from whatever logic the theory is merged
//! into, so arrays over any merged sort (including arrays of arrays) are
//! expressible, plus select/store and the free-variable marker.

use vstd::prelude::*;
use crate::compose::TheoryShape;

verus! {

/// The tag the array theory claims in a composed logic.
pub const ARRAY_TAG: u64 = 3;

/// The value sorts the array theory contributes: an array sort for every
/// pair of index and element sorts of the surrounding logic.
#[derive(Clone, Debug, PartialEq)]
pub enum Sorts<I, E> {
    Array(I, E),
}

/// The operator codes the array theory contributes. `FreeVar` marks an
/// unbound named value of an array sort.
#[derive(Clone, Debug, PartialEq)]
pub enum OpCodes {
    Select,
    Store,
    FreeVar(String),
}

/// The array theory's contribution: one sort variant, three operator
/// variants, the last of them the free-variable marker.
pub open spec fn spec_shape() -> TheoryShape {
    TheoryShape { tag: ARRAY_TAG, sort_variants: 1, op_variants: 3, free_var_op: Some(2) }
}

/// The array theory's contribution to a composed logic.
pub fn shape() -> (r: TheoryShape)
    ensures
        r == spec_shape(),
{
    TheoryShape { tag: ARRAY_TAG, sort_variants: 1, op_variants: 3, free_var_op: Some(2) }
}

} // verus!
