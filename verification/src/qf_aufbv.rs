//! The composed logic of quantifier-free arrays, uninterpreted functions
//! and bit-vectors over the Boolean core: one closed sort union and one
//! closed operator union built from the three theory modules, with the
//! total mapping from every sort branch to the operator that stands for
//! an unconstrained free variable of that sort.

use vstd::prelude::*;
use vstd::string::*;
use crate::array_ex;
use crate::bitvec;
use crate::compose::ComposeError;
use crate::compose::ComposedLogic;
use crate::compose::TheoryShape;
use crate::compose::compose;
use crate::compose::sum_op_variants;
use crate::compose::sum_sort_variants;
use crate::core_theory;

verus! {

/// The closed sort union of the composed logic: the disjoint union of the
/// three merged theories' sorts, with the array theory's index and
/// element sorts drawn from this same union, so nested arrays over any
/// merged sort are expressible.
#[allow(non_camel_case_types)]
pub enum QF_AUFBV_Sorts {
    BV(bitvec::Sorts),
    Core(core_theory::Sorts),
    ArrayEx(array_ex::Sorts<Box<QF_AUFBV_Sorts>, Box<QF_AUFBV_Sorts>>),
}

/// The closed operator union of the composed logic: the disjoint union of
/// the three merged theories' operator codes.
#[derive(Clone, Debug, PartialEq)]
#[allow(non_camel_case_types)]
pub enum QF_AUFBV_Fn {
    BVOps(bitvec::OpCodes),
    CoreOps(core_theory::OpCodes),
    ArrayOps(array_ex::OpCodes),
}

/// Whether a composed sort came from the bit-vector theory.
pub open spec fn is_bv_sort(s: QF_AUFBV_Sorts) -> bool {
    s is BV
}

/// Whether a composed sort came from the Boolean core.
pub open spec fn is_core_sort(s: QF_AUFBV_Sorts) -> bool {
    s is Core
}

/// Whether a composed sort came from the array theory.
pub open spec fn is_array_sort(s: QF_AUFBV_Sorts) -> bool {
    s is ArrayEx
}

/// Whether a composed operator is some theory's free-variable marker.
pub open spec fn is_free_var(op: QF_AUFBV_Fn) -> bool {
    match op {
        QF_AUFBV_Fn::BVOps(o) => o is FreeVar,
        QF_AUFBV_Fn::CoreOps(o) => o is FreeVar,
        QF_AUFBV_Fn::ArrayOps(o) => o is FreeVar,
    }
}

/// The name carried by a free-variable operator, empty for any other.
pub open spec fn free_var_name(op: QF_AUFBV_Fn) -> Seq<char> {
    match op {
        QF_AUFBV_Fn::BVOps(bitvec::OpCodes::FreeVar(n)) => n@,
        QF_AUFBV_Fn::CoreOps(core_theory::OpCodes::FreeVar(n)) => n@,
        QF_AUFBV_Fn::ArrayOps(array_ex::OpCodes::FreeVar(n)) => n@,
        _ => Seq::empty(),
    }
}

/// Whether a composed sort and a composed operator come from the same
/// merged theory.
pub open spec fn same_theory(s: QF_AUFBV_Sorts, op: QF_AUFBV_Fn) -> bool {
    match (s, op) {
        (QF_AUFBV_Sorts::BV(_), QF_AUFBV_Fn::BVOps(_)) => true,
        (QF_AUFBV_Sorts::Core(_), QF_AUFBV_Fn::CoreOps(_)) => true,
        (QF_AUFBV_Sorts::ArrayEx(_), QF_AUFBV_Fn::ArrayOps(_)) => true,
        _ => false,
    }
}

/// The composed union is disjoint and total: every composed sort belongs
/// to exactly one of the merged theories.
pub proof fn lemma_sort_union_disjoint(s: QF_AUFBV_Sorts)
    ensures
        is_bv_sort(s) || is_core_sort(s) || is_array_sort(s),
        !(is_bv_sort(s) && is_core_sort(s)),
        !(is_bv_sort(s) && is_array_sort(s)),
        !(is_core_sort(s) && is_array_sort(s)),
{
}

/// The free-variable mapping of the composed logic is total: every sort
/// branch has a free-variable operator drawn from its own theory.
pub proof fn lemma_free_var_mapping_total(s: QF_AUFBV_Sorts)
    ensures
        exists|op: QF_AUFBV_Fn| #[trigger] is_free_var(op) && same_theory(s, op),
{
    let name = vstd::pervasive::arbitrary::<String>();
    match s {
        QF_AUFBV_Sorts::BV(_) => {
            let op = QF_AUFBV_Fn::BVOps(bitvec::OpCodes::FreeVar(name));
            assert(is_free_var(op) && same_theory(s, op));
        },
        QF_AUFBV_Sorts::Core(_) => {
            let op = QF_AUFBV_Fn::CoreOps(core_theory::OpCodes::FreeVar(name));
            assert(is_free_var(op) && same_theory(s, op));
        },
        QF_AUFBV_Sorts::ArrayEx(_) => {
            let op = QF_AUFBV_Fn::ArrayOps(array_ex::OpCodes::FreeVar(name));
            assert(is_free_var(op) && same_theory(s, op));
        },
    }
}

/// The marker type of the composed logic.
#[allow(non_camel_case_types)]
pub struct QF_AUFBV;

impl QF_AUFBV {
    /// The fixed identifier used when selecting this logic on a backend.
    pub fn name() -> (r: String)
        ensures
            r@ == "QF_AUFBV"@,
    {
        String::from_str("QF_AUFBV")
    }

    /// Synthesizes the free-variable operator for a sort: the placeholder
    /// used whenever a constraint references an as-yet-unbound value of
    /// that sort, without inspecting which theory produced it. The
    /// mapping is total over the sort union, and always answers with the
    /// marker of the sort's own theory, carrying the requested name.
    pub fn free_var(sort: &QF_AUFBV_Sorts, name: String) -> (r: QF_AUFBV_Fn)
        ensures
            is_free_var(r),
            same_theory(*sort, r),
            free_var_name(r) == name@,
    {
        match sort {
            QF_AUFBV_Sorts::BV(_) => QF_AUFBV_Fn::BVOps(bitvec::OpCodes::FreeVar(name)),
            QF_AUFBV_Sorts::Core(_) => QF_AUFBV_Fn::CoreOps(core_theory::OpCodes::FreeVar(name)),
            QF_AUFBV_Sorts::ArrayEx(_) => QF_AUFBV_Fn::ArrayOps(array_ex::OpCodes::FreeVar(name)),
        }
    }
}

/// Builds the validated descriptor of this logic from the three theory
/// contributions. The composition always succeeds: the claimed tags are
/// pairwise distinct and every theory supplies its free-variable marker,
/// so the composed variant counts are the sums of the contributions and
/// the free-variable mapping covers all three sort branches.
pub fn qf_aufbv_composed() -> (r: ComposedLogic)
    ensures
        r.name@ == "QF_AUFBV"@,
        r.tags@ == seq![bitvec::BITVEC_TAG, core_theory::CORE_TAG, array_ex::ARRAY_TAG],
        r.sort_variant_count == 3,
        r.op_variant_count == 32,
        r.free_var_ops@ == seq![
            (bitvec::BITVEC_TAG, bitvec::spec_shape().free_var_op->Some_0),
            (core_theory::CORE_TAG, core_theory::spec_shape().free_var_op->Some_0),
            (array_ex::ARRAY_TAG, array_ex::spec_shape().free_var_op->Some_0),
        ],
{
    let mut theories: Vec<TheoryShape> = Vec::new();
    theories.push(bitvec::shape());
    theories.push(core_theory::shape());
    theories.push(array_ex::shape());
    proof {
        let ts = theories@;
        let s3 = seq![bitvec::spec_shape(), core_theory::spec_shape(), array_ex::spec_shape()];
        let s2 = seq![bitvec::spec_shape(), core_theory::spec_shape()];
        let s1 = seq![bitvec::spec_shape()];
        let s0 = Seq::<TheoryShape>::empty();
        assert(ts =~= s3);
        assert(s3.drop_last() =~= s2);
        assert(s2.drop_last() =~= s1);
        assert(s1.drop_last() =~= s0);
        assert(sum_sort_variants(s0) == 0);
        assert(sum_sort_variants(s1) == 1);
        assert(sum_sort_variants(s2) == 2);
        assert(sum_sort_variants(s3) == 3);
        assert(sum_op_variants(s0) == 0);
        assert(sum_op_variants(s1) == 18);
        assert(sum_op_variants(s2) == 29);
        assert(sum_op_variants(s3) == 32);
    }
    let built = compose(QF_AUFBV::name(), &theories);
    match built {
        Ok(c) => {
            proof {
                assert(c.tags@ =~= seq![
                    bitvec::BITVEC_TAG,
                    core_theory::CORE_TAG,
                    array_ex::ARRAY_TAG,
                ]);
                assert(c.free_var_ops@ =~= seq![
                    (bitvec::BITVEC_TAG, bitvec::spec_shape().free_var_op->Some_0),
                    (core_theory::CORE_TAG, core_theory::spec_shape().free_var_op->Some_0),
                    (array_ex::ARRAY_TAG, array_ex::spec_shape().free_var_op->Some_0),
                ]);
            }
            c
        },
        Err(e) => {
            proof {
                assert(false);
            }
            ComposedLogic {
                name: String::new(),
                tags: Vec::new(),
                sort_variant_count: 0,
                op_variant_count: 0,
                free_var_ops: Vec::new(),
            }
        },
    }
}

} // verus!
