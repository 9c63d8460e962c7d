use libsmt::compose::{compose, ComposeError, TheoryShape};
use libsmt::qf_aufbv::{qf_aufbv_composed, QF_AUFBV, QF_AUFBV_Fn, QF_AUFBV_Sorts};
use libsmt::{array_ex, bitvec, core_theory};

fn shapes() -> Vec<TheoryShape> {
    vec![bitvec::shape(), core_theory::shape(), array_ex::shape()]
}

#[test]
fn compose_disjoint_counts_are_sums() {
    let ts = shapes();
    let c = compose(String::from("QF_AUFBV"), &ts).unwrap();
    assert_eq!(c.sort_variant_count, 1 + 1 + 1);
    assert_eq!(c.op_variant_count, 18 + 11 + 3);
    assert_eq!(c.tags, vec![bitvec::BITVEC_TAG, core_theory::CORE_TAG, array_ex::ARRAY_TAG]);
}

#[test]
fn compose_free_var_mapping_is_total() {
    let ts = shapes();
    let c = compose(String::from("QF_AUFBV"), &ts).unwrap();
    assert_eq!(c.free_var_ops.len(), ts.len());
    for (i, t) in ts.iter().enumerate() {
        assert_eq!(c.free_var_ops[i], (t.tag, t.free_var_op.unwrap()));
    }
}

#[test]
fn compose_overlapping_tag_fails_to_build() {
    let mut ts = shapes();
    ts.push(TheoryShape {
        tag: bitvec::BITVEC_TAG,
        sort_variants: 1,
        op_variants: 2,
        free_var_op: Some(1),
    });
    let r = compose(String::from("BROKEN"), &ts);
    assert_eq!(r.err().unwrap(), ComposeError::DuplicateTag);
}

#[test]
fn compose_missing_free_var_fails_to_build() {
    let mut ts = shapes();
    ts.push(TheoryShape { tag: 99, sort_variants: 1, op_variants: 2, free_var_op: None });
    let r = compose(String::from("BROKEN"), &ts);
    assert_eq!(r.err().unwrap(), ComposeError::MissingFreeVar);
}

#[test]
fn compose_free_var_outside_union_fails_to_build() {
    let mut ts = shapes();
    ts.push(TheoryShape { tag: 99, sort_variants: 1, op_variants: 2, free_var_op: Some(2) });
    let r = compose(String::from("BROKEN"), &ts);
    assert_eq!(r.err().unwrap(), ComposeError::FreeVarOutOfRange);
}

#[test]
fn qf_aufbv_descriptor() {
    let c = qf_aufbv_composed();
    assert_eq!(c.name.as_str(), "QF_AUFBV");
    assert_eq!(c.sort_variant_count, 3);
    assert_eq!(c.op_variant_count, 32);
    assert_eq!(c.free_var_ops, vec![(1, 17), (2, 10), (3, 2)]);
}

#[test]
fn qf_aufbv_free_var_follows_the_sort() {
    let bv = QF_AUFBV_Sorts::BV(bitvec::Sorts::BitVector(32));
    let r = QF_AUFBV::free_var(&bv, String::from("x"));
    assert!(matches!(r, QF_AUFBV_Fn::BVOps(bitvec::OpCodes::FreeVar(_))));

    let b = QF_AUFBV_Sorts::Core(core_theory::Sorts::Bool);
    let r = QF_AUFBV::free_var(&b, String::from("p"));
    assert!(matches!(r, QF_AUFBV_Fn::CoreOps(core_theory::OpCodes::FreeVar(_))));

    let idx = Box::new(QF_AUFBV_Sorts::BV(bitvec::Sorts::BitVector(32)));
    let elt = Box::new(QF_AUFBV_Sorts::BV(bitvec::Sorts::BitVector(8)));
    let arr = QF_AUFBV_Sorts::ArrayEx(array_ex::Sorts::Array(idx, elt));
    let r = QF_AUFBV::free_var(&arr, String::from("mem"));
    assert!(matches!(r, QF_AUFBV_Fn::ArrayOps(array_ex::OpCodes::FreeVar(_))));
}

#[test]
fn qf_aufbv_free_var_keeps_the_name() {
    let bv = QF_AUFBV_Sorts::BV(bitvec::Sorts::BitVector(4));
    match QF_AUFBV::free_var(&bv, String::from("probe")) {
        QF_AUFBV_Fn::BVOps(bitvec::OpCodes::FreeVar(n)) => assert_eq!(n.as_str(), "probe"),
        _ => panic!("free variable of a bit-vector sort must come from the bit-vector theory"),
    }
}
