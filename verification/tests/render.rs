use libsmt::smt::{dec_string, Logic, Type};
use libsmt::enumerate::blocking_clause;

#[test]
fn type_render_bitvector_32_exact() {
    let t = Type::BitVector(32);
    assert_eq!(t.render().as_str(), "(_ BitVec 32)");
}

#[test]
fn type_render_int_exact() {
    let t = Type::Int;
    assert_eq!(t.render().as_str(), "Int");
}

#[test]
fn type_render_edge_widths() {
    assert_eq!(Type::BitVector(0).render().as_str(), "(_ BitVec 0)");
    assert_eq!(Type::BitVector(1).render().as_str(), "(_ BitVec 1)");
    assert_eq!(Type::BitVector(64).render().as_str(), "(_ BitVec 64)");
    assert_eq!(
        Type::BitVector(u64::MAX).render().as_str(),
        "(_ BitVec 18446744073709551615)"
    );
}

#[test]
fn logic_names_render_exactly() {
    assert_eq!(Logic::QF_BV.render().as_str(), "QF_BV");
    assert_eq!(Logic::QF_AX.render().as_str(), "QF_AX");
    assert_eq!(Logic::QF_ABV.render().as_str(), "QF_ABV");
    assert_eq!(Logic::QF_AUFB.render().as_str(), "QF_AUFB");
}

#[test]
fn dec_string_exact_values() {
    assert_eq!(dec_string(0).as_str(), "0");
    assert_eq!(dec_string(7).as_str(), "7");
    assert_eq!(dec_string(10).as_str(), "10");
    assert_eq!(dec_string(305441).as_str(), "305441");
    assert_eq!(dec_string(u64::MAX).as_str(), "18446744073709551615");
}

#[test]
fn blocking_clause_canonical_form() {
    assert_eq!(
        blocking_clause("x", 5).as_str(),
        "(assert (not (= x 5)))"
    );
    assert_eq!(
        blocking_clause("arr0", 0).as_str(),
        "(assert (not (= arr0 0)))"
    );
}
