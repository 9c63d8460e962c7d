use libsmt::constraint::{ConstraintModel, DeclError};
use libsmt::enumerate::{solve_all_for, solve_for};
use libsmt::smt::{Ident, Logic, SMTBackend, SMTError, Type, SMT};
use libsmt::table::{TableBackend, TableConstraint};

fn fresh(universe: Vec<u64>) -> TableBackend {
    let mut b = TableBackend::new(universe);
    b.set_logic(Logic::QF_AUFB);
    b
}

#[test]
fn scenario_int_equals_five() {
    let mut b = fresh((0..10).collect());
    let x = Ident(1);
    b.new_var(x, Type::Int);
    b.assert_formula(x, TableConstraint::Eq(5));
    b.assert_formula(x, TableConstraint::Gt(0));
    assert_eq!(solve_for(&x, &mut b), Ok(5));
}

#[test]
fn scenario_conflicting_assertions_are_unsat() {
    let mut b = fresh((0..10).collect());
    let x = Ident(1);
    b.new_var(x, Type::Int);
    b.assert_formula(x, TableConstraint::Eq(5));
    b.assert_formula(x, TableConstraint::Eq(6));
    assert!(!b.check_sat());
    assert_eq!(solve_for(&x, &mut b), Err(SMTError::Unsat));
}

#[test]
fn scenario_two_bit_vector_has_exactly_four_values() {
    let mut b = fresh((0..8).collect());
    let y = Ident(2);
    b.new_var(y, Type::BitVector(2));
    let mut vs = solve_all_for(&y, &mut b).unwrap();
    vs.sort();
    assert_eq!(vs, vec![0, 1, 2, 3]);
}

#[test]
fn solve_all_never_repeats_a_value() {
    let mut b = fresh(vec![3, 1, 4, 1, 5, 9, 2, 6, 5, 3, 5]);
    let x = Ident(7);
    b.new_var(x, Type::Int);
    let vs = solve_all_for(&x, &mut b).unwrap();
    for i in 0..vs.len() {
        for j in 0..i {
            assert_ne!(vs[i], vs[j]);
        }
    }
    let mut sorted = vs.clone();
    sorted.sort();
    assert_eq!(sorted, vec![1, 2, 3, 4, 5, 6, 9]);
}

#[test]
fn solve_all_stays_within_the_width_bound() {
    let mut b = fresh((0..100).collect());
    let x = Ident(3);
    b.new_var(x, Type::BitVector(3));
    let vs = solve_all_for(&x, &mut b).unwrap();
    assert!(vs.len() <= 8);
    for v in &vs {
        assert!(*v < 8);
    }
}

#[test]
fn each_enumerated_value_satisfies_a_fresh_solve() {
    let mut b = fresh((0..16).collect());
    let x = Ident(4);
    b.new_var(x, Type::BitVector(2));
    let vs = solve_all_for(&x, &mut b).unwrap();
    for v in &vs {
        let mut again = fresh((0..16).collect());
        again.new_var(x, Type::BitVector(2));
        again.assert_formula(x, TableConstraint::Eq(*v));
        assert_eq!(solve_for(&x, &mut again), Ok(*v));
    }
}

#[test]
fn blocked_value_never_reappears() {
    let mut b = fresh((0..4).collect());
    let x = Ident(5);
    b.new_var(x, Type::Int);
    b.exclude(x, 2);
    assert!(b.check_sat());
    let vs = solve_all_for(&x, &mut b).unwrap();
    assert!(!vs.contains(&2));
    let mut sorted = vs.clone();
    sorted.sort();
    assert_eq!(sorted, vec![0, 1, 3]);
}

#[test]
fn solve_all_reports_values_in_discovery_order() {
    let mut b = fresh(vec![3, 1, 2]);
    let x = Ident(8);
    b.new_var(x, Type::Int);
    assert_eq!(solve_all_for(&x, &mut b), Ok(vec![3, 1, 2]));
}

#[test]
fn excluding_a_value_twice_changes_nothing_more() {
    let mut b = fresh(vec![0, 1, 2]);
    let x = Ident(9);
    b.new_var(x, Type::Int);
    b.exclude(x, 1);
    b.exclude(x, 1);
    assert_eq!(solve_all_for(&x, &mut b), Ok(vec![0, 2]));
}

#[test]
fn unsatisfiable_from_the_start_yields_the_empty_sequence() {
    let mut b = fresh(Vec::new());
    let x = Ident(6);
    b.new_var(x, Type::Int);
    assert_eq!(solve_all_for(&x, &mut b), Ok(Vec::new()));
}

#[test]
fn solve_binds_every_declared_identifier() {
    let mut b = fresh((1..5).collect());
    let x = Ident(1);
    let y = Ident(2);
    b.new_var(x, Type::Int);
    b.new_var(y, Type::Int);
    assert!(b.check_sat());
    let m = b.solve().unwrap();
    assert!(m.value_of(x).is_some());
    assert!(m.value_of(y).is_some());
    assert!(m.value_of(Ident(3)).is_none());
}

#[test]
fn solve_without_a_model_reports_unsat() {
    let mut b = fresh((0..4).collect());
    let x = Ident(1);
    b.new_var(x, Type::Int);
    b.assert_formula(x, TableConstraint::Lt(0));
    assert!(!b.check_sat());
    assert!(matches!(b.solve(), Err(SMTError::Unsat)));
}

#[test]
fn raw_channel_is_inert_on_the_table_backend() {
    let mut b = fresh((0..2).collect());
    b.raw_write("(check-sat)");
    assert_eq!(b.raw_read().as_str(), "");
}

#[test]
fn constraint_model_rejects_redeclaration() {
    let mut m: ConstraintModel<TableConstraint> = ConstraintModel::new();
    assert_eq!(m.declare(Ident(1), Type::Int), Ok(()));
    assert_eq!(m.declare(Ident(1), Type::BitVector(8)), Err(DeclError::AlreadyDeclared));
    assert_eq!(m.declare(Ident(2), Type::BitVector(8)), Ok(()));
}

#[test]
fn constraint_model_rejects_asserting_over_undeclared() {
    let mut m: ConstraintModel<TableConstraint> = ConstraintModel::new();
    assert_eq!(m.add_assert(Ident(1), TableConstraint::Eq(5)), Err(DeclError::Undeclared));
    assert_eq!(m.declare(Ident(1), Type::Int), Ok(()));
    assert_eq!(m.add_assert(Ident(1), TableConstraint::Eq(5)), Ok(()));
    assert!(m.is_declared(Ident(1)));
    assert!(!m.is_declared(Ident(2)));
}

#[test]
fn context_solves_through_the_smt_contract() {
    let mut b = fresh((0..10).collect());
    let x = Ident(1);
    b.new_var(x, Type::Int);
    b.assert_formula(x, TableConstraint::Eq(5));
    let r = <ConstraintModel<TableConstraint> as SMT>::solve_for(&x, &mut b);
    assert_eq!(r, Ok(5));
    let all = <ConstraintModel<TableConstraint> as SMT>::solve_all_for(&x, &mut b);
    assert_eq!(all, Ok(vec![5]));
    let mut m: ConstraintModel<TableConstraint> = ConstraintModel::new();
    let mut b2 = fresh((0..3).collect());
    assert_eq!(m.check_sat(&mut b2), Ok(true));
}
