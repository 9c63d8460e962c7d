//! A self-contained backend over an explicit finite universe of values.
//!
//! Every declared variable ranges over one shared candidate list: declaring
//! a variable narrows the list to the variable's type domain, asserting a
//! constraint filters it, and blocking a value removes it. A model binds
//! every declared variable to the first remaining candidate, so all
//! variables of a satisfiable session are equal. That degenerate but
//! fully verified behaviour satisfies the whole backend contract and gives
//! the enumeration layer something concrete to run against, without
//! implementing any actual decision procedure.

use vstd::prelude::*;
use vstd::arithmetic::power2::pow2;
use vstd::arithmetic::power2::lemma2_to64;
use vstd::arithmetic::power2::lemma_pow2_strictly_increases;
use vstd::bits::lemma_u64_pow2_no_overflow;
use vstd::bits::lemma_u64_shl_is_mul;
use crate::smt::Ident;
use crate::smt::Logic;
use crate::smt::Model;
use crate::smt::SMTBackend;
use crate::smt::SMTError;
use crate::smt::SMTResult;
use crate::smt::Type;
use crate::smt::type_domain;
use crate::smt::seq_has_id;
use crate::smt::seq_type_of;

verus! {

/// One constraint over the shared value: the value equals, differs from,
/// exceeds or stays below a constant.
#[derive(Clone, Copy, Debug, PartialEq, Eq, Structural)]
pub enum TableConstraint {
    Eq(u64),
    Ne(u64),
    Gt(u64),
    Lt(u64),
}

/// Whether the value `v` satisfies the constraint `c`.
pub open spec fn constraint_holds(c: TableConstraint, v: u64) -> bool {
    match c {
        TableConstraint::Eq(w) => v == w,
        TableConstraint::Ne(w) => v != w,
        TableConstraint::Gt(w) => v > w,
        TableConstraint::Lt(w) => v < w,
    }
}

/// The set of values a constraint admits.
pub open spec fn constraint_values(c: TableConstraint) -> Set<u64> {
    Set::new(|v: u64| constraint_holds(c, v))
}

/// Decides `constraint_holds` on a concrete value.
pub fn eval_constraint(c: &TableConstraint, v: u64) -> (r: bool)
    ensures
        r == constraint_holds(*c, v),
{
    match *c {
        TableConstraint::Eq(w) => v == w,
        TableConstraint::Ne(w) => v != w,
        TableConstraint::Gt(w) => v > w,
        TableConstraint::Lt(w) => v < w,
    }
}

/// The finite shared-domain backend.
pub struct TableBackend {
    /// The logic selected for this session, if any.
    chosen: Option<Logic>,
    /// The declared variables with their concrete types.
    vars: Vec<(Ident, Type)>,
    /// The candidate values still satisfying everything asserted.
    cands: Vec<u64>,
    /// Whether a satisfiability check has been run since the last change.
    was_checked: bool,
}

impl TableBackend {
    /// A fresh session over the given universe of candidate values:
    /// no logic selected, nothing declared, nothing asserted.
    pub fn new(universe: Vec<u64>) -> (r: TableBackend)
        ensures
            r.logic() is None,
            r.declared().is_empty(),
            forall|x: Ident| #[trigger] r.sat_values(x) == universe@.to_set(),
            r.satisfiable() == (universe@.len() > 0),
            !r.checked(),
    {
        let r = TableBackend { chosen: None, vars: Vec::new(), cands: universe, was_checked: false };
        proof {
            assert(r.declared() =~= Set::<Ident>::empty());
        }
        r
    }

    /// Keeps exactly the candidates below `bound`.
    fn restrict_below(&mut self, bound: u64)
        ensures
            final(self).chosen == old(self).chosen,
            final(self).vars == old(self).vars,
            final(self).was_checked == old(self).was_checked,
            forall|x: u64|
                #![trigger final(self).cands@.contains(x)]
                #![trigger old(self).cands@.contains(x)]
                final(self).cands@.contains(x) <==> old(self).cands@.contains(x) && x < bound,
    {
        let n = self.cands.len();
        let mut kept: Vec<u64> = Vec::new();
        let mut i: usize = 0;
        while i < n
            invariant
                n == self.cands@.len(),
                i <= n,
                forall|x: u64|
                    kept@.contains(x) <==> (exists|k: int|
                        0 <= k < i && #[trigger] self.cands@[k] == x && x < bound),
            decreases n - i,
        {
            let v = self.cands[i];
            if v < bound {
                proof {
                    vstd::seq_lib::lemma_seq_contains_after_push(kept@, v, v);
                }
                let ghost pre = kept@;
                kept.push(v);
                proof {
                    assert forall|x: u64| kept@.contains(x) implies (exists|k: int|
                        0 <= k < i + 1 && #[trigger] self.cands@[k] == x && x < bound) by {
                        vstd::seq_lib::lemma_seq_contains_after_push(pre, v, x);
                    }
                    assert forall|x: u64|
                        (exists|k: int| 0 <= k < i + 1 && #[trigger] self.cands@[k] == x && x < bound)
                        implies kept@.contains(x) by {
                        vstd::seq_lib::lemma_seq_contains_after_push(pre, v, x);
                    }
                }
            } else {
                proof {
                    assert forall|x: u64|
                        (exists|k: int| 0 <= k < i + 1 && #[trigger] self.cands@[k] == x && x < bound)
                        implies kept@.contains(x) by {}
                }
            }
            i += 1;
        }
        self.cands = kept;
    }

    /// Keeps exactly the candidates satisfying `c`.
    fn restrict_to(&mut self, c: &TableConstraint)
        ensures
            final(self).chosen == old(self).chosen,
            final(self).vars == old(self).vars,
            final(self).was_checked == old(self).was_checked,
            forall|x: u64|
                #![trigger final(self).cands@.contains(x)]
                #![trigger old(self).cands@.contains(x)]
                final(self).cands@.contains(x) <==> old(self).cands@.contains(x)
                    && constraint_holds(*c, x),
    {
        let n = self.cands.len();
        let mut kept: Vec<u64> = Vec::new();
        let mut i: usize = 0;
        while i < n
            invariant
                n == self.cands@.len(),
                i <= n,
                forall|x: u64|
                    kept@.contains(x) <==> (exists|k: int|
                        0 <= k < i && #[trigger] self.cands@[k] == x && constraint_holds(*c, x)),
            decreases n - i,
        {
            let v = self.cands[i];
            if eval_constraint(c, v) {
                let ghost pre = kept@;
                kept.push(v);
                proof {
                    assert forall|x: u64| kept@.contains(x) implies (exists|k: int|
                        0 <= k < i + 1 && #[trigger] self.cands@[k] == x && constraint_holds(
                            *c,
                            x,
                        )) by {
                        vstd::seq_lib::lemma_seq_contains_after_push(pre, v, x);
                    }
                    assert forall|x: u64|
                        (exists|k: int|
                            0 <= k < i + 1 && #[trigger] self.cands@[k] == x && constraint_holds(
                                *c,
                                x,
                            )) implies kept@.contains(x) by {
                        vstd::seq_lib::lemma_seq_contains_after_push(pre, v, x);
                    }
                }
            }
            i += 1;
        }
        self.cands = kept;
    }
}

impl SMTBackend for TableBackend {
    type Assertion = TableConstraint;

    closed spec fn logic(&self) -> Option<Logic> {
        self.chosen
    }

    closed spec fn declared(&self) -> Set<Ident> {
        Set::new(|x: Ident| seq_has_id(self.vars@, x))
    }

    closed spec fn var_type(&self, id: Ident) -> Type {
        seq_type_of(self.vars@, id)
    }

    closed spec fn sat_values(&self, id: Ident) -> Set<u64> {
        self.cands@.to_set()
    }

    closed spec fn satisfiable(&self) -> bool {
        self.cands@.len() > 0
    }

    closed spec fn checked(&self) -> bool {
        self.was_checked
    }

    proof fn lemma_value_needs_model(&self, id: Ident, v: u64) {
        assert(self.cands@.contains(v));
    }

    proof fn lemma_sat_values_finite(&self, id: Ident) {
        vstd::seq_lib::seq_to_set_is_finite(self.cands@);
    }

    proof fn lemma_sat_gives_value(&self, id: Ident) {
        assert(self.cands@.contains(self.cands@[0]));
        assert(self.sat_values(id).contains(self.cands@[0]));
    }

    fn set_logic(&mut self, l: Logic) {
        self.chosen = Some(l);
    }

    fn new_var(&mut self, id: Ident, ty: Type)
        ensures
            forall|x: Ident|
                #[trigger] final(self).sat_values(x) == old(self).sat_values(x).intersect(
                    type_domain(ty),
                ),
    {
        let ghost pre_vars = self.vars@;
        match ty {
            Type::Int => {},
            Type::BitVector(n) => {
                if n < 64 {
                    proof {
                        lemma_u64_pow2_no_overflow(n as nat);
                        lemma_u64_shl_is_mul(1u64, n);
                    }
                    let bound = 1u64 << n;
                    self.restrict_below(bound);
                    proof {
                        assert forall|x: u64| self.cands@.to_set().contains(x)
                            implies type_domain(ty).contains(x) by {}
                    }
                } else {
                    proof {
                        lemma2_to64();
                        if n > 64 {
                            lemma_pow2_strictly_increases(64, n as nat);
                        }
                        assert forall|x: u64| self.cands@.to_set().contains(x)
                            implies type_domain(ty).contains(x) by {
                            assert((x as nat) < pow2(64));
                        }
                    }
                }
            },
        }
        proof {
            assert forall|x: u64|
                self.cands@.to_set().contains(x) <==> old(self).cands@.to_set().contains(x)
                    && type_domain(ty).contains(x) by {
                if old(self).cands@.contains(x) && type_domain(ty).contains(x) {
                    match ty {
                        Type::Int => {
                            assert(self.cands@.contains(x));
                        },
                        Type::BitVector(n) => {
                            if n < 64 {
                                assert((x as nat) < pow2(n as nat));
                                assert(self.cands@.contains(x));
                            } else {
                                assert(self.cands@.contains(x));
                            }
                        },
                    }
                }
            }
            assert(self.cands@.to_set() =~= old(self).cands@.to_set().intersect(
                type_domain(ty),
            ));
        }
        self.vars.push((id, ty));
        proof {
            assert(self.vars@.drop_last() =~= pre_vars);
            assert(self.vars@.last() == (id, ty));
            assert forall|x: Ident| x != id implies self.var_type(x) == seq_type_of(
                pre_vars,
                x,
            ) by {}
            assert forall|x: Ident| self.declared().contains(x) <==> old(
                self,
            ).declared().insert(id).contains(x) by {
                if seq_has_id(self.vars@, x) {
                    let i = choose|i: int| 0 <= i < self.vars@.len() && self.vars@[i].0 == x;
                    if i < pre_vars.len() {
                        assert(seq_has_id(pre_vars, x));
                    }
                }
                if seq_has_id(pre_vars, x) {
                    let i = choose|i: int| 0 <= i < pre_vars.len() && pre_vars[i].0 == x;
                    assert(self.vars@[i].0 == x);
                }
                if x == id {
                    assert(self.vars@[pre_vars.len() as int].0 == id);
                }
            }
            assert(self.declared() =~= old(self).declared().insert(id));
            if self.cands@.len() > 0 {
                let y = self.cands@[0];
                assert(self.cands@.contains(y));
                assert(old(self).cands@.contains(y));
            }
        }
    }

    fn assert_formula(&mut self, label: Ident, a: TableConstraint)
        ensures
            forall|x: Ident|
                #[trigger] final(self).sat_values(x) == old(self).sat_values(x).intersect(
                    constraint_values(a),
                ),
    {
        self.restrict_to(&a);
        self.was_checked = false;
        proof {
            assert forall|x: Ident|
                self.sat_values(x) == old(self).sat_values(x).intersect(
                    constraint_values(a),
                ) by {
                assert forall|y: u64|
                    self.sat_values(x).contains(y) <==> old(self).sat_values(x).intersect(
                        constraint_values(a),
                    ).contains(y) by {
                    assert(self.cands@.contains(y) <==> old(self).cands@.contains(y)
                        && constraint_holds(a, y));
                }
                assert(self.sat_values(x) =~= old(self).sat_values(x).intersect(
                    constraint_values(a),
                ));
            }
            assert forall|x: Ident| self.sat_values(x).subset_of(
                old(self).sat_values(x),
            ) by {
                assert forall|y: u64|
                    self.sat_values(x).contains(y) implies old(self).sat_values(x).contains(
                    y,
                ) by {
                    assert(self.cands@.contains(y));
                    assert(old(self).cands@.contains(y));
                }
            }
            if self.cands@.len() > 0 {
                let y = self.cands@[0];
                assert(self.cands@.contains(y));
                assert(old(self).cands@.contains(y));
            }
        }
    }

    fn exclude(&mut self, id: Ident, v: u64) {
        self.restrict_to(&TableConstraint::Ne(v));
        self.was_checked = false;
        proof {
            assert forall|x: u64|
                self.sat_values(id).contains(x) <==> old(self).sat_values(id).remove(
                    v,
                ).contains(x) by {
                assert(self.cands@.contains(x) <==> old(self).cands@.contains(x) && x != v);
            }
            assert(self.sat_values(id) =~= old(self).sat_values(id).remove(v));
            assert forall|x: Ident| self.sat_values(x).subset_of(
                old(self).sat_values(x),
            ) by {
                assert forall|y: u64|
                    self.sat_values(x).contains(y) implies old(self).sat_values(x).contains(
                    y,
                ) by {
                    assert(self.cands@.contains(y));
                    assert(old(self).cands@.contains(y));
                }
            }
            if self.cands@.len() > 0 {
                let y = self.cands@[0];
                assert(self.cands@.contains(y));
                assert(old(self).cands@.contains(y));
            }
        }
    }

    fn check_sat(&mut self) -> (r: bool) {
        self.was_checked = true;
        self.cands.len() > 0
    }

    fn solve(&mut self) -> (r: SMTResult<Model>)
        ensures
            r is Ok <==> old(self).satisfiable(),
            r is Err ==> r->Err_0 == SMTError::Unsat,
    {
        if self.cands.len() == 0 {
            return Err(SMTError::Unsat);
        }
        let v = self.cands[0];
        proof {
            assert(self.cands@.contains(v));
        }
        let n = self.vars.len();
        let mut pairs: Vec<(Ident, u64)> = Vec::new();
        let mut i: usize = 0;
        while i < n
            invariant
                n == self.vars@.len(),
                i <= n,
                pairs@.len() == i,
                forall|k: int| 0 <= k < i ==> pairs@[k] == (self.vars@[k].0, v),
            decreases n - i,
        {
            pairs.push((self.vars[i].0, v));
            i += 1;
        }
        let m = Model { pairs };
        proof {
            assert forall|x: Ident| old(self).declared().contains(x) implies m.contains_id(x) by {
                let i = choose|i: int| 0 <= i < self.vars@.len() && self.vars@[i].0 == x;
                assert(m.pairs@[i] == (self.vars@[i].0, v));
            }
            assert forall|x: Ident, w: u64| m.has(x, w) implies old(self).sat_values(x).contains(
                w,
            ) by {
                assert(self.cands@.contains(v));
            }
        }
        Ok(m)
    }

    fn raw_write(&mut self, text: &str) {
    }

    fn raw_read(&mut self) -> String {
        String::new()
    }
}

} // verus!
