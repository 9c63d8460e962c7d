//! The constraint model: the mutable collection of named, typed variables
//! and asserted formulas a client accumulates before solving. It decides
//! nothing itself; it only guards declaration misuse — asserting over an
//! undeclared identifier, or redeclaring one — which is reported as a
//! distinct error, never silently accepted.

use vstd::prelude::*;
use crate::enumerate;
use crate::smt::Ident;
use crate::smt::SMT;
use crate::smt::SMTBackend;
use crate::smt::SMTResult;
use crate::smt::Type;
use crate::smt::seq_has_id;

verus! {

/// Declaration misuse, distinct from the solver outcomes.
#[derive(Clone, Copy, Debug, PartialEq, Eq, Structural)]
pub enum DeclError {
    /// The identifier was already declared.
    AlreadyDeclared,
    /// The identifier was never declared.
    Undeclared,
}

/// A passive accumulation of declared variables and asserted formulas,
/// generic over the backend-defined representation of one formula.
pub struct ConstraintModel<A> {
    vars: Vec<(Ident, Type)>,
    formulas: Vec<(Ident, A)>,
}

impl<A> ConstraintModel<A> {
    /// The declarations accumulated so far, in order.
    pub closed spec fn vars_view(&self) -> Seq<(Ident, Type)> {
        self.vars@
    }

    /// The labelled formulas accumulated so far, in order.
    pub closed spec fn formulas_view(&self) -> Seq<(Ident, A)> {
        self.formulas@
    }

    /// The identifiers declared so far.
    pub open spec fn declared(&self) -> Set<Ident> {
        Set::new(|x: Ident| seq_has_id(self.vars_view(), x))
    }

    /// An empty model: nothing declared, nothing asserted.
    pub fn new() -> (r: ConstraintModel<A>)
        ensures
            r.vars_view().len() == 0,
            r.formulas_view().len() == 0,
            r.declared().is_empty(),
    {
        let r = ConstraintModel { vars: Vec::new(), formulas: Vec::new() };
        proof {
            assert(r.declared() =~= Set::<Ident>::empty());
        }
        r
    }

    /// Whether `id` has been declared.
    pub fn is_declared(&self, id: Ident) -> (r: bool)
        ensures
            r == self.declared().contains(id),
    {
        let n = self.vars.len();
        let mut i: usize = 0;
        while i < n
            invariant
                n == self.vars@.len(),
                i <= n,
                forall|k: int| 0 <= k < i ==> (#[trigger] self.vars@[k]).0 != id,
            decreases n - i,
        {
            if self.vars[i].0 == id {
                return true;
            }
            i += 1;
        }
        false
    }

    /// Declares `id` with the concrete type `ty`. Redeclaring an existing
    /// identifier is reported and leaves the model unchanged.
    pub fn declare(&mut self, id: Ident, ty: Type) -> (r: Result<(), DeclError>)
        ensures
            r is Ok <==> !old(self).declared().contains(id),
            final(self).formulas_view() == old(self).formulas_view(),
            match r {
                Ok(_) => {
                    &&& final(self).vars_view() == old(self).vars_view().push((id, ty))
                    &&& final(self).declared() == old(self).declared().insert(id)
                },
                Err(e) => {
                    &&& e == DeclError::AlreadyDeclared
                    &&& final(self).vars_view() == old(self).vars_view()
                    &&& final(self).declared() == old(self).declared()
                },
            },
    {
        if self.is_declared(id) {
            return Err(DeclError::AlreadyDeclared);
        }
        let ghost pre = self.vars@;
        self.vars.push((id, ty));
        proof {
            assert forall|x: Ident|
                self.declared().contains(x) <==> old(self).declared().insert(id).contains(x) by {
                if seq_has_id(self.vars@, x) {
                    let i = choose|i: int| 0 <= i < self.vars@.len() && self.vars@[i].0 == x;
                    if i < pre.len() {
                        assert(seq_has_id(pre, x));
                    }
                }
                if seq_has_id(pre, x) {
                    let i = choose|i: int| 0 <= i < pre.len() && pre[i].0 == x;
                    assert(self.vars@[i].0 == x);
                }
                if x == id {
                    assert(self.vars@[pre.len() as int].0 == id);
                }
            }
            assert(self.declared() =~= old(self).declared().insert(id));
        }
        Ok(())
    }

    /// Records one formula against the declared identifier `id`.
    /// Asserting over an undeclared identifier is reported and leaves the
    /// model unchanged.
    pub fn add_assert(&mut self, id: Ident, a: A) -> (r: Result<(), DeclError>)
        ensures
            r is Ok <==> old(self).declared().contains(id),
            final(self).vars_view() == old(self).vars_view(),
            final(self).declared() == old(self).declared(),
            match r {
                Ok(_) => final(self).formulas_view() == old(self).formulas_view().push((id, a)),
                Err(e) => {
                    &&& e == DeclError::Undeclared
                    &&& final(self).formulas_view() == old(self).formulas_view()
                },
            },
    {
        if !self.is_declared(id) {
            return Err(DeclError::Undeclared);
        }
        self.formulas.push((id, a));
        proof {
            assert(self.declared() =~= old(self).declared());
        }
        Ok(())
    }
}

impl<A> SMT for ConstraintModel<A> {
    type Idx = Ident;

    open spec fn ident_of(idx: &Ident) -> Ident {
        *idx
    }

    fn solve_for<B: SMTBackend>(idx: &Ident, backend: &mut B) -> (r: SMTResult<u64>) {
        enumerate::solve_for(idx, backend)
    }

    fn solve_all_for<B: SMTBackend>(idx: &Ident, backend: &mut B) -> (r: SMTResult<Vec<u64>>) {
        enumerate::solve_all_for(idx, backend)
    }

    fn check_sat<B: SMTBackend>(&mut self, backend: &mut B) -> (r: SMTResult<bool>) {
        Ok(backend.check_sat())
    }
}

} // verus!
