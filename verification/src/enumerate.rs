//! The solution enumerator: obtain one satisfying value for a variable,
//! or the complete set of distinct values it can take across all models,
//! by querying a backend repeatedly and excluding each value once found.

use vstd::prelude::*;
use vstd::string::*;
use vstd::arithmetic::power2::pow2;
use vstd::set_lib::lemma_len_subset;
use vstd::set_lib::lemma_int_range;
use vstd::set_lib::set_int_range;
use crate::smt::Ident;
use crate::smt::Model;
use crate::smt::SMTBackend;
use crate::smt::SMTError;
use crate::smt::SMTResult;
use crate::smt::Type;
use crate::smt::type_domain;
use crate::smt::dec_string;
use crate::smt::spec_dec_digits;

verus! {

/// Returns one value `id` takes in some model of the current assertions,
/// or `Unsat` when there is none, or `Undefined` when the backend could
/// not decide. The session itself is not disturbed.
pub fn solve_for<B: SMTBackend>(id: &Ident, backend: &mut B) -> (r: SMTResult<u64>)
    requires
        old(backend).declared().contains(*id),
    ensures
        final(backend).logic() == old(backend).logic(),
        final(backend).declared() == old(backend).declared(),
        forall|x: Ident| final(backend).var_type(x) == old(backend).var_type(x),
        forall|x: Ident| final(backend).sat_values(x) == old(backend).sat_values(x),
        final(backend).satisfiable() == old(backend).satisfiable(),
        !old(backend).satisfiable() ==> r == Err::<u64, SMTError>(SMTError::Unsat),
        match r {
            Ok(v) => old(backend).satisfiable() && old(backend).sat_values(*id).contains(v),
            Err(SMTError::Unsat) => !old(backend).satisfiable(),
            Err(SMTError::Undefined) => true,
        },
{
    if !backend.check_sat() {
        return Err(SMTError::Unsat);
    }
    match backend.solve() {
        Ok(m) => {
            match m.value_of(*id) {
                Some(v) => Ok(v),
                None => {
                    proof {
                        assert(false);
                    }
                    Err(SMTError::Undefined)
                },
            }
        },
        Err(e) => {
            match e {
                SMTError::Unsat => {
                    proof {
                        assert(false);
                    }
                    Err(SMTError::Undefined)
                },
                SMTError::Undefined => Err(SMTError::Undefined),
            }
        },
    }
}

/// Returns every distinct value `id` can take across all models of the
/// current assertions, in order of discovery. An assertion set
/// unsatisfiable at the first check yields the empty sequence — success
/// with zero results, not an error — and only such a set does;
/// `Undefined` is reported only when the backend could not decide some
/// check along the way. Each value found is excluded before
/// the next check, so no value is ever reported twice, and on success the
/// backend's solution space for `id` has been emptied. Nothing bounds the
/// iteration: a variable over an infinite domain may enumerate forever,
/// while fixed-width bit-vector domains are finite and must exhaust.
pub fn solve_all_for<B: SMTBackend>(id: &Ident, backend: &mut B) -> (r: SMTResult<Vec<u64>>)
    requires
        old(backend).declared().contains(*id),
    ensures
        final(backend).logic() == old(backend).logic(),
        final(backend).declared() == old(backend).declared(),
        forall|x: Ident| final(backend).var_type(x) == old(backend).var_type(x),
        !old(backend).satisfiable() ==> r is Ok,
        match r {
            Ok(vs) => {
                &&& forall|i: int, j: int| 0 <= i < j < vs@.len() ==> vs@[i] != vs@[j]
                &&& forall|i: int|
                    0 <= i < vs@.len() ==> old(backend).sat_values(*id).contains(vs@[i])
                &&& forall|v: u64| old(backend).sat_values(*id).contains(v) ==> vs@.contains(v)
                &&& final(backend).sat_values(*id) == old(backend).sat_values(*id).difference(
                    vs@.to_set(),
                )
                &&& !final(backend).satisfiable()
                &&& (vs@.len() == 0 <==> !old(backend).satisfiable())
            },
            Err(SMTError::Undefined) => true,
            Err(SMTError::Unsat) => false,
        },
{
    let mut out: Vec<u64> = Vec::new();
    proof {
        assert(backend.sat_values(*id) =~= old(backend).sat_values(*id).difference(
            out@.to_set(),
        ));
    }
    proof {
        backend.lemma_sat_values_finite(*id);
    }
    loop
        invariant
            backend.declared().contains(*id),
            backend.logic() == old(backend).logic(),
            backend.declared() == old(backend).declared(),
            forall|x: Ident| backend.var_type(x) == old(backend).var_type(x),
            forall|i: int, j: int| 0 <= i < j < out@.len() ==> out@[i] != out@[j],
            forall|i: int| 0 <= i < out@.len() ==> old(backend).sat_values(*id).contains(out@[i]),
            backend.sat_values(*id) == old(backend).sat_values(*id).difference(out@.to_set()),
            backend.sat_values(*id).finite(),
            backend.satisfiable() ==> old(backend).satisfiable(),
        decreases backend.sat_values(*id).len(),
    {
        if !backend.check_sat() {
            proof {
                assert forall|v: u64|
                    old(backend).sat_values(*id).contains(v) implies out@.contains(v) by {
                    if !out@.contains(v) {
                        assert(backend.sat_values(*id).contains(v));
                        backend.lemma_value_needs_model(*id, v);
                    }
                }
                if out@.len() == 0 {
                    if old(backend).satisfiable() {
                        old(backend).lemma_sat_gives_value(*id);
                        let v = choose|v: u64| old(backend).sat_values(*id).contains(v);
                        assert(!out@.contains(v));
                        assert(backend.sat_values(*id).contains(v));
                        backend.lemma_value_needs_model(*id, v);
                    }
                } else {
                    assert(old(backend).sat_values(*id).contains(out@[0]));
                    old(backend).lemma_value_needs_model(*id, out@[0]);
                }
            }
            return Ok(out);
        }
        let step = backend.solve();
        match step {
            Ok(m) => {
                match m.value_of(*id) {
                    Some(v) => {
                        proof {
                            assert(backend.sat_values(*id).contains(v));
                            assert(!out@.to_set().contains(v));
                            assert(out@.push(v) =~= out@ + seq![v]);
                            Seq::<u64>::lemma_to_set_insert_commutes(out@, v);
                            assert(old(backend).sat_values(*id).difference(
                                out@.to_set(),
                            ).remove(v) =~= old(backend).sat_values(*id).difference(
                                out@.push(v).to_set(),
                            ));
                        }
                        out.push(v);
                        backend.exclude(*id, v);
                        proof {
                            backend.lemma_sat_values_finite(*id);
                        }
                    },
                    None => {
                        proof {
                            assert(false);
                        }
                        return Err(SMTError::Undefined);
                    },
                }
            },
            Err(e) => {
                proof {
                    if e is Unsat {
                        assert(false);
                    }
                }
                return Err(SMTError::Undefined);
            },
        }
    }
}

/// The exact characters of the canonical blocking assertion excluding one
/// found value of a variable.
pub open spec fn spec_blocking_clause(name: Seq<char>, v: nat) -> Seq<char> {
    "(assert (not (= "@ + name + " "@ + spec_dec_digits(v) + ")))"@
}

/// The canonical blocking text for adapters whose typed contract has no
/// blocking primitive: the SMT-LIB assertion that the named variable
/// differs from the value `v`, to be injected through the raw channel.
/// The encoding is fixed here once, so every enumeration iteration uses
/// the same form.
pub fn blocking_clause(name: &str, v: u64) -> (r: String)
    ensures
        r@ == spec_blocking_clause(name@, v as nat),
{
    let mut s = String::from_str("(assert (not (= ");
    s.append(name);
    s.append(" ");
    let d = dec_string(v);
    s.append(d.as_str());
    s.append(")))");
    proof {
        assert(s@ =~= spec_blocking_clause(name@, v as nat));
    }
    s
}

/// A sequence of pairwise distinct values, each below `bound`, cannot be
/// longer than `bound` itself.
pub proof fn lemma_distinct_bounded(vs: Seq<u64>, bound: nat)
    requires
        forall|i: int, j: int| 0 <= i < j < vs.len() ==> vs[i] != vs[j],
        forall|i: int| 0 <= i < vs.len() ==> (vs[i] as nat) < bound,
    ensures
        vs.len() <= bound,
{
    let vi = vs.map_values(|v: u64| v as int);
    assert forall|i: int, j: int|
        (0 <= i < vi.len() && 0 <= j < vi.len() && i != j) implies vi[i] != vi[j] by {
        if i < j {
            assert(vs[i] != vs[j]);
        } else {
            assert(vs[j] != vs[i]);
        }
    }
    vi.unique_seq_to_set();
    assert forall|x: int| vi.to_set().contains(x) implies set_int_range(
        0,
        bound as int,
    ).contains(x) by {
        let i = choose|i: int| 0 <= i < vi.len() && vi[i] == x;
        assert((vs[i] as nat) < bound);
    }
    lemma_int_range(0, bound as int);
    lemma_len_subset(vi.to_set(), set_int_range(0, bound as int));
}

/// A variable declared as a bit-vector of width `n` can take at most
/// `2^n` distinct values: whenever enumeration starts from a solution
/// space within that type's domain and returns pairwise distinct values
/// out of it, the number of values returned is bounded by `2^n`.
pub proof fn lemma_bitvec_enumeration_bound(dom: Set<u64>, vs: Seq<u64>, n: u64)
    requires
        dom.subset_of(type_domain(Type::BitVector(n))),
        forall|i: int| 0 <= i < vs.len() ==> dom.contains(vs[i]),
        forall|i: int, j: int| 0 <= i < j < vs.len() ==> vs[i] != vs[j],
    ensures
        vs.len() <= pow2(n as nat),
{
    assert forall|i: int| 0 <= i < vs.len() implies (vs[i] as nat) < pow2(n as nat) by {
        assert(type_domain(Type::BitVector(n)).contains(vs[i]));
    }
    lemma_distinct_bounded(vs, pow2(n as nat));
}

/// Over a whole enumeration run, a finite solution space loses exactly
/// one value per returned result: the space left after excluding every
/// returned value is smaller than the starting space by exactly the
/// number of results.
pub proof fn lemma_enumeration_shrinks_exactly(before: Set<u64>, vs: Seq<u64>)
    requires
        before.finite(),
        forall|i: int, j: int| 0 <= i < j < vs.len() ==> vs[i] != vs[j],
        forall|i: int| 0 <= i < vs.len() ==> before.contains(vs[i]),
    ensures
        before.difference(vs.to_set()).len() + vs.len() == before.len(),
    decreases vs.len(),
{
    if vs.len() == 0 {
        assert(vs.to_set() =~= Set::<u64>::empty());
        assert(before.difference(vs.to_set()) =~= before);
    } else {
        let rest = vs.drop_last();
        let v = vs.last();
        lemma_enumeration_shrinks_exactly(before, rest);
        assert(rest.push(v) =~= rest + seq![v]);
        Seq::<u64>::lemma_to_set_insert_commutes(rest, v);
        assert(vs =~= rest + seq![v]);
        assert(before.difference(vs.to_set()) =~= before.difference(rest.to_set()).remove(v));
        assert(!rest.contains(v)) by {
            if rest.contains(v) {
                let i = choose|i: int| 0 <= i < rest.len() && rest[i] == v;
                assert(vs[i] == vs[vs.len() - 1]);
            }
        }
        vstd::set_lib::lemma_set_subset_finite(before, before.difference(rest.to_set()));
        assert(before.difference(rest.to_set()).contains(v));
    }
}

/// Blocking is final: once the blocking step has covered a value `v`, the
/// solution space no longer contains `v`, so no later check can reproduce
/// it; and when `v` was live, blocking it shrinks a finite solution space
/// by exactly one value.
pub proof fn lemma_blocking_covers(space: Set<u64>, v: u64)
    ensures
        !space.remove(v).contains(v),
        space.finite() && space.contains(v) ==> space.remove(v).len() == space.len() - 1,
{
}

} // verus!


