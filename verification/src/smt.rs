//! The backend-facing vocabulary of the solving layer: recoverable solver
//! outcomes, the fixed set of named logics, the concrete variable types a
//! backend must understand, variable identifiers, models, and the two
//! capability contracts (`SMT` and `SMTBackend`).

use vstd::prelude::*;
use vstd::string::*;
use vstd::arithmetic::power2::pow2;

verus! {

/// The two recoverable outcomes of a satisfiability query: the assertion
/// set has no model at all, or the procedure could not decide.
#[derive(Clone, Copy, Debug, PartialEq, Eq, Structural)]
pub enum SMTError {
    Undefined,
    Unsat,
}

/// Result type of every solving operation.
pub type SMTResult<T> = Result<T, SMTError>;

/// The fixed set of named logics a backend can be asked to select,
/// following SMT-LIB naming.
#[derive(Clone, Copy, Debug, PartialEq, Eq, Structural)]
#[allow(non_camel_case_types)]
pub enum Logic {
    QF_BV,
    QF_AX,
    QF_ABV,
    QF_AUFB,
}

/// The exact characters of a logic's SMT-LIB name.
pub open spec fn spec_logic_name(l: Logic) -> Seq<char> {
    match l {
        Logic::QF_BV => "QF_BV"@,
        Logic::QF_AX => "QF_AX"@,
        Logic::QF_ABV => "QF_ABV"@,
        Logic::QF_AUFB => "QF_AUFB"@,
    }
}

impl Logic {
    /// The textual value handed to a backend when selecting this logic.
    pub fn render(&self) -> (r: String)
        ensures
            r@ == spec_logic_name(*self),
    {
        match *self {
            Logic::QF_BV => String::from_str("QF_BV"),
            Logic::QF_AX => String::from_str("QF_AX"),
            Logic::QF_ABV => String::from_str("QF_ABV"),
            Logic::QF_AUFB => String::from_str("QF_AUFB"),
        }
    }
}

/// The concrete value type announced to a backend when declaring a
/// variable: an unbounded integer, or a bit-vector of a fixed width.
#[derive(Clone, Copy, Debug, PartialEq, Eq, Structural)]
pub enum Type {
    Int,
    BitVector(u64),
}

/// The character standing for one decimal digit.
pub open spec fn spec_digit_char(d: nat) -> char
    recommends
        d < 10,
{
    if d == 0 {
        '0'
    } else if d == 1 {
        '1'
    } else if d == 2 {
        '2'
    } else if d == 3 {
        '3'
    } else if d == 4 {
        '4'
    } else if d == 5 {
        '5'
    } else if d == 6 {
        '6'
    } else if d == 7 {
        '7'
    } else if d == 8 {
        '8'
    } else {
        '9'
    }
}

/// The decimal digits of `n`, most significant first, with no leading
/// zeros (a single `'0'` for zero itself).
pub open spec fn spec_dec_digits(n: nat) -> Seq<char>
    decreases n,
{
    if n < 10 {
        seq![spec_digit_char(n)]
    } else {
        spec_dec_digits(n / 10).push(spec_digit_char(n % 10))
    }
}

/// Appends the decimal rendering of `n` to `s`.
fn push_dec(s: &mut String, n: u64)
    ensures
        final(s)@ == old(s)@ + spec_dec_digits(n as nat),
    decreases n,
{
    if n >= 10 {
        push_dec(s, n / 10);
    }
    let d: u64 = n % 10;
    let ds: &str = if d == 0 {
        "0"
    } else if d == 1 {
        "1"
    } else if d == 2 {
        "2"
    } else if d == 3 {
        "3"
    } else if d == 4 {
        "4"
    } else if d == 5 {
        "5"
    } else if d == 6 {
        "6"
    } else if d == 7 {
        "7"
    } else if d == 8 {
        "8"
    } else {
        "9"
    };
    proof {
        reveal_strlit("0");
        reveal_strlit("1");
        reveal_strlit("2");
        reveal_strlit("3");
        reveal_strlit("4");
        reveal_strlit("5");
        reveal_strlit("6");
        reveal_strlit("7");
        reveal_strlit("8");
        reveal_strlit("9");
        assert(ds@ =~= seq![spec_digit_char(d as nat)]);
    }
    s.append(ds);
    proof {
        if n < 10 {
            assert(old(s)@ + spec_dec_digits(n as nat) =~= old(s)@ + seq![
                spec_digit_char(n as nat),
            ]);
        } else {
            assert(old(s)@ + spec_dec_digits(n as nat) =~= (old(s)@ + spec_dec_digits(
                (n / 10) as nat,
            )) + seq![spec_digit_char((n % 10) as nat)]);
        }
    }
}

/// The exact decimal rendering of `n`.
pub fn dec_string(n: u64) -> (r: String)
    ensures
        r@ == spec_dec_digits(n as nat),
{
    let mut s = String::new();
    push_dec(&mut s, n);
    proof {
        assert(s@ =~= spec_dec_digits(n as nat));
    }
    s
}

/// The exact characters a backend sees for a declared type: `Int` for the
/// unbounded integer, `(_ BitVec n)` for the bit-vector of width `n`.
pub open spec fn spec_type_render(t: Type) -> Seq<char> {
    match t {
        Type::Int => "Int"@,
        Type::BitVector(n) => "(_ BitVec "@ + spec_dec_digits(n as nat) + ")"@,
    }
}

impl Type {
    /// The textual declaration form of this type, in SMT-LIB syntax.
    pub fn render(&self) -> (r: String)
        ensures
            r@ == spec_type_render(*self),
    {
        match *self {
            Type::Int => String::from_str("Int"),
            Type::BitVector(n) => {
                let mut s = String::from_str("(_ BitVec ");
                push_dec(&mut s, n);
                s.append(")");
                proof {
                    assert(s@ =~= spec_type_render(Type::BitVector(n)));
                }
                s
            },
        }
    }
}

/// An opaque, comparable handle a client uses to name a declared
/// variable. Uniqueness is the client's responsibility.
#[derive(Clone, Copy, Debug, PartialEq, Eq, Structural)]
pub struct Ident(pub u64);

/// An assignment of concrete 64-bit values to declared variables,
/// as returned by a successful solve.
pub struct Model {
    /// The variable-to-value bindings, in no particular order.
    pub pairs: Vec<(Ident, u64)>,
}

impl Model {
    /// Whether this model binds `id` to `v`.
    pub open spec fn has(&self, id: Ident, v: u64) -> bool {
        exists|i: int| 0 <= i < self.pairs@.len() && self.pairs@[i] == (id, v)
    }

    /// Whether this model binds `id` at all.
    pub open spec fn contains_id(&self, id: Ident) -> bool {
        exists|i: int| 0 <= i < self.pairs@.len() && (#[trigger] self.pairs@[i]).0 == id
    }

    /// An empty model, binding nothing.
    pub fn new() -> (r: Model)
        ensures
            r.pairs@.len() == 0,
    {
        Model { pairs: Vec::new() }
    }

    /// The value bound to `id`, if any binding for it exists.
    pub fn value_of(&self, id: Ident) -> (r: Option<u64>)
        ensures
            match r {
                Some(v) => self.has(id, v),
                None => !self.contains_id(id),
            },
    {
        let n = self.pairs.len();
        let mut i: usize = 0;
        while i < n
            invariant
                n == self.pairs@.len(),
                i <= n,
                forall|k: int| 0 <= k < i ==> (#[trigger] self.pairs@[k]).0 != id,
            decreases n - i,
        {
            if self.pairs[i].0 == id {
                return Some(self.pairs[i].1);
            }
            i += 1;
        }
        None
    }
}

/// Whether some entry of `s` declares `id`.
pub open spec fn seq_has_id(s: Seq<(Ident, Type)>, id: Ident) -> bool {
    exists|i: int| 0 <= i < s.len() && (#[trigger] s[i]).0 == id
}

/// The type the latest declaration gave `id`, defaulting to the integer
/// type when `id` was never declared.
pub open spec fn seq_type_of(s: Seq<(Ident, Type)>, id: Ident) -> Type
    decreases s.len(),
{
    if s.len() == 0 {
        Type::Int
    } else if s.last().0 == id {
        s.last().1
    } else {
        seq_type_of(s.drop_last(), id)
    }
}

/// The set of 64-bit values a variable of type `ty` may take in a model:
/// every value for an unbounded integer, the values below `2^n` for a
/// bit-vector of width `n`.
pub open spec fn type_domain(ty: Type) -> Set<u64> {
    match ty {
        Type::Int => Set::full(),
        Type::BitVector(n) => Set::new(|v: u64| (v as nat) < pow2(n as nat)),
    }
}

/// The contract a backend must satisfy to support SMT solving: select a
/// logic, declare variables with concrete types, record assertions, check
/// satisfiability, and hand back models. A raw text channel is the escape
/// hatch for solver-native syntax the typed operations do not cover.
///
/// The abstract state a conforming implementation exposes is: which logic
/// was selected, which identifiers are declared and with what type, and,
/// for every identifier, the set of values it takes across all models of
/// the current assertion set. An assertion may only shrink those sets.
pub trait SMTBackend: Sized {
    /// The backend-defined representation of one asserted formula.
    type Assertion;

    /// The logic selected for this session, if one has been.
    spec fn logic(&self) -> Option<Logic>;

    /// The identifiers declared so far.
    spec fn declared(&self) -> Set<Ident>;

    /// The concrete type a declared identifier was given.
    spec fn var_type(&self, id: Ident) -> Type;

    /// The values `id` takes across all models of the current assertions.
    spec fn sat_values(&self, id: Ident) -> Set<u64>;

    /// Whether the current assertion set has at least one model.
    spec fn satisfiable(&self) -> bool;

    /// Whether a satisfiability check has been run against the current
    /// assertion set, licensing a model query.
    spec fn checked(&self) -> bool;

    /// A value can only be taken by a variable if some model exists.
    proof fn lemma_value_needs_model(&self, id: Ident, v: u64)
        requires
            self.sat_values(id).contains(v),
        ensures
            self.satisfiable(),
    ;

    /// Models bind variables to 64-bit values, so the set of values a
    /// variable can take is always finite.
    proof fn lemma_sat_values_finite(&self, id: Ident)
        ensures
            self.sat_values(id).finite(),
    ;

    /// A model binds every declared variable, so a satisfiable session
    /// gives every declared variable at least one value.
    proof fn lemma_sat_gives_value(&self, id: Ident)
        requires
            self.satisfiable(),
            self.declared().contains(id),
        ensures
            exists|v: u64| self.sat_values(id).contains(v),
    ;

    /// Selects the logic for this session. It must come before any
    /// declaration, and a session's logic is never switched.
    fn set_logic(&mut self, l: Logic)
        requires
            old(self).logic() is None,
            old(self).declared().is_empty(),
        ensures
            final(self).logic() == Some(l),
            final(self).declared() == old(self).declared(),
            forall|x: Ident| final(self).var_type(x) == old(self).var_type(x),
            forall|x: Ident| final(self).sat_values(x) == old(self).sat_values(x),
            final(self).satisfiable() == old(self).satisfiable(),
    ;

    /// Declares `id` with the concrete type `ty`. Redeclaring an existing
    /// identifier is a caller error, so it is ruled out up front. The new
    /// variable's values stay within its type's domain, no variable's
    /// solution space grows, and declaring can never create
    /// satisfiability.
    fn new_var(&mut self, id: Ident, ty: Type)
        requires
            old(self).logic() is Some,
            !old(self).declared().contains(id),
        ensures
            final(self).logic() == old(self).logic(),
            final(self).declared() == old(self).declared().insert(id),
            final(self).var_type(id) == ty,
            forall|x: Ident| x != id ==> final(self).var_type(x) == old(self).var_type(x),
            final(self).sat_values(id).subset_of(type_domain(ty)),
            forall|x: Ident|
                #[trigger] final(self).sat_values(x).subset_of(old(self).sat_values(x)),
            final(self).satisfiable() ==> old(self).satisfiable(),
    ;

    /// Records one formula. The identifier is bookkeeping (a label for
    /// the assertion); the formula is what constrains the models. Adding
    /// a formula can only narrow the solution space.
    fn assert_formula(&mut self, label: Ident, a: Self::Assertion)
        ensures
            final(self).logic() == old(self).logic(),
            final(self).declared() == old(self).declared(),
            forall|x: Ident| final(self).var_type(x) == old(self).var_type(x),
            forall|x: Ident|
                #[trigger] final(self).sat_values(x).subset_of(old(self).sat_values(x)),
            final(self).satisfiable() ==> old(self).satisfiable(),
    ;

    /// Removes the value `v` from the solution space of `id` and nothing
    /// else from it: the blocking step of solution enumeration. Other
    /// variables' spaces can only narrow.
    fn exclude(&mut self, id: Ident, v: u64)
        requires
            old(self).declared().contains(id),
        ensures
            final(self).logic() == old(self).logic(),
            final(self).declared() == old(self).declared(),
            forall|x: Ident| final(self).var_type(x) == old(self).var_type(x),
            final(self).sat_values(id) == old(self).sat_values(id).remove(v),
            forall|x: Ident|
                x != id ==> #[trigger] final(self).sat_values(x).subset_of(
                    old(self).sat_values(x),
                ),
            final(self).satisfiable() ==> old(self).satisfiable(),
    ;

    /// Performs exactly one satisfiability check against the current
    /// assertions. It has no effect on the asserted set.
    fn check_sat(&mut self) -> (r: bool)
        ensures
            r == old(self).satisfiable(),
            final(self).logic() == old(self).logic(),
            final(self).declared() == old(self).declared(),
            forall|x: Ident| final(self).var_type(x) == old(self).var_type(x),
            forall|x: Ident| final(self).sat_values(x) == old(self).sat_values(x),
            final(self).satisfiable() == old(self).satisfiable(),
            final(self).checked(),
    ;

    /// Returns a model binding every declared identifier to exactly one
    /// value consistent with all assertions, or `Unsat` when no model
    /// exists, or `Undefined` when the procedure could not decide. It
    /// requires a prior satisfiability check and does not disturb the
    /// session.
    fn solve(&mut self) -> (r: SMTResult<Model>)
        requires
            old(self).checked(),
        ensures
            final(self).logic() == old(self).logic(),
            final(self).declared() == old(self).declared(),
            forall|x: Ident| final(self).var_type(x) == old(self).var_type(x),
            forall|x: Ident| final(self).sat_values(x) == old(self).sat_values(x),
            final(self).satisfiable() == old(self).satisfiable(),
            final(self).checked() == old(self).checked(),
            match r {
                Ok(m) => {
                    &&& old(self).satisfiable()
                    &&& forall|id: Ident, v: u64|
                        m.has(id, v) ==> #[trigger] old(self).sat_values(id).contains(v)
                    &&& forall|id: Ident|
                        old(self).declared().contains(id) ==> #[trigger] m.contains_id(id)
                    &&& forall|id: Ident, v1: u64, v2: u64|
                        #[trigger] m.has(id, v1) && #[trigger] m.has(id, v2) ==> v1 == v2
                },
                Err(SMTError::Unsat) => !old(self).satisfiable(),
                Err(SMTError::Undefined) => true,
            },
    ;

    /// Sends solver-native text. What it does to the session is up to the
    /// backend; nothing is promised of it.
    fn raw_write(&mut self, text: &str);

    /// Reads solver-native text.
    fn raw_read(&mut self) -> String;
}

/// The solving capability a constraint-holding context offers its
/// clients: one solution for a variable, every solution for a variable,
/// or a bare satisfiability verdict, each through any conforming backend.
pub trait SMT: Sized {
    /// The indexing mechanism by which the outside world refers to the
    /// variables inside the context.
    type Idx;

    /// The backend identifier an index stands for.
    spec fn ident_of(idx: &Self::Idx) -> Ident;

    /// Returns one value the indexed variable takes in some model of the
    /// current assertions, `Unsat` when there is none, or `Undefined`
    /// when the backend could not decide.
    fn solve_for<B: SMTBackend>(idx: &Self::Idx, backend: &mut B) -> (r: SMTResult<u64>)
        requires
            old(backend).declared().contains(Self::ident_of(idx)),
        ensures
            final(backend).declared() == old(backend).declared(),
            !old(backend).satisfiable() ==> r == Err::<u64, SMTError>(SMTError::Unsat),
            match r {
                Ok(v) => old(backend).satisfiable() && old(backend).sat_values(
                    Self::ident_of(idx),
                ).contains(v),
                Err(SMTError::Unsat) => !old(backend).satisfiable(),
                Err(SMTError::Undefined) => true,
            },
    ;

    /// Repeatedly queries the backend to obtain all possible values of
    /// the indexed variable, excluding each one once found: the result is
    /// duplicate-free, drawn entirely from the variable's solution space,
    /// and on success exhausts that space. An assertion set unsatisfiable
    /// at the first check yields the empty sequence, and only such a set
    /// does.
    fn solve_all_for<B: SMTBackend>(idx: &Self::Idx, backend: &mut B) -> (r: SMTResult<Vec<u64>>)
        requires
            old(backend).declared().contains(Self::ident_of(idx)),
        ensures
            final(backend).declared() == old(backend).declared(),
            !old(backend).satisfiable() ==> r is Ok,
            match r {
                Ok(vs) => {
                    &&& forall|i: int, j: int| 0 <= i < j < vs@.len() ==> vs@[i] != vs@[j]
                    &&& forall|i: int|
                        0 <= i < vs@.len() ==> old(backend).sat_values(
                            Self::ident_of(idx),
                        ).contains(vs@[i])
                    &&& forall|v: u64|
                        old(backend).sat_values(Self::ident_of(idx)).contains(v) ==> vs@.contains(
                            v,
                        )
                    &&& !final(backend).satisfiable()
                    &&& (vs@.len() == 0 <==> !old(backend).satisfiable())
                },
                Err(SMTError::Undefined) => true,
                Err(SMTError::Unsat) => false,
            },
    ;

    /// Checks whether the accumulated constraints are satisfiable,
    /// without disturbing the backend session.
    fn check_sat<B: SMTBackend>(&mut self, backend: &mut B) -> (r: SMTResult<bool>)
        ensures
            final(backend).logic() == old(backend).logic(),
            final(backend).declared() == old(backend).declared(),
            forall|x: Ident| final(backend).var_type(x) == old(backend).var_type(x),
            forall|x: Ident| final(backend).sat_values(x) == old(backend).sat_values(x),
            final(backend).satisfiable() == old(backend).satisfiable(),
            r is Ok,
            match r {
                Ok(b) => b == old(backend).satisfiable(),
                Err(_) => true,
            },
    ;
}

} // verus!
