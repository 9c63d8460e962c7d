//! A typed core for describing Satisfiability-Modulo-Theories (SMT) problems.
//!
//! Independent theory modules (Boolean core, fixed-width bit-vectors,
//! extensional arrays) each contribute their own sorts and operator codes.
//! A composition step merges them into one closed sort universe and one
//! closed operator universe for a named logic, recording for every sort
//! which operator stands for an unconstrained free variable of that sort.
//! A constraint model accumulates declared variables and assertions, and a
//! solution enumerator drives any conforming backend to produce one or all
//! satisfying values for a variable, excluding each value once found.

pub mod array_ex;
pub mod bitvec;
pub mod compose;
pub mod constraint;
pub mod core_theory;
pub mod enumerate;
pub mod qf_aufbv;
pub mod smt;
pub mod table;
