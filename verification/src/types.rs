//! The data model of the engine: predicates, statements, and the results a
//! verification call produces.

use vstd::prelude::*;

verus! {

/// A use of a named boolean atom inside a statement.
///
/// The atom itself is identified by the pair `(name, args)`; `negated` is a
/// property of this particular use, not of the atom.
#[derive(Debug, Clone)]
pub struct Predicate {
    pub name: String,
    pub args: Vec<String>,
    pub negated: bool,
}

/// One claim: a conjunction of literals. An empty predicate list denotes the
/// trivially true statement.
#[derive(Debug, Clone)]
pub struct Statement {
    pub id: String,
    pub text: String,
    pub predicates: Vec<Predicate>,
}

/// A pair of statements whose conjunction is unsatisfiable in isolation.
#[derive(Debug, Clone)]
pub struct Contradiction {
    pub statement1: String,
    pub statement2: String,
    pub reason: String,
    pub formal_proof: String,
}

/// The outcome of a consistency or entailment check.
///
/// `confidence` is binary by design: `true` stands for a definite verdict
/// (full confidence), `false` for an undecided one (no confidence).
#[derive(Debug, Clone)]
pub struct VerificationResult {
    pub is_consistent: bool,
    pub proof: Option<String>,
    pub contradictions: Vec<Contradiction>,
    pub confidence: bool,
}

/// A verification call fails outright on malformed input; partial results are
/// never returned.
#[derive(Debug)]
pub enum VerifierError {
    /// Some predicate has a zero-length name.
    MalformedStatement,
}

impl VerifierError {
    /// A descriptive message for the caller.
    pub fn describe(&self) -> (r: String)
        ensures
            r@ == "a predicate references a zero-length name"@,
    {
        String::from_str("a predicate references a zero-length name")
    }
}

impl Predicate {
    /// Whether this predicate carries a valid signature.
    pub open spec fn wf(self) -> bool {
        self.name@.len() > 0
    }
}

impl Statement {
    /// Whether every predicate of this statement carries a valid signature.
    pub open spec fn wf(self) -> bool {
        forall|k: int| 0 <= k < self.predicates@.len() ==> (#[trigger] self.predicates@[k]).wf()
    }
}

/// Whether every statement of a set is well formed.
pub open spec fn all_wf(ss: Seq<Statement>) -> bool {
    forall|i: int| 0 <= i < ss.len() ==> (#[trigger] ss[i]).wf()
}

} // verus!
