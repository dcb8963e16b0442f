//! A propositional coherence verification engine.
//!
//! Given a collection of statements, each a conjunction of named, possibly
//! negated boolean atoms, the engine decides whether the statements can all
//! hold at once, localizes the mutually exclusive pairs when they cannot, and
//! decides directional entailment (premises force a conclusion) by
//! refutation. Around the engine stand the extractors: a statement parser
//! over fixed sentence patterns, and a code coherence checker that reads
//! contracts and implementation summaries out of source-like text.

pub mod types;
pub mod logic;
pub mod registry;
pub mod formula;
pub mod solver;
pub mod engine;
pub mod text;
pub mod parse;
pub mod contract;
pub mod codecheck;

pub use types::{Predicate, Statement, Contradiction, VerificationResult, VerifierError};
pub use engine::CoherenceVerifier;
pub use parse::parse_statement;
pub use contract::{ContractExtractor, FunctionContract};
pub use codecheck::{
    CodeCoherenceChecker, CodeVerificationResult, CoherenceViolation, ImplementationLogic,
    PredicateTranslator, ViolationType,
};
