//! The coherence verifier: the engine's entry points.
//!
//! `verify_statements` decides consistency of a statement set and, when the
//! set is inconsistent, localizes the mutually exclusive pairs;
//! `find_contradictions` runs the pairwise localization on its own; and
//! `verify_reasoning_chain` decides entailment by refutation. Each call owns
//! a fresh atom registry for its duration.

use vstd::prelude::*;
use crate::formula::{all_match, build_formula, formula_matches, lemma_formula_matches_extends,
    lemma_extends_trans, lit_matches, lits_of, Formula};
use crate::logic;
use crate::logic::psig;
use crate::registry::{clone_string, AtomRegistry};
use crate::solver;
use crate::solver::{lit_occ, lits_clash};
use crate::types::{all_wf, Contradiction, Statement, VerificationResult, VerifierError};

verus! {

/// The id pairs named by a contradiction list, in order.
pub open spec fn contra_views(cs: Seq<Contradiction>) -> Seq<(Seq<char>, Seq<char>)> {
    Seq::new(cs.len(), |n: int| (cs[n].statement1@, cs[n].statement2@))
}

/// Whether every contradiction of a list carries the fixed wording of
/// pairwise localization.
pub open spec fn contra_strings_fixed(cs: Seq<Contradiction>) -> bool {
    forall|n: int|
        0 <= n < cs.len() ==> (#[trigger] cs[n]).reason@ == "statements are mutually exclusive"@
            && cs[n].formal_proof@ == "the conjunction of the two statements is unsatisfiable"@
}

/// The engine. It holds the call-scoped atom registry; every entry point
/// resets the registry at the start of its call.
pub struct CoherenceVerifier {
    pub registry: AtomRegistry,
}

impl CoherenceVerifier {
    /// The engine's invariant: distinct registered variables carry distinct
    /// signatures.
    pub open spec fn wf(self) -> bool {
        self.registry.wf()
    }

    /// A fresh engine with an empty registry.
    pub fn new() -> (r: CoherenceVerifier)
        ensures
            r.wf(),
    {
        CoherenceVerifier { registry: AtomRegistry::new() }
    }

    /// Build the formula of every statement, left to right, interning atoms
    /// into this call's shared registry.
    fn build_all(&mut self, statements: &[Statement]) -> (fs: Vec<Formula>)
        requires
            old(self).wf(),
        ensures
            final(self).wf(),
            old(self).registry.extends(final(self).registry),
            all_match(final(self).registry, lits_of(fs@), statements@),
    {
        let mut fs: Vec<Formula> = Vec::new();
        let n = statements.len();
        for i in 0..n
            invariant
                n == statements@.len(),
                self.registry.wf(),
                old(self).registry.extends(self.registry),
                fs@.len() == i,
                forall|m: int|
                    0 <= m < i ==> formula_matches(
                        self.registry,
                        (#[trigger] fs@[m]).lits@,
                        statements@[m],
                    ),
        {
            let ghost reg_before = self.registry;
            let f = build_formula(&mut self.registry, &statements[i]);
            fs.push(f);
            proof {
                lemma_extends_trans(old(self).registry, reg_before, self.registry);
                assert forall|m: int| 0 <= m < i + 1 implies formula_matches(
                    self.registry,
                    (#[trigger] fs@[m]).lits@,
                    statements@[m],
                ) by {
                    if m < i {
                        lemma_formula_matches_extends(
                            reg_before,
                            self.registry,
                            fs@[m].lits@,
                            statements@[m],
                        );
                    }
                }
            }
        }
        proof {
            assert(lits_of(fs@).len() == statements@.len());
            assert forall|m: int| 0 <= m < lits_of(fs@).len() implies formula_matches(
                self.registry,
                #[trigger] lits_of(fs@)[m],
                statements@[m],
            ) by {
                assert(lits_of(fs@)[m] == fs@[m].lits@);
            }
        }
        fs
    }

    /// Check one pair of statements in isolation, through their already
    /// built formulas, and report a contradiction when the two cannot hold
    /// together.
    fn check_pair_contradiction(
        &self,
        fs: &Vec<Formula>,
        statements: &[Statement],
        i: usize,
        j: usize,
    ) -> (r: Option<Contradiction>)
        requires
            self.wf(),
            all_match(self.registry, lits_of(fs@), statements@),
            i < statements@.len(),
            j < statements@.len(),
        ensures
            r is Some <==> logic::pair_unsat(statements@[i as int], statements@[j as int]),
            (r matches Some(c) ==> c.statement1@ == statements@[i as int].id@ && c.statement2@
                == statements@[j as int].id@ && c.reason@ == "statements are mutually exclusive"@
                && c.formal_proof@
                == "the conjunction of the two statements is unsatisfiable"@),
    {
        let mut pair: Vec<Formula> = Vec::new();
        pair.push(fs[i].duplicate());
        pair.push(fs[j].duplicate());
        let ghost ps = seq![statements@[i as int], statements@[j as int]];
        proof {
            assert(lits_of(pair@).len() == 2);
            assert(lits_of(pair@)[0] == fs@[i as int].lits@);
            assert(lits_of(pair@)[1] == fs@[j as int].lits@);
            assert(lits_of(fs@)[i as int] == fs@[i as int].lits@);
            assert(lits_of(fs@)[j as int] == fs@[j as int].lits@);
            assert(formula_matches(self.registry, fs@[i as int].lits@, statements@[i as int]));
            assert(formula_matches(self.registry, fs@[j as int].lits@, statements@[j as int]));
            assert forall|m: int| 0 <= m < lits_of(pair@).len() implies formula_matches(
                self.registry,
                #[trigger] lits_of(pair@)[m],
                ps[m],
            ) by {
                if m == 0 {
                } else {
                    assert(m == 1);
                }
            }
            assert(all_match(self.registry, lits_of(pair@), ps));
            solver::lemma_clash_bridge(self.registry, lits_of(pair@), ps);
            logic::lemma_sat_iff_no_clash(ps);
        }
        let consistent = solver::formulas_consistent(&pair);
        if consistent {
            None
        } else {
            Some(
                Contradiction {
                    statement1: clone_string(&statements[i].id),
                    statement2: clone_string(&statements[j].id),
                    reason: String::from_str("statements are mutually exclusive"),
                    formal_proof: String::from_str(
                        "the conjunction of the two statements is unsatisfiable",
                    ),
                },
            )
        }
    }

    /// The localization pass: scan every unordered pair, in order, through
    /// the call's shared registry, and collect the mutually exclusive ones.
    fn scan_pairs(&self, fs: &Vec<Formula>, statements: &[Statement]) -> (cs: Vec<Contradiction>)
        requires
            self.wf(),
            all_match(self.registry, lits_of(fs@), statements@),
        ensures
            contra_views(cs@) == logic::contra_pairs(statements@),
            contra_strings_fixed(cs@),
    {
        let ghost ss = statements@;
        let mut cs: Vec<Contradiction> = Vec::new();
        let n = statements.len();
        proof {
            assert(contra_views(cs@) =~= Seq::<(Seq<char>, Seq<char>)>::empty());
            if n == 0 {
                assert(logic::contra_pairs_from(ss, 0, 1) =~= Seq::<(Seq<char>, Seq<char>)>::empty());
            }
        }
        for i in 0..n
            invariant
                n == ss.len(),
                ss == statements@,
                self.wf(),
                all_match(self.registry, lits_of(fs@), statements@),
                logic::contra_pairs(ss) =~= contra_views(cs@) + logic::contra_pairs_from(
                    ss,
                    i as int,
                    i + 1,
                ),
                contra_strings_fixed(cs@),
        {
            let mut j = i + 1;
            while j < n
                invariant
                    n == ss.len(),
                    ss == statements@,
                    self.wf(),
                    all_match(self.registry, lits_of(fs@), statements@),
                    i < n,
                    i + 1 <= j,
                    logic::contra_pairs(ss) =~= contra_views(cs@) + logic::contra_pairs_from(
                        ss,
                        i as int,
                        j as int,
                    ),
                    contra_strings_fixed(cs@),
                decreases n - j,
            {
                let found = self.check_pair_contradiction(fs, statements, i, j);
                match found {
                    Some(c) => {
                        let ghost cs_before = cs@;
                        cs.push(c);
                        proof {
                            assert(logic::pair_unsat(ss[i as int], ss[j as int]));
                            assert(logic::contra_pairs_from(ss, i as int, j as int) =~= seq![
                                (ss[i as int].id@, ss[j as int].id@),
                            ] + logic::contra_pairs_from(ss, i as int, j as int + 1));
                            assert(contra_views(cs@) =~= contra_views(cs_before).push(
                                (ss[i as int].id@, ss[j as int].id@),
                            ));
                            assert(logic::contra_pairs(ss) =~= contra_views(cs@)
                                + logic::contra_pairs_from(ss, i as int, j as int + 1));
                        }
                    },
                    None => {
                        proof {
                            assert(!logic::pair_unsat(ss[i as int], ss[j as int]));
                            assert(logic::contra_pairs_from(ss, i as int, j as int)
                                == logic::contra_pairs_from(ss, i as int, j as int + 1));
                        }
                    },
                }
                j = j + 1;
            }
            proof {
                assert(logic::contra_pairs_from(ss, i as int, j as int)
                    == logic::contra_pairs_from(ss, i as int + 1, i as int + 2));
            }
        }
        proof {
            assert(logic::contra_pairs_from(ss, n as int, n as int + 1) =~= Seq::<
                (Seq<char>, Seq<char>),
            >::empty());
            assert(contra_views(cs@) =~= logic::contra_pairs(ss));
        }
        cs
    }
    /// Verify logical consistency of a set of statements.
    ///
    /// The call fails exactly on malformed input (a predicate with a
    /// zero-length name). Otherwise the verdict is definite: the result is
    /// consistent exactly when the statements are satisfiable together, it
    /// carries full confidence, and on an inconsistent set the
    /// contradictions list the pairwise localization scan, so the same
    /// input always produces the same verdict and the same contradictions.
    pub fn verify_statements(&mut self, statements: &[Statement]) -> (r: Result<
        VerificationResult,
        VerifierError,
    >)
        requires
            old(self).wf(),
        ensures
            final(self).wf(),
            (r is Err) == !all_wf(statements@),
            (r matches Ok(v) ==> ({
                &&& v.confidence == true
                &&& v.is_consistent == logic::set_sat(statements@)
                &&& contra_views(v.contradictions@) == logic::contra_pairs(statements@)
                &&& contra_strings_fixed(v.contradictions@)
                &&& (v.is_consistent ==> v.contradictions@.len() == 0)
                &&& (!v.is_consistent && statements@.len() >= 2 ==> v.contradictions@.len() > 0)
                &&& (forall|i: int, j: int|
                    0 <= i < j < statements@.len() && #[trigger] logic::pair_unsat(
                        statements@[i],
                        statements@[j],
                    ) ==> contra_views(v.contradictions@).contains(
                        (statements@[i].id@, statements@[j].id@),
                    ))
                &&& (forall|n: int|
                    0 <= n < v.contradictions@.len() ==> logic::is_contra_of(
                        statements@,
                        #[trigger] contra_views(v.contradictions@)[n],
                    ))
                &&& (v.is_consistent ==> (v.proof matches Some(p) && p@
                    == "a satisfying assignment makes every statement hold"@))
                &&& (!v.is_consistent ==> (v.proof matches Some(p) && p@
                    == "the conjunction of the statements is unsatisfiable"@))
            })),
    {
        if !statements_wf(statements) {
            return Err(VerifierError::MalformedStatement);
        }
        self.registry.clear();
        let fs = self.build_all(statements);
        proof {
            solver::lemma_clash_bridge(self.registry, lits_of(fs@), statements@);
            logic::lemma_sat_iff_no_clash(statements@);
        }
        let consistent = solver::formulas_consistent(&fs);
        if consistent {
            let contradictions: Vec<Contradiction> = Vec::new();
            proof {
                logic::lemma_contra_pairs_empty(statements@);
                assert(contra_views(contradictions@) =~= logic::contra_pairs(statements@));
                assert forall|i: int, j: int|
                    0 <= i < j < statements@.len() implies !(#[trigger] logic::pair_unsat(
                    statements@[i],
                    statements@[j],
                )) by {
                    logic::lemma_pair_of_sat_set(statements@, i, j);
                }
            }
            Ok(
                VerificationResult {
                    is_consistent: true,
                    proof: Some(
                        String::from_str("a satisfying assignment makes every statement hold"),
                    ),
                    contradictions,
                    confidence: true,
                },
            )
        } else {
            let contradictions = self.scan_pairs(&fs, statements);
            proof {
                if statements@.len() >= 2 {
                    logic::lemma_contra_pairs_nonempty(statements@);
                    assert(contra_views(contradictions@).len() == contradictions@.len());
                }
                logic::lemma_contra_pairs_sound(statements@);
                assert forall|i: int, j: int|
                    0 <= i < j < statements@.len() && #[trigger] logic::pair_unsat(
                        statements@[i],
                        statements@[j],
                    ) implies contra_views(contradictions@).contains(
                    (statements@[i].id@, statements@[j].id@),
                ) by {
                    logic::lemma_contra_pairs_complete(statements@, i, j);
                }
            }
            Ok(
                VerificationResult {
                    is_consistent: false,
                    proof: Some(
                        String::from_str("the conjunction of the statements is unsatisfiable"),
                    ),
                    contradictions,
                    confidence: true,
                },
            )
        }
    }

    /// Pairwise contradiction localization, usable standalone: report every
    /// unordered pair of statements, in scan order, that cannot hold
    /// together in isolation.
    pub fn find_contradictions(&mut self, statements: &[Statement]) -> (r: Result<
        Vec<Contradiction>,
        VerifierError,
    >)
        requires
            old(self).wf(),
        ensures
            final(self).wf(),
            (r is Err) == !all_wf(statements@),
            (r matches Ok(cs) ==> ({
                &&& contra_views(cs@) == logic::contra_pairs(statements@)
                &&& contra_strings_fixed(cs@)
                &&& (!logic::set_sat(statements@) && statements@.len() >= 2 ==> cs@.len() > 0)
                &&& (logic::set_sat(statements@) ==> cs@.len() == 0)
                &&& (forall|i: int, j: int|
                    0 <= i < j < statements@.len() && #[trigger] logic::pair_unsat(
                        statements@[i],
                        statements@[j],
                    ) ==> contra_views(cs@).contains((statements@[i].id@, statements@[j].id@)))
                &&& (forall|n: int|
                    0 <= n < cs@.len() ==> logic::is_contra_of(
                        statements@,
                        #[trigger] contra_views(cs@)[n],
                    ))
            })),
    {
        if !statements_wf(statements) {
            return Err(VerifierError::MalformedStatement);
        }
        self.registry.clear();
        let fs = self.build_all(statements);
        let cs = self.scan_pairs(&fs, statements);
        proof {
            assert(contra_views(cs@).len() == cs@.len());
            if !logic::set_sat(statements@) && statements@.len() >= 2 {
                logic::lemma_contra_pairs_nonempty(statements@);
            }
            if logic::set_sat(statements@) {
                logic::lemma_contra_pairs_empty(statements@);
            }
            logic::lemma_contra_pairs_sound(statements@);
            assert forall|i: int, j: int|
                0 <= i < j < statements@.len() && #[trigger] logic::pair_unsat(
                    statements@[i],
                    statements@[j],
                ) implies contra_views(cs@).contains(
                (statements@[i].id@, statements@[j].id@),
            ) by {
                logic::lemma_contra_pairs_complete(statements@, i, j);
            }
        }
        Ok(cs)
    }

    /// Verify a reasoning chain by refutation: the premises entail the
    /// conclusion exactly when asserting every premise together with the
    /// negation of the conclusion's formula is unsatisfiable.
    ///
    /// The result is consistent exactly when the entailment holds; no
    /// contradictions are ever produced by this path.
    pub fn verify_reasoning_chain(&mut self, premises: &[Statement], conclusion: &Statement) -> (r:
        Result<VerificationResult, VerifierError>)
        requires
            old(self).wf(),
        ensures
            final(self).wf(),
            (r is Err) == !(all_wf(premises@) && conclusion.wf()),
            (r matches Ok(v) ==> ({
                &&& v.confidence == true
                &&& v.contradictions@.len() == 0
                &&& v.is_consistent == logic::entails_sem(premises@, *conclusion)
                &&& (v.is_consistent ==> (v.proof matches Some(p) && p@
                    == "the premises logically entail the conclusion"@))
                &&& (!v.is_consistent ==> (v.proof matches Some(p) && p@
                    == "a counterexample makes the premises true and the conclusion false"@))
            })),
    {
        let premises_ok = statements_wf(premises);
        let conclusion_ok = statement_wf(conclusion);
        if !premises_ok || !conclusion_ok {
            return Err(VerifierError::MalformedStatement);
        }
        self.registry.clear();
        let pfs = self.build_all(premises);
        let ghost reg_mid = self.registry;
        let cf = build_formula(&mut self.registry, conclusion);
        proof {
            assert forall|m: int| 0 <= m < lits_of(pfs@).len() implies formula_matches(
                self.registry,
                #[trigger] lits_of(pfs@)[m],
                premises@[m],
            ) by {
                lemma_formula_matches_extends(
                    reg_mid,
                    self.registry,
                    lits_of(pfs@)[m],
                    premises@[m],
                );
            }
            assert(all_match(self.registry, lits_of(pfs@), premises@));
        }
        let entailed = solver::formulas_entail(&pfs, &cf);
        proof {
            let ghost plits = lits_of(pfs@);
            let ghost c = *conclusion;
            logic::lemma_entails_characterization(premises@, c);
            solver::lemma_clash_bridge(self.registry, plits, premises@);
            if entailed {
                if !lits_clash(plits) {
                    assert forall|k: int| 0 <= k < c.predicates@.len() implies logic::occurs(
                        premises@,
                        psig(#[trigger] c.predicates@[k]),
                        c.predicates@[k].negated,
                    ) by {
                        let l = cf.lits@[k];
                        assert(lit_matches(self.registry, l, c.predicates@[k]));
                        assert(lit_occ(plits, l.var, l.neg));
                        solver::lemma_occ_bridge(self.registry, plits, premises@, l.var, l.neg);
                    }
                }
                assert(logic::entails_sem(premises@, c));
            } else {
                assert(!lits_clash(plits));
                assert(!logic::has_clash(premises@));
                let k = choose|k: int|
                    0 <= k < cf.lits@.len() && !lit_occ(
                        plits,
                        (#[trigger] cf.lits@[k]).var,
                        cf.lits@[k].neg,
                    );
                let l = cf.lits@[k];
                assert(lit_matches(self.registry, l, c.predicates@[k]));
                solver::lemma_occ_bridge(self.registry, plits, premises@, l.var, l.neg);
                assert(!logic::occurs(premises@, psig(c.predicates@[k]), c.predicates@[k].negated));
                assert(!logic::entails_sem(premises@, c));
            }
        }
        if entailed {
            Ok(
                VerificationResult {
                    is_consistent: true,
                    proof: Some(String::from_str("the premises logically entail the conclusion")),
                    contradictions: Vec::new(),
                    confidence: true,
                },
            )
        } else {
            Ok(
                VerificationResult {
                    is_consistent: false,
                    proof: Some(
                        String::from_str(
                            "a counterexample makes the premises true and the conclusion false",
                        ),
                    ),
                    contradictions: Vec::new(),
                    confidence: true,
                },
            )
        }
    }
}

/// Whether one statement is well formed: no predicate carries a zero-length
/// name.
pub fn statement_wf(s: &Statement) -> (r: bool)
    ensures
        r == s.wf(),
{
    let m = s.predicates.len();
    for k in 0..m
        invariant
            m == s.predicates@.len(),
            forall|k2: int| 0 <= k2 < k ==> (#[trigger] s.predicates@[k2]).wf(),
    {
        if s.predicates[k].name.as_str().is_empty() {
            return false;
        }
    }
    true
}

/// Whether every statement of a slice is well formed: no predicate carries a
/// zero-length name.
pub fn statements_wf(statements: &[Statement]) -> (r: bool)
    ensures
        r == all_wf(statements@),
{
    let n = statements.len();
    for i in 0..n
        invariant
            n == statements@.len(),
            forall|i2: int| 0 <= i2 < i ==> (#[trigger] statements@[i2]).wf(),
    {
        let m = statements[i].predicates.len();
        for k in 0..m
            invariant
                n == statements@.len(),
                i < n,
                m == statements@[i as int].predicates@.len(),
                forall|i2: int| 0 <= i2 < i ==> (#[trigger] statements@[i2]).wf(),
                forall|k2: int|
                    0 <= k2 < k ==> (#[trigger] statements@[i as int].predicates@[k2]).wf(),
        {
            if statements[i].predicates[k].name.as_str().is_empty() {
                proof {
                    assert(!statements@[i as int].predicates@[k as int].wf());
                    assert(!statements@[i as int].wf());
                }
                return false;
            }
        }
        proof {
            assert(statements@[i as int].wf());
        }
    }
    true
}

} // verus!

