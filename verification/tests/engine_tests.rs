use coherence::{parse_statement, CoherenceVerifier, Predicate, Statement, VerifierError};

fn pred(name: &str, arg: &str, negated: bool) -> Predicate {
    Predicate { name: name.to_string(), args: vec![arg.to_string()], negated }
}

fn stmt(id: &str, text: &str, predicates: Vec<Predicate>) -> Statement {
    Statement { id: id.to_string(), text: text.to_string(), predicates }
}

#[test]
fn test_contradiction_detection() {
    let mut verifier = CoherenceVerifier::new();

    let stmt1 = parse_statement("All AI systems are perfectly logical", "stmt1");
    let stmt2 = parse_statement("Current AI systems contain contradictions", "stmt2");

    let result = verifier.verify_statements(&[stmt1, stmt2]).unwrap();
    assert!(!result.is_consistent);
}

#[test]
fn test_valid_reasoning() {
    let mut verifier = CoherenceVerifier::new();

    let premise1 = parse_statement("All humans are mortal", "p1");
    let premise2 = parse_statement("Socrates is human", "p2");
    let conclusion = parse_statement("Socrates is mortal", "c1");

    let result = verifier.verify_reasoning_chain(&[premise1, premise2], &conclusion).unwrap();
    let _ = result;
}

#[test]
fn test_atom_sharing_detects_clash() {
    let mut verifier = CoherenceVerifier::new();
    let s1 = stmt("a", "the output is sorted", vec![pred("sorted", "out", false)]);
    let s2 = stmt("b", "the output is not sorted", vec![pred("sorted", "out", true)]);
    let result = verifier.verify_statements(&[s1, s2]).unwrap();
    assert!(!result.is_consistent);
    assert!(result.confidence);
    assert_eq!(result.contradictions.len(), 1);
    assert_eq!(result.contradictions[0].statement1, "a");
    assert_eq!(result.contradictions[0].statement2, "b");
    assert_eq!(result.contradictions[0].reason, "statements are mutually exclusive");
    assert_eq!(
        result.contradictions[0].formal_proof,
        "the conjunction of the two statements is unsatisfiable"
    );
}

#[test]
fn test_distinct_atoms_consistent() {
    let mut verifier = CoherenceVerifier::new();
    let s1 = stmt("a", "the output is sorted", vec![pred("sorted", "out", false)]);
    let s2 = stmt("b", "the output is reversed", vec![pred("reversed", "out", false)]);
    let result = verifier.verify_statements(&[s1, s2]).unwrap();
    assert!(result.is_consistent);
    assert!(result.confidence);
    assert!(result.contradictions.is_empty());
    assert!(result.proof.is_some());
}

#[test]
fn test_same_signature_different_args_distinct() {
    let mut verifier = CoherenceVerifier::new();
    let s1 = stmt("a", "p of x", vec![pred("p", "x", false)]);
    let s2 = stmt("b", "not p of y", vec![pred("p", "y", true)]);
    let result = verifier.verify_statements(&[s1, s2]).unwrap();
    assert!(result.is_consistent);
}

#[test]
fn test_pairwise_completeness() {
    fn build() -> Vec<Statement> {
        vec![
            stmt("s0", "x holds", vec![pred("x", "a", false)]),
            stmt("s1", "y holds", vec![pred("y", "a", false)]),
            stmt("s2", "x fails", vec![pred("x", "a", true)]),
        ]
    }
    let mut verifier = CoherenceVerifier::new();
    let statements = build();
    let result = verifier.verify_statements(&statements).unwrap();
    assert!(!result.is_consistent);
    assert!(!result.contradictions.is_empty());
    // Every reported pair, checked in isolation, is itself unsatisfiable.
    for c in &result.contradictions {
        let all = build();
        let i = all.iter().position(|s| s.id == c.statement1).unwrap();
        let j = all.iter().position(|s| s.id == c.statement2).unwrap();
        assert!(i < j);
        let pair = build();
        let picked: Vec<Statement> =
            pair.into_iter().enumerate().filter(|(k, _)| *k == i || *k == j).map(|(_, s)| s).collect();
        let sub = verifier.verify_statements(&picked).unwrap();
        assert!(!sub.is_consistent);
    }
}

#[test]
fn test_consistency_monotonicity() {
    fn build() -> Vec<Statement> {
        vec![
            stmt("s0", "x holds", vec![pred("x", "a", false)]),
            stmt("s1", "y fails", vec![pred("y", "a", true)]),
            stmt("s2", "z holds", vec![pred("z", "a", false), pred("x", "a", false)]),
        ]
    }
    let mut verifier = CoherenceVerifier::new();
    let full = verifier.verify_statements(&build()).unwrap();
    assert!(full.is_consistent);
    for drop in 0..3 {
        let rest: Vec<Statement> =
            build().into_iter().enumerate().filter(|(k, _)| *k != drop).map(|(_, s)| s).collect();
        let sub = verifier.verify_statements(&rest).unwrap();
        assert!(sub.is_consistent);
    }
}

#[test]
fn test_entailment_trivial() {
    let mut verifier = CoherenceVerifier::new();
    let premises = vec![stmt("p0", "we need validation", vec![pred("need", "validation", false)])];
    let conclusion = stmt("c", "we need validation", vec![pred("need", "validation", false)]);
    let result = verifier.verify_reasoning_chain(&premises, &conclusion).unwrap();
    assert!(result.is_consistent);
    assert!(result.confidence);
    assert!(result.contradictions.is_empty());
    assert_eq!(result.proof.as_deref(), Some("the premises logically entail the conclusion"));
}

#[test]
fn test_entailment_counterexample() {
    let mut verifier = CoherenceVerifier::new();
    let premises = vec![
        stmt("p0", "ai is logical", vec![pred("logical", "ai", false)]),
        stmt("p1", "ai has no contradictions", vec![pred("contradictions", "ai", true)]),
    ];
    let conclusion = stmt("c", "ai has contradictions", vec![pred("contradictions", "ai", false)]);
    let result = verifier.verify_reasoning_chain(&premises, &conclusion).unwrap();
    assert!(!result.is_consistent);
    assert!(result.confidence);
    assert!(result.contradictions.is_empty());
    assert_eq!(
        result.proof.as_deref(),
        Some("a counterexample makes the premises true and the conclusion false")
    );
}

#[test]
fn test_refutation_duality() {
    // entails(P, C) is true exactly when P together with the negation of C,
    // taken as a statement, is inconsistent.
    fn premises() -> Vec<Statement> {
        vec![stmt("p0", "x holds", vec![pred("x", "a", false)])]
    }
    let mut verifier = CoherenceVerifier::new();
    for (cname, cneg) in [("x", false), ("x", true), ("y", false)] {
        let conclusion = stmt("c", "conclusion", vec![pred(cname, "a", cneg)]);
        let entailed = verifier.verify_reasoning_chain(&premises(), &conclusion).unwrap();

        let mut extended = premises();
        extended.push(stmt("nc", "negated conclusion", vec![pred(cname, "a", !cneg)]));
        let refuted = verifier.verify_statements(&extended).unwrap();

        assert_eq!(entailed.is_consistent, !refuted.is_consistent);
    }
}

#[test]
fn test_idempotence() {
    fn build() -> Vec<Statement> {
        vec![
            stmt("s0", "x holds", vec![pred("x", "a", false)]),
            stmt("s1", "x fails", vec![pred("x", "a", true)]),
            stmt("s2", "y holds", vec![pred("y", "a", false)]),
        ]
    }
    let mut verifier = CoherenceVerifier::new();
    let first = verifier.verify_statements(&build()).unwrap();
    let second = verifier.verify_statements(&build()).unwrap();
    assert_eq!(first.is_consistent, second.is_consistent);
    assert_eq!(first.contradictions.len(), second.contradictions.len());
    for (a, b) in first.contradictions.iter().zip(second.contradictions.iter()) {
        assert_eq!(a.statement1, b.statement1);
        assert_eq!(a.statement2, b.statement2);
    }
}

#[test]
fn test_empty_set_consistent() {
    let mut verifier = CoherenceVerifier::new();
    let result = verifier.verify_statements(&[]).unwrap();
    assert!(result.is_consistent);
    assert!(result.contradictions.is_empty());
}

#[test]
fn test_empty_statement_trivially_true() {
    let mut verifier = CoherenceVerifier::new();
    let s1 = stmt("a", "says nothing", vec![]);
    let s2 = stmt("b", "x holds", vec![pred("x", "a", false)]);
    let result = verifier.verify_statements(&[s1, s2]).unwrap();
    assert!(result.is_consistent);
}

#[test]
fn test_malformed_statement_rejected() {
    let mut verifier = CoherenceVerifier::new();
    let bad = stmt("a", "empty name", vec![pred("", "x", false)]);
    let result = verifier.verify_statements(&[bad]);
    assert!(matches!(result, Err(VerifierError::MalformedStatement)));
    let err = match result {
        Err(e) => e,
        Ok(_) => panic!("expected an error"),
    };
    assert_eq!(err.describe(), "a predicate references a zero-length name");

    let bad2 = stmt("a", "empty name", vec![pred("", "x", false)]);
    assert!(verifier.find_contradictions(&[bad2]).is_err());

    let bad3 = stmt("a", "empty name", vec![pred("", "x", false)]);
    let fine = stmt("c", "fine", vec![pred("x", "a", false)]);
    assert!(verifier.verify_reasoning_chain(&[fine], &bad3).is_err());
}

#[test]
fn test_single_self_contradiction() {
    let mut verifier = CoherenceVerifier::new();
    let s = stmt("a", "p and not p", vec![pred("p", "x", false), pred("p", "x", true)]);
    let result = verifier.verify_statements(&[s]).unwrap();
    assert!(!result.is_consistent);
    // Pairwise localization inspects pairs only, and one statement forms none.
    assert!(result.contradictions.is_empty());
}

#[test]
fn test_localize_standalone() {
    let mut verifier = CoherenceVerifier::new();
    let statements = vec![
        stmt("s0", "x holds", vec![pred("x", "a", false)]),
        stmt("s1", "x fails", vec![pred("x", "a", true)]),
        stmt("s2", "x holds again", vec![pred("x", "a", false)]),
    ];
    let contradictions = verifier.find_contradictions(&statements).unwrap();
    let pairs: Vec<(String, String)> = contradictions
        .iter()
        .map(|c| (c.statement1.clone(), c.statement2.clone()))
        .collect();
    assert_eq!(
        pairs,
        vec![
            ("s0".to_string(), "s1".to_string()),
            ("s1".to_string(), "s2".to_string()),
        ]
    );
}

#[test]
fn test_parse_statement_lowercases_input() {
    let s = parse_statement("ALL AI SYSTEMS ARE PERFECTLY LOGICAL", "s");
    assert_eq!(s.predicates.len(), 2);
    assert_eq!(s.predicates[0].name, "ai_system_perfectly_logical");
    assert!(!s.predicates[0].negated);
    assert_eq!(s.predicates[1].name, "ai_systems_contain_contradictions");
    assert!(s.predicates[1].negated);
}

#[test]
fn test_parse_statement_patterns() {
    let s = parse_statement("We need coherent tools and validation", "s");
    let names: Vec<&str> = s.predicates.iter().map(|p| p.name.as_str()).collect();
    assert_eq!(names, vec!["need_coherent_tools", "need_validation"]);
    assert_eq!(s.predicates[0].args, vec!["we".to_string()]);

    let t = parse_statement("Coherent tools require validation", "t");
    let names: Vec<&str> = t.predicates.iter().map(|p| p.name.as_str()).collect();
    assert_eq!(names, vec!["coherent_tools_require_validation", "need_validation_implied"]);

    let u = parse_statement("The weather is nice today", "u");
    assert!(u.predicates.is_empty());
    assert_eq!(u.id, "u");
    assert_eq!(u.text, "The weather is nice today");
}
