use coherence::{
    CodeCoherenceChecker, CoherenceViolation, ContractExtractor, ImplementationLogic,
    PredicateTranslator, ViolationType,
};

#[test]
fn lib_test_simple_function_verification() {
    let mut checker = CodeCoherenceChecker::new();

    let python_code = r#"
def sort_list(items):
    """Returns a sorted list in ascending order."""
    return sorted(items)
"#;

    let result = checker.verify_function(python_code).unwrap();
    assert!(result.is_coherent);
}

#[test]
fn lib_test_contradictory_function() {
    let mut checker = CodeCoherenceChecker::new();

    let python_code = r#"
def sort_list(items):
    """Returns a sorted list in ascending order."""
    return items[::-1]  # This contradicts the contract
"#;

    let result = checker.verify_function(python_code).unwrap();
    // Should detect contradiction between contract and implementation
    assert!(!result.is_coherent);
    assert!(!result.violations.is_empty());
}

#[test]
fn test_extract_contract_exact() {
    let extractor = ContractExtractor;
    let code = "\ndef sort_list(items):\n    \"\"\"Returns a sorted list in ascending order.\"\"\"\n    return sorted(items)\n";
    let contract = extractor.extract_contract_from_text(code).unwrap();
    assert_eq!(contract.name, "sort_list");
    assert_eq!(
        contract.docstring.as_deref(),
        Some("Returns a sorted list in ascending order.")
    );
    assert_eq!(
        contract.postconditions,
        vec!["result_is_sorted".to_string(), "result_ascending_order".to_string()]
    );
    assert!(contract.preconditions.is_empty());
    assert!(contract.input_types.is_empty());
    assert!(contract.output_type.is_none());
}

#[test]
fn test_extract_contract_uppercase_keywords() {
    let extractor = ContractExtractor;
    let code = "def f(x):\n    \"\"\"Returns a SORTED list in ASCENDING order.\"\"\"\n    return x\n";
    let contract = extractor.extract_contract_from_text(code).unwrap();
    assert_eq!(
        contract.postconditions,
        vec!["result_is_sorted".to_string(), "result_ascending_order".to_string()]
    );
}

#[test]
fn test_extract_contract_multiline_docstring() {
    let extractor = ContractExtractor;
    let code = "def f(x):\n    \"\"\"\n    Keeps the input non-negative.\n    Nothing else.\n    \"\"\"\n    return x\n";
    let contract = extractor.extract_contract_from_text(code).unwrap();
    assert_eq!(
        contract.docstring.as_deref(),
        Some("Keeps the input non-negative. Nothing else.")
    );
    assert_eq!(contract.preconditions, vec!["input_non_negative".to_string()]);
    assert!(contract.postconditions.is_empty());
}

#[test]
fn test_extract_contract_without_def_line() {
    let extractor = ContractExtractor;
    let contract = extractor.extract_contract_from_text("x = 1\n").unwrap();
    assert_eq!(contract.name, "unknown_function");
    assert!(contract.docstring.is_none());
    assert!(contract.postconditions.is_empty());
}

#[test]
fn test_analyze_implementation() {
    let checker = CodeCoherenceChecker::new();
    let code = "def f(items):\n    assert len(items) > 0\n    if x:\n        return sorted(items)\n    return items[::-1]\n";
    let logic = checker.analyze_implementation_from_text(code).unwrap();
    assert_eq!(logic.function_name, "f");
    assert_eq!(
        logic.return_conditions,
        vec!["returns_sorted_result".to_string(), "returns_reversed_result".to_string()]
    );
    assert_eq!(logic.logical_assertions, vec!["has_assertion".to_string()]);
    assert!(logic.state_changes.is_empty());
}

#[test]
fn test_translate_ids_and_contradiction() {
    let extractor = ContractExtractor;
    let checker = CodeCoherenceChecker::new();
    let translator = PredicateTranslator;
    let code = "def sort_list(items):\n    \"\"\"Returns a sorted list in ascending order.\"\"\"\n    return items[::-1]\n";
    let contract = extractor.extract_contract_from_text(code).unwrap();
    let implementation = checker.analyze_implementation_from_text(code).unwrap();
    let statements = translator.translate_to_predicates(&contract, &implementation).unwrap();

    let ids: Vec<&str> = statements.iter().map(|s| s.id.as_str()).collect();
    assert_eq!(ids, vec!["postcond_0", "postcond_1", "impl_return_2", "contradiction_3"]);
    assert_eq!(statements[0].text, "Contract postcondition: result_is_sorted");
    assert_eq!(statements[2].text, "Implementation return: returns_reversed_result");
    assert_eq!(statements[3].text, "Contract says sorted, implementation returns reversed");
    assert_eq!(statements[3].predicates.len(), 2);
    assert_eq!(statements[3].predicates[0].name, "result_is_sorted");
    assert!(!statements[3].predicates[0].negated);
    assert_eq!(statements[3].predicates[1].name, "result_is_sorted");
    assert!(statements[3].predicates[1].negated);
}

#[test]
fn test_translate_multi_digit_ids() {
    let checker = CodeCoherenceChecker::new();
    let translator = PredicateTranslator;
    let mut code = String::from("def f(x):\n");
    for _ in 0..11 {
        code.push_str("    return x\n");
    }
    let extractor = ContractExtractor;
    let contract = extractor.extract_contract_from_text(&code).unwrap();
    let implementation = checker.analyze_implementation_from_text(&code).unwrap();
    let statements = translator.translate_to_predicates(&contract, &implementation).unwrap();
    assert_eq!(statements.len(), 11);
    assert_eq!(statements[10].id, "impl_return_10");
}

#[test]
fn test_verify_module_single_result() {
    let mut checker = CodeCoherenceChecker::new();
    let code = "def f(x):\n    \"\"\"Returns the input.\"\"\"\n    return x\n";
    let results = checker.verify_module(code).unwrap();
    assert_eq!(results.len(), 1);
    assert!(results[0].is_coherent);
    assert!(results[0].violations.is_empty());
}

#[test]
fn test_violation_details() {
    let mut checker = CodeCoherenceChecker::new();
    let code = "def sort_list(items):\n    \"\"\"Returns a sorted list.\"\"\"\n    return items[::-1]\n";
    let result = checker.verify_function(code).unwrap();
    assert!(!result.is_coherent);
    assert!(result.confidence);
    assert_eq!(result.violations.len(), 1);
    let v: &CoherenceViolation = &result.violations[0];
    assert!(matches!(v.violation_type, ViolationType::ContractImplementationMismatch));
    assert_eq!(v.description, "Implementation does not satisfy contract");
    assert_eq!(v.location, "sort_list");
    assert_eq!(v.violation_type_str(), "Contract Mismatch");
    assert_eq!(result.formal_proof.as_deref(), Some("formal verification: inconsistent"));
}

#[test]
fn test_implementation_logic_roundtrip() {
    let translator = PredicateTranslator;
    let contract = coherence::FunctionContract {
        name: "f".to_string(),
        preconditions: vec![],
        postconditions: vec!["result_is_sorted".to_string()],
        input_types: vec![],
        output_type: None,
        docstring: None,
    };
    let implementation = ImplementationLogic {
        function_name: "f".to_string(),
        logical_assertions: vec![],
        state_changes: vec![],
        return_conditions: vec!["returns_sorted_result".to_string()],
    };
    let statements = translator.translate_to_predicates(&contract, &implementation).unwrap();
    assert_eq!(statements.len(), 2);
    assert_eq!(statements[0].id, "postcond_0");
    assert_eq!(statements[0].predicates[0].args, vec!["output".to_string()]);
    assert_eq!(statements[1].id, "impl_return_1");
    assert_eq!(statements[1].predicates[0].args, vec!["implementation".to_string()]);
}
