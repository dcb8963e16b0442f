//! The code coherence checker: it extracts a contract and an implementation
//! summary from source-like text, translates both into statements, and asks
//! the coherence verifier whether contract and implementation can hold
//! together.

use vstd::prelude::*;
use crate::contract::{fname_spec, posts_spec, ContractExtractor, FunctionContract};
use crate::engine::CoherenceVerifier;
use crate::logic;
use crate::parse::{make_pred, one_arg, pred_view};
use crate::registry::clone_string;
use crate::text::{contains_sub, dec_rep, decimal_string, has_sub, is_prefix, join_spec, join_with,
    lines_spec, split_lines, starts_with_sub, trim_spec, trim_ws, vec_contains_str};
use crate::types::{Contradiction, Predicate, Statement, VerificationResult, VerifierError};

verus! {

/// The logical summary of an implementation read out of its text.
#[derive(Debug, Clone)]
pub struct ImplementationLogic {
    pub function_name: String,
    pub logical_assertions: Vec<String>,
    pub state_changes: Vec<String>,
    pub return_conditions: Vec<String>,
}

/// Translates contracts and implementation summaries into statements for
/// the coherence verifier.
pub struct PredicateTranslator;

/// The kind of a coherence violation.
#[derive(Debug)]
pub enum ViolationType {
    ContractImplementationMismatch,
    LogicalImpossibility,
    TypeIncoherence,
    StateContradiction,
}

/// One coherence violation detected in code.
#[derive(Debug)]
pub struct CoherenceViolation {
    pub violation_type: ViolationType,
    pub description: String,
    pub location: String,
    pub formal_contradiction: String,
}

/// The result of code coherence verification. `confidence` is binary:
/// `true` stands for a definite verdict, `false` for an undecided one.
#[derive(Debug)]
pub struct CodeVerificationResult {
    pub is_coherent: bool,
    pub confidence: bool,
    pub violations: Vec<CoherenceViolation>,
    pub formal_proof: Option<String>,
}

impl CoherenceViolation {
    /// A short label for the violation's kind.
    pub fn violation_type_str(&self) -> (r: &'static str)
        ensures
            self.violation_type is ContractImplementationMismatch ==> r@ == "Contract Mismatch"@,
            self.violation_type is LogicalImpossibility ==> r@ == "Logical Impossibility"@,
            self.violation_type is TypeIncoherence ==> r@ == "Type Incoherence"@,
            self.violation_type is StateContradiction ==> r@ == "State Contradiction"@,
    {
        match self.violation_type {
            ViolationType::ContractImplementationMismatch => "Contract Mismatch",
            ViolationType::LogicalImpossibility => "Logical Impossibility",
            ViolationType::TypeIncoherence => "Type Incoherence",
            ViolationType::StateContradiction => "State Contradiction",
        }
    }
}

/// The return condition read from one trimmed `return ` line.
pub open spec fn ret_cond_of(t: Seq<char>) -> Seq<char> {
    if has_sub(t, "sorted("@) {
        "returns_sorted_result"@
    } else if has_sub(t, "[::-1]"@) {
        "returns_reversed_result"@
    } else {
        "returns_value"@
    }
}

/// The return conditions of the lines from `i` on.
pub open spec fn ret_conds_from(lines: Seq<Seq<char>>, i: int) -> Seq<Seq<char>>
    decreases lines.len() - i,
{
    if i < 0 || i >= lines.len() {
        Seq::empty()
    } else {
        let t = trim_spec(lines[i]);
        if is_prefix(t, "return "@) {
            seq![ret_cond_of(t)] + ret_conds_from(lines, i + 1)
        } else {
            ret_conds_from(lines, i + 1)
        }
    }
}

/// The assertion markers of the lines from `i` on: one for each line that
/// begins with `assert `.
pub open spec fn asserts_from(lines: Seq<Seq<char>>, i: int) -> Seq<Seq<char>>
    decreases lines.len() - i,
{
    if i < 0 || i >= lines.len() {
        Seq::empty()
    } else {
        let t = trim_spec(lines[i]);
        if is_prefix(t, "assert "@) {
            seq!["has_assertion"@] + asserts_from(lines, i + 1)
        } else {
            asserts_from(lines, i + 1)
        }
    }
}

/// The return conditions the analysis reads out of the text.
pub open spec fn rets_spec(code: Seq<char>) -> Seq<Seq<char>> {
    ret_conds_from(lines_spec(code), 0)
}

/// The assertion markers the analysis reads out of the text.
pub open spec fn asserts_spec(code: Seq<char>) -> Seq<Seq<char>> {
    asserts_from(lines_spec(code), 0)
}

/// Whether a statement asserts exactly one positive or negative literal
/// with the given id, origin text, name and argument.
pub open spec fn stmt_single(
    s: Statement,
    id: Seq<char>,
    text: Seq<char>,
    name: Seq<char>,
    arg: Seq<char>,
    negated: bool,
) -> bool {
    &&& s.id@ == id
    &&& s.text@ == text
    &&& s.predicates@.len() == 1
    &&& pred_view(s.predicates@[0]) == (name, one_arg(arg), negated)
}

/// Whether the contract claims a sorted result while the implementation
/// returns a reversed one.
pub open spec fn has_sorted_contra(posts: Seq<Seq<char>>, rets: Seq<Seq<char>>) -> bool {
    posts.contains("result_is_sorted"@) && rets.contains("returns_reversed_result"@)
}

/// Whether a statement is the explicit consistency-check contradiction that
/// the translator emits: the sorted-result atom asserted and denied at once.
pub open spec fn contra_stmt(s: Statement, counter: int) -> bool {
    &&& s.id@ == "contradiction_"@ + dec_rep(counter)
    &&& s.text@ == "Contract says sorted, implementation returns reversed"@
    &&& s.predicates@.len() == 2
    &&& pred_view(s.predicates@[0]) == ("result_is_sorted"@, one_arg("output"@), false)
    &&& pred_view(s.predicates@[1]) == ("result_is_sorted"@, one_arg("output"@), true)
}

/// What the translator returns for given postconditions and return
/// conditions: one positive statement per condition, numbered through, and
/// the explicit contradiction when the sorted claim meets a reversed
/// return.
pub open spec fn translated_ok(
    posts: Seq<Seq<char>>,
    rets: Seq<Seq<char>>,
    out: Seq<Statement>,
) -> bool {
    let p = posts.len() as int;
    let q = rets.len() as int;
    &&& out.len() == p + q + (if has_sorted_contra(posts, rets) {
        1int
    } else {
        0
    })
    &&& (forall|k: int|
        0 <= k < p ==> stmt_single(
            #[trigger] out[k],
            "postcond_"@ + dec_rep(k),
            "Contract postcondition: "@ + posts[k],
            posts[k],
            "output"@,
            false,
        ))
    &&& (forall|k: int|
        0 <= k < q ==> stmt_single(
            #[trigger] out[p + k],
            "impl_return_"@ + dec_rep(p + k),
            "Implementation return: "@ + rets[k],
            rets[k],
            "implementation"@,
            false,
        ))
    &&& (has_sorted_contra(posts, rets) ==> contra_stmt(out[p + q], p + q))
}

impl PredicateTranslator {
    /// Translate a contract and an implementation summary into statements:
    /// each postcondition and each return condition becomes one positive
    /// literal, and the sorted-versus-reversed conflict adds an explicitly
    /// contradictory statement.
    pub fn translate_to_predicates(
        &self,
        contract: &FunctionContract,
        implementation: &ImplementationLogic,
    ) -> (r: Result<Vec<Statement>, VerifierError>)
        ensures
            r is Ok,
            (r matches Ok(out) ==> translated_ok(
                contract.postconditions.deep_view(),
                implementation.return_conditions.deep_view(),
                out@,
            )),
    {
        let ghost posts = contract.postconditions.deep_view();
        let ghost rets = implementation.return_conditions.deep_view();
        let mut statements: Vec<Statement> = Vec::new();

        let p = contract.postconditions.len();
        for k in 0..p
            invariant
                p == contract.postconditions@.len(),
                posts == contract.postconditions.deep_view(),
                statements@.len() == k,
                forall|m: int|
                    0 <= m < k ==> stmt_single(
                        #[trigger] statements@[m],
                        "postcond_"@ + dec_rep(m),
                        "Contract postcondition: "@ + posts[m],
                        posts[m],
                        "output"@,
                        false,
                    ),
        {
            let idx = statements.len();
            let mut id = String::from_str("postcond_");
            let num = decimal_string(idx);
            id.append(num.as_str());
            let mut text = String::from_str("Contract postcondition: ");
            text.append(contract.postconditions[k].as_str());
            let mut preds: Vec<Predicate> = Vec::new();
            preds.push(make_pred(contract.postconditions[k].as_str(), "output", false));
            statements.push(Statement { id, text, predicates: preds });
        }

        let q = implementation.return_conditions.len();
        for k in 0..q
            invariant
                p == contract.postconditions@.len(),
                q == implementation.return_conditions@.len(),
                posts == contract.postconditions.deep_view(),
                rets == implementation.return_conditions.deep_view(),
                statements@.len() == p + k,
                forall|m: int|
                    0 <= m < p ==> stmt_single(
                        #[trigger] statements@[m],
                        "postcond_"@ + dec_rep(m),
                        "Contract postcondition: "@ + posts[m],
                        posts[m],
                        "output"@,
                        false,
                    ),
                forall|m: int|
                    0 <= m < k ==> stmt_single(
                        #[trigger] statements@[p + m],
                        "impl_return_"@ + dec_rep(p + m),
                        "Implementation return: "@ + rets[m],
                        rets[m],
                        "implementation"@,
                        false,
                    ),
        {
            let idx = statements.len();
            let mut id = String::from_str("impl_return_");
            let num = decimal_string(idx);
            id.append(num.as_str());
            let mut text = String::from_str("Implementation return: ");
            text.append(implementation.return_conditions[k].as_str());
            let mut preds: Vec<Predicate> = Vec::new();
            preds.push(make_pred(implementation.return_conditions[k].as_str(), "implementation", false));
            statements.push(Statement { id, text, predicates: preds });
        }

        let sorted_claim = vec_contains_str(&contract.postconditions, "result_is_sorted");
        let reversed_impl = vec_contains_str(
            &implementation.return_conditions,
            "returns_reversed_result",
        );
        if sorted_claim && reversed_impl {
            let idx = statements.len();
            let mut id = String::from_str("contradiction_");
            let num = decimal_string(idx);
            id.append(num.as_str());
            let text = String::from_str("Contract says sorted, implementation returns reversed");
            let mut preds: Vec<Predicate> = Vec::new();
            preds.push(make_pred("result_is_sorted", "output", false));
            preds.push(make_pred("result_is_sorted", "output", true));
            statements.push(Statement { id, text, predicates: preds });
        }
        proof {
            assert(translated_ok(posts, rets, statements@));
        }
        Ok(statements)
    }
}

/// Every return condition the analysis emits is one of the three fixed
/// names.
pub proof fn lemma_ret_conds_elems(lines: Seq<Seq<char>>, i: int)
    ensures
        forall|n: int|
            0 <= n < ret_conds_from(lines, i).len() ==> ((#[trigger] ret_conds_from(lines, i)[n])
                == "returns_sorted_result"@ || ret_conds_from(lines, i)[n]
                == "returns_reversed_result"@ || ret_conds_from(lines, i)[n] == "returns_value"@),
    decreases lines.len() - i,
{
    if i < 0 || i >= lines.len() {
    } else {
        lemma_ret_conds_elems(lines, i + 1);
        let t = trim_spec(lines[i]);
        let whole = ret_conds_from(lines, i);
        let rest = ret_conds_from(lines, i + 1);
        if is_prefix(t, "return "@) {
            assert forall|n: int| 0 <= n < whole.len() implies ((#[trigger] whole[n])
                == "returns_sorted_result"@ || whole[n] == "returns_reversed_result"@ || whole[n]
                == "returns_value"@) by {
                if n == 0 {
                    assert(whole[0] == ret_cond_of(t));
                } else {
                    assert(whole[n] == rest[n - 1]);
                }
            }
        }
    }
}

/// Every extracted postcondition is one of the two fixed names.
pub proof fn lemma_posts_elems(code: Seq<char>)
    ensures
        forall|n: int|
            0 <= n < posts_spec(code).len() ==> ((#[trigger] posts_spec(code)[n])
                == "result_is_sorted"@ || posts_spec(code)[n] == "result_ascending_order"@),
{
}

/// The statements the translator emits are well formed: every predicate
/// name is non-empty.
pub proof fn lemma_translated_wf(posts: Seq<Seq<char>>, rets: Seq<Seq<char>>, out: Seq<Statement>)
    requires
        translated_ok(posts, rets, out),
        forall|n: int| 0 <= n < posts.len() ==> (#[trigger] posts[n]).len() > 0,
        forall|n: int| 0 <= n < rets.len() ==> (#[trigger] rets[n]).len() > 0,
    ensures
        crate::types::all_wf(out),
{
    let p = posts.len() as int;
    let q = rets.len() as int;
    reveal_strlit("result_is_sorted");
    assert forall|i: int| 0 <= i < out.len() implies (#[trigger] out[i]).wf() by {
        if i < p {
            assert(stmt_single(out[i], "postcond_"@ + dec_rep(i), "Contract postcondition: "@
                + posts[i], posts[i], "output"@, false));
            assert(out[i].predicates@[0].name@ == posts[i]);
            assert forall|k: int| 0 <= k < out[i].predicates@.len() implies (
            #[trigger] out[i].predicates@[k]).wf() by {
                assert(k == 0);
            }
        } else if i < p + q {
            let k = i - p;
            assert(stmt_single(out[p + k], "impl_return_"@ + dec_rep(p + k),
                "Implementation return: "@ + rets[k], rets[k], "implementation"@, false));
            assert(out[i].predicates@[0].name@ == rets[k]);
            assert forall|k: int| 0 <= k < out[i].predicates@.len() implies (
            #[trigger] out[i].predicates@[k]).wf() by {
                assert(k == 0);
            }
        } else {
            assert(i == p + q && has_sorted_contra(posts, rets));
            assert(contra_stmt(out[i], p + q));
            assert(out[i].predicates@[0].name@ == "result_is_sorted"@);
            assert(out[i].predicates@[1].name@ == "result_is_sorted"@);
            assert forall|k: int| 0 <= k < out[i].predicates@.len() implies (
            #[trigger] out[i].predicates@[k]).wf() by {
                assert(k == 0 || k == 1);
            }
        }
    }
}

/// The translated statement set is satisfiable exactly when the sorted
/// claim does not meet a reversed return: every statement is a positive
/// literal except the explicit contradiction.
pub proof fn lemma_translated_sat(posts: Seq<Seq<char>>, rets: Seq<Seq<char>>, out: Seq<Statement>)
    requires
        translated_ok(posts, rets, out),
    ensures
        logic::set_sat(out) <==> !has_sorted_contra(posts, rets),
{
    let p = posts.len() as int;
    let q = rets.len() as int;
    if has_sorted_contra(posts, rets) {
        let c = out[p + q];
        assert(contra_stmt(c, p + q));
        let sig = ("result_is_sorted"@, one_arg("output"@));
        assert(logic::psig(c.predicates@[0]) == sig && c.predicates@[0].negated == false);
        assert(logic::psig(c.predicates@[1]) == sig && c.predicates@[1].negated == true);
        assert(logic::occurs(out, sig, false));
        assert(logic::occurs(out, sig, true));
        logic::lemma_atom_sharing(out, sig);
    } else {
        assert(out.len() == p + q);
        assert forall|s: logic::Sig| !(#[trigger] logic::occurs(out, s, true)) by {
            if logic::occurs(out, s, true) {
                let (i, k) = choose|i: int, k: int|
                    0 <= i < out.len() && 0 <= k < out[i].predicates@.len() && logic::psig(
                        #[trigger] out[i].predicates@[k],
                    ) == s && out[i].predicates@[k].negated == true;
                if i < p {
                    assert(stmt_single(out[i], "postcond_"@ + dec_rep(i),
                        "Contract postcondition: "@ + posts[i], posts[i], "output"@, false));
                    assert(k == 0);
                    assert(out[i].predicates@[0].negated == false);
                } else {
                    let k2 = i - p;
                    assert(stmt_single(out[p + k2], "impl_return_"@ + dec_rep(p + k2),
                        "Implementation return: "@ + rets[k2], rets[k2], "implementation"@,
                        false));
                    assert(k == 0);
                    assert(out[i].predicates@[0].negated == false);
                }
            }
        }
        if logic::has_clash(out) {
            let s = choose|s: logic::Sig|
                #[trigger] logic::occurs(out, s, false) && logic::occurs(out, s, true);
            assert(false);
        }
        logic::lemma_sat_iff_no_clash(out);
    }
}

/// The texts that render a contradiction list, pair by pair.
pub open spec fn contra_pair_texts(cs: Seq<Contradiction>) -> Seq<Seq<char>> {
    Seq::new(cs.len(), |i: int| cs[i].statement1@ + " <-> "@ + cs[i].statement2@)
}

/// Main code coherence checking engine.
pub struct CodeCoherenceChecker {
    pub engine: CoherenceVerifier,
    pub contract_extractor: ContractExtractor,
    pub predicate_translator: PredicateTranslator,
}

impl CodeCoherenceChecker {
    /// The checker's invariant: its verifier is well formed.
    pub open spec fn wf(self) -> bool {
        self.engine.wf()
    }

    /// A fresh checker.
    pub fn new() -> (r: CodeCoherenceChecker)
        ensures
            r.wf(),
    {
        CodeCoherenceChecker {
            engine: CoherenceVerifier::new(),
            contract_extractor: ContractExtractor,
            predicate_translator: PredicateTranslator,
        }
    }

    /// Summarize an implementation from its text: the function name, one
    /// return condition per `return ` line, and one assertion marker per
    /// `assert ` line.
    pub fn analyze_implementation_from_text(&self, code: &str) -> (r: Result<
        ImplementationLogic,
        VerifierError,
    >)
        ensures
            r is Ok,
            (r matches Ok(l) ==> ({
                &&& l.function_name@ == fname_spec(code@)
                &&& l.return_conditions.deep_view() == rets_spec(code@)
                &&& l.logical_assertions.deep_view() == asserts_spec(code@)
                &&& l.state_changes@.len() == 0
            })),
    {
        let lines = split_lines(code);
        let ghost ls = lines_spec(code@);
        let function_name = crate::contract::function_name_from(&lines);
        let n = lines.len();
        let mut return_conditions: Vec<String> = Vec::new();
        let mut logical_assertions: Vec<String> = Vec::new();
        proof {
            assert(return_conditions.deep_view() =~= Seq::<Seq<char>>::empty());
            assert(logical_assertions.deep_view() =~= Seq::<Seq<char>>::empty());
        }
        for i in 0..n
            invariant
                n == ls.len(),
                lines.deep_view() == ls,
                rets_spec(code@) =~= return_conditions.deep_view() + ret_conds_from(ls, i as int),
                asserts_spec(code@) =~= logical_assertions.deep_view() + asserts_from(
                    ls,
                    i as int,
                ),
        {
            let t = trim_ws(lines[i].as_str());
            proof {
                assert(t@ == trim_spec(ls[i as int]));
            }
            if starts_with_sub(t, "return ") {
                let ghost rv_old = return_conditions.deep_view();
                if contains_sub(t, "sorted(") {
                    return_conditions.push(String::from_str("returns_sorted_result"));
                } else if contains_sub(t, "[::-1]") {
                    return_conditions.push(String::from_str("returns_reversed_result"));
                } else {
                    return_conditions.push(String::from_str("returns_value"));
                }
                proof {
                    assert(return_conditions.deep_view() =~= rv_old.push(ret_cond_of(t@)));
                    assert(ret_conds_from(ls, i as int) =~= seq![ret_cond_of(t@)]
                        + ret_conds_from(ls, i as int + 1));
                    assert(rets_spec(code@) =~= return_conditions.deep_view() + ret_conds_from(
                        ls,
                        i as int + 1,
                    ));
                }
            } else {
                proof {
                    assert(ret_conds_from(ls, i as int) == ret_conds_from(ls, i as int + 1));
                }
            }
            if starts_with_sub(t, "assert ") {
                let ghost la_old = logical_assertions.deep_view();
                logical_assertions.push(String::from_str("has_assertion"));
                proof {
                    assert(logical_assertions.deep_view() =~= la_old.push("has_assertion"@));
                    assert(asserts_from(ls, i as int) =~= seq!["has_assertion"@] + asserts_from(
                        ls,
                        i as int + 1,
                    ));
                    assert(asserts_spec(code@) =~= logical_assertions.deep_view() + asserts_from(
                        ls,
                        i as int + 1,
                    ));
                }
            } else {
                proof {
                    assert(asserts_from(ls, i as int) == asserts_from(ls, i as int + 1));
                }
            }
        }
        proof {
            assert(ret_conds_from(ls, n as int) =~= Seq::<Seq<char>>::empty());
            assert(asserts_from(ls, n as int) =~= Seq::<Seq<char>>::empty());
            assert(rets_spec(code@) =~= return_conditions.deep_view());
            assert(asserts_spec(code@) =~= logical_assertions.deep_view());
        }
        Ok(
            ImplementationLogic {
                function_name,
                logical_assertions,
                state_changes: Vec::new(),
                return_conditions,
            },
        )
    }

    /// Turn a verifier result into a code verification result: an
    /// inconsistent verdict becomes one contract-mismatch violation that
    /// names the function and renders the contradictions.
    fn convert_to_code_result(
        &self,
        verification_result: VerificationResult,
        contract: &FunctionContract,
        _implementation: &ImplementationLogic,
    ) -> (r: Result<CodeVerificationResult, VerifierError>)
        ensures
            r is Ok,
            (r matches Ok(v) ==> ({
                &&& v.is_coherent == verification_result.is_consistent
                &&& v.confidence == verification_result.confidence
                &&& (verification_result.is_consistent ==> v.violations@.len() == 0)
                &&& (!verification_result.is_consistent ==> v.violations@.len() == 1
                    && v.violations@[0].violation_type is ContractImplementationMismatch
                    && v.violations@[0].description@ == "Implementation does not satisfy contract"@
                    && v.violations@[0].location@ == contract.name@
                    && v.violations@[0].formal_contradiction@ == join_spec(
                    contra_pair_texts(verification_result.contradictions@),
                    "; "@,
                ))
                &&& (verification_result.is_consistent ==> (v.formal_proof matches Some(fp) && fp@
                    == "formal verification: consistent"@))
                &&& (!verification_result.is_consistent ==> (v.formal_proof matches Some(fp) && fp@
                    == "formal verification: inconsistent"@))
            })),
    {
        let mut violations: Vec<CoherenceViolation> = Vec::new();
        if !verification_result.is_consistent {
            let cs = &verification_result.contradictions;
            let m = cs.len();
            let mut parts: Vec<String> = Vec::new();
            proof {
                assert(parts.deep_view() =~= contra_pair_texts(cs@).take(0));
            }
            for i in 0..m
                invariant
                    m == cs@.len(),
                    parts.deep_view() =~= contra_pair_texts(cs@).take(i as int),
            {
                let mut t = clone_string(&cs[i].statement1);
                t.append(" <-> ");
                t.append(cs[i].statement2.as_str());
                let ghost parts_old = parts.deep_view();
                parts.push(t);
                proof {
                    assert(parts.deep_view() =~= parts_old.push(t@));
                    assert(contra_pair_texts(cs@).take(i + 1) =~= contra_pair_texts(cs@).take(
                        i as int,
                    ).push(contra_pair_texts(cs@)[i as int]));
                }
            }
            proof {
                assert(contra_pair_texts(cs@).take(m as int) =~= contra_pair_texts(cs@));
            }
            let formal_contradiction = join_with(&parts, "; ");
            violations.push(
                CoherenceViolation {
                    violation_type: ViolationType::ContractImplementationMismatch,
                    description: String::from_str("Implementation does not satisfy contract"),
                    location: clone_string(&contract.name),
                    formal_contradiction,
                },
            );
        }
        let formal_proof = if verification_result.is_consistent {
            Some(String::from_str("formal verification: consistent"))
        } else {
            Some(String::from_str("formal verification: inconsistent"))
        };
        Ok(
            CodeVerificationResult {
                is_coherent: verification_result.is_consistent,
                confidence: verification_result.confidence,
                violations,
                formal_proof,
            },
        )
    }

    /// Verify coherence of one function's text: the docstring's claims and
    /// the implementation's return conditions can hold together exactly
    /// when the text does not claim a sorted result while returning a
    /// reversed one.
    pub fn verify_function(&mut self, python_code: &str) -> (r: Result<
        CodeVerificationResult,
        VerifierError,
    >)
        requires
            old(self).wf(),
        ensures
            final(self).wf(),
            r is Ok,
            (r matches Ok(v) ==> ({
                &&& v.confidence == true
                &&& v.is_coherent == !has_sorted_contra(
                    posts_spec(python_code@),
                    rets_spec(python_code@),
                )
                &&& (v.is_coherent <==> v.violations@.len() == 0)
                &&& (!v.is_coherent ==> v.violations@.len() == 1
                    && v.violations@[0].violation_type is ContractImplementationMismatch
                    && v.violations@[0].description@ == "Implementation does not satisfy contract"@
                    && v.violations@[0].location@ == fname_spec(python_code@))
                &&& (v.is_coherent ==> (v.formal_proof matches Some(fp) && fp@
                    == "formal verification: consistent"@))
                &&& (!v.is_coherent ==> (v.formal_proof matches Some(fp) && fp@
                    == "formal verification: inconsistent"@))
            })),
    {
        let contract = match self.contract_extractor.extract_contract_from_text(python_code) {
            Ok(c) => c,
            Err(e) => {
                return Err(e);
            },
        };
        let implementation = match self.analyze_implementation_from_text(python_code) {
            Ok(l) => l,
            Err(e) => {
                return Err(e);
            },
        };
        let statements = match self.predicate_translator.translate_to_predicates(
            &contract,
            &implementation,
        ) {
            Ok(s) => s,
            Err(e) => {
                return Err(e);
            },
        };
        let ghost posts = posts_spec(python_code@);
        let ghost rets = rets_spec(python_code@);
        proof {
            reveal_strlit("result_is_sorted");
            reveal_strlit("result_ascending_order");
            reveal_strlit("returns_sorted_result");
            reveal_strlit("returns_reversed_result");
            reveal_strlit("returns_value");
            lemma_posts_elems(python_code@);
            lemma_ret_conds_elems(lines_spec(python_code@), 0);
            assert forall|n: int| 0 <= n < posts.len() implies (#[trigger] posts[n]).len() > 0 by {
                assert(posts[n] == "result_is_sorted"@ || posts[n] == "result_ascending_order"@);
            }
            assert forall|n: int| 0 <= n < rets.len() implies (#[trigger] rets[n]).len() > 0 by {
                assert(rets[n] == "returns_sorted_result"@ || rets[n]
                    == "returns_reversed_result"@ || rets[n] == "returns_value"@);
            }
            lemma_translated_wf(posts, rets, statements@);
            lemma_translated_sat(posts, rets, statements@);
        }
        let verification_result = match self.engine.verify_statements(statements.as_slice()) {
            Ok(v) => v,
            Err(e) => {
                proof {
                    assert(false);
                }
                return Err(e);
            },
        };
        self.convert_to_code_result(verification_result, &contract, &implementation)
    }

    /// Verify coherence of a whole module's text; the module is treated as
    /// one function.
    pub fn verify_module(&mut self, python_code: &str) -> (r: Result<
        Vec<CodeVerificationResult>,
        VerifierError,
    >)
        requires
            old(self).wf(),
        ensures
            final(self).wf(),
            r is Ok,
            (r matches Ok(vs) ==> ({
                &&& vs@.len() == 1
                &&& vs@[0].confidence == true
                &&& vs@[0].is_coherent == !has_sorted_contra(
                    posts_spec(python_code@),
                    rets_spec(python_code@),
                )
                &&& (vs@[0].is_coherent <==> vs@[0].violations@.len() == 0)
            })),
    {
        let result = match self.verify_function(python_code) {
            Ok(v) => v,
            Err(e) => {
                return Err(e);
            },
        };
        let mut results: Vec<CodeVerificationResult> = Vec::new();
        results.push(result);
        Ok(results)
    }
}

} // verus!
