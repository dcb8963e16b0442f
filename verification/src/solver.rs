//! The consistency solver: a decision procedure for satisfiability of
//! asserted conjunctions of literals, and for entailment by refutation.
//!
//! A set of conjunctions of literals is satisfiable exactly when no variable
//! occurs in it with both polarities, and the bridge lemmas carry that
//! criterion over to the statement-level semantics through the registry.

use vstd::prelude::*;
use crate::formula::{Formula, Lit, all_match, lit_matches, lits_of};
use crate::logic;
use crate::logic::psig;
use crate::registry::AtomRegistry;
use crate::types::Statement;

verus! {

/// Whether a literal with variable `v` and polarity `neg` occurs in the
/// asserted literal lists.
pub open spec fn lit_occ(fs: Seq<Seq<Lit>>, v: usize, neg: bool) -> bool {
    exists|j: int, k: int|
        0 <= j < fs.len() && 0 <= k < fs[j].len() && (#[trigger] fs[j][k]).var == v
            && fs[j][k].neg == neg
}

/// Whether some variable occurs with both polarities.
pub open spec fn lits_clash(fs: Seq<Seq<Lit>>) -> bool {
    exists|v: usize| #[trigger] lit_occ(fs, v, false) && lit_occ(fs, v, true)
}

/// Under a well-formed registry, a literal-level occurrence is exactly a
/// statement-level occurrence of the registered signature.
pub proof fn lemma_occ_bridge(
    reg: AtomRegistry,
    fs: Seq<Seq<Lit>>,
    ss: Seq<Statement>,
    v: usize,
    neg: bool,
)
    requires
        reg.wf(),
        all_match(reg, fs, ss),
        v < reg.spec_len(),
    ensures
        lit_occ(fs, v, neg) <==> logic::occurs(ss, reg.sig_at(v as int), neg),
{
    let s = reg.sig_at(v as int);
    if lit_occ(fs, v, neg) {
        let (j, k) = choose|j: int, k: int|
            0 <= j < fs.len() && 0 <= k < fs[j].len() && (#[trigger] fs[j][k]).var == v
                && fs[j][k].neg == neg;
        assert(lit_matches(reg, fs[j][k], ss[j].predicates@[k]));
        assert(psig(ss[j].predicates@[k]) == s && ss[j].predicates@[k].negated == neg);
        assert(logic::occurs(ss, s, neg));
    }
    if logic::occurs(ss, s, neg) {
        let (i, k) = choose|i: int, k: int|
            0 <= i < ss.len() && 0 <= k < ss[i].predicates@.len() && psig(
                #[trigger] ss[i].predicates@[k],
            ) == s && ss[i].predicates@[k].negated == neg;
        let l = fs[i][k];
        assert(lit_matches(reg, l, ss[i].predicates@[k]));
        assert(reg.sig_at(l.var as int) == s);
        if l.var != v {
            if l.var < v {
                assert(reg.sig_at(l.var as int) != reg.sig_at(v as int));
            } else {
                assert(reg.sig_at(v as int) != reg.sig_at(l.var as int));
            }
            assert(false);
        }
        assert(lit_occ(fs, v, neg));
    }
}

/// Under a well-formed registry, the literal lists clash exactly when the
/// statements they stand for clash.
pub proof fn lemma_clash_bridge(reg: AtomRegistry, fs: Seq<Seq<Lit>>, ss: Seq<Statement>)
    requires
        reg.wf(),
        all_match(reg, fs, ss),
    ensures
        lits_clash(fs) <==> logic::has_clash(ss),
{
    if lits_clash(fs) {
        let v = choose|v: usize| #[trigger] lit_occ(fs, v, false) && lit_occ(fs, v, true);
        let (j, k) = choose|j: int, k: int|
            0 <= j < fs.len() && 0 <= k < fs[j].len() && (#[trigger] fs[j][k]).var == v
                && fs[j][k].neg == false;
        assert(lit_matches(reg, fs[j][k], ss[j].predicates@[k]));
        lemma_occ_bridge(reg, fs, ss, v, false);
        lemma_occ_bridge(reg, fs, ss, v, true);
        assert(logic::occurs(ss, reg.sig_at(v as int), false));
        assert(logic::occurs(ss, reg.sig_at(v as int), true));
        assert(logic::has_clash(ss));
    }
    if logic::has_clash(ss) {
        let s = choose|s: logic::Sig|
            #[trigger] logic::occurs(ss, s, false) && logic::occurs(ss, s, true);
        let (i, k) = choose|i: int, k: int|
            0 <= i < ss.len() && 0 <= k < ss[i].predicates@.len() && psig(
                #[trigger] ss[i].predicates@[k],
            ) == s && ss[i].predicates@[k].negated == false;
        let l = fs[i][k];
        assert(lit_matches(reg, l, ss[i].predicates@[k]));
        assert(reg.sig_at(l.var as int) == s);
        lemma_occ_bridge(reg, fs, ss, l.var, false);
        lemma_occ_bridge(reg, fs, ss, l.var, true);
        assert(lit_occ(fs, l.var, false) && lit_occ(fs, l.var, true));
        assert(lits_clash(fs));
    }
}

/// Whether some asserted literal opposes `l`: same variable, other polarity.
fn lit_opposed(l: Lit, fs: &Vec<Formula>) -> (r: bool)
    ensures
        r == lit_occ(lits_of(fs@), l.var, !l.neg),
{
    let n = fs.len();
    for j in 0..n
        invariant
            n == fs@.len(),
            forall|j2: int, k2: int|
                0 <= j2 < j && 0 <= k2 < lits_of(fs@)[j2].len() ==> !((#[trigger] lits_of(
                    fs@,
                )[j2][k2]).var == l.var && lits_of(fs@)[j2][k2].neg == !l.neg),
    {
        let m = fs[j].lits.len();
        for k in 0..m
            invariant
                n == fs@.len(),
                0 <= j < n,
                m == fs@[j as int].lits@.len(),
                forall|j2: int, k2: int|
                    0 <= j2 < j && 0 <= k2 < lits_of(fs@)[j2].len() ==> !((#[trigger] lits_of(
                        fs@,
                    )[j2][k2]).var == l.var && lits_of(fs@)[j2][k2].neg == !l.neg),
                forall|k2: int|
                    0 <= k2 < k ==> !((#[trigger] lits_of(fs@)[j as int][k2]).var == l.var
                        && lits_of(fs@)[j as int][k2].neg == !l.neg),
        {
            let cand = fs[j].lits[k];
            if cand.var == l.var && cand.neg != l.neg {
                proof {
                    assert(lits_of(fs@)[j as int][k as int] == cand);
                    assert(lit_occ(lits_of(fs@), l.var, !l.neg));
                }
                return true;
            }
            proof {
                assert(lits_of(fs@)[j as int][k as int] == cand);
            }
        }
    }
    proof {
        assert forall|j2: int, k2: int|
            0 <= j2 < lits_of(fs@).len() && 0 <= k2 < lits_of(fs@)[j2].len() implies !((
        #[trigger] lits_of(fs@)[j2][k2]).var == l.var && lits_of(fs@)[j2][k2].neg == !l.neg) by {}
    }
    false
}

/// Whether the asserted literal lists are free of any clash: no variable
/// occurs with both polarities.
pub fn formulas_consistent(fs: &Vec<Formula>) -> (r: bool)
    ensures
        r == !lits_clash(lits_of(fs@)),
{
    let n = fs.len();
    for j in 0..n
        invariant
            n == fs@.len(),
            forall|j2: int, k2: int|
                0 <= j2 < j && 0 <= k2 < lits_of(fs@)[j2].len() ==> !lit_occ(
                    lits_of(fs@),
                    (#[trigger] lits_of(fs@)[j2][k2]).var,
                    !lits_of(fs@)[j2][k2].neg,
                ),
    {
        let m = fs[j].lits.len();
        for k in 0..m
            invariant
                n == fs@.len(),
                0 <= j < n,
                m == fs@[j as int].lits@.len(),
                forall|j2: int, k2: int|
                    0 <= j2 < j && 0 <= k2 < lits_of(fs@)[j2].len() ==> !lit_occ(
                        lits_of(fs@),
                        (#[trigger] lits_of(fs@)[j2][k2]).var,
                        !lits_of(fs@)[j2][k2].neg,
                    ),
                forall|k2: int|
                    0 <= k2 < k ==> !lit_occ(
                        lits_of(fs@),
                        (#[trigger] lits_of(fs@)[j as int][k2]).var,
                        !lits_of(fs@)[j as int][k2].neg,
                    ),
        {
            let cand = fs[j].lits[k];
            if lit_opposed(cand, fs) {
                proof {
                    assert(lits_of(fs@)[j as int][k as int] == cand);
                    assert(lit_occ(lits_of(fs@), cand.var, cand.neg));
                    assert(lit_occ(lits_of(fs@), cand.var, false) && lit_occ(
                        lits_of(fs@),
                        cand.var,
                        true,
                    ));
                    assert(lits_clash(lits_of(fs@)));
                }
                return false;
            }
            proof {
                assert(lits_of(fs@)[j as int][k as int] == cand);
            }
        }
    }
    proof {
        if lits_clash(lits_of(fs@)) {
            let v = choose|v: usize|
                #[trigger] lit_occ(lits_of(fs@), v, false) && lit_occ(lits_of(fs@), v, true);
            let (j2, k2) = choose|j2: int, k2: int|
                0 <= j2 < lits_of(fs@).len() && 0 <= k2 < lits_of(fs@)[j2].len() && (
                #[trigger] lits_of(fs@)[j2][k2]).var == v && lits_of(fs@)[j2][k2].neg == false;
            assert(lit_occ(lits_of(fs@), lits_of(fs@)[j2][k2].var, !lits_of(fs@)[j2][k2].neg));
            assert(false);
        }
    }
    true
}

/// Whether a literal equal to `l` (same variable, same polarity) is among
/// the asserted literal lists.
fn lit_present(l: Lit, fs: &Vec<Formula>) -> (r: bool)
    ensures
        r == lit_occ(lits_of(fs@), l.var, l.neg),
{
    let n = fs.len();
    for j in 0..n
        invariant
            n == fs@.len(),
            forall|j2: int, k2: int|
                0 <= j2 < j && 0 <= k2 < lits_of(fs@)[j2].len() ==> !((#[trigger] lits_of(
                    fs@,
                )[j2][k2]).var == l.var && lits_of(fs@)[j2][k2].neg == l.neg),
    {
        let m = fs[j].lits.len();
        for k in 0..m
            invariant
                n == fs@.len(),
                0 <= j < n,
                m == fs@[j as int].lits@.len(),
                forall|j2: int, k2: int|
                    0 <= j2 < j && 0 <= k2 < lits_of(fs@)[j2].len() ==> !((#[trigger] lits_of(
                        fs@,
                    )[j2][k2]).var == l.var && lits_of(fs@)[j2][k2].neg == l.neg),
                forall|k2: int|
                    0 <= k2 < k ==> !((#[trigger] lits_of(fs@)[j as int][k2]).var == l.var
                        && lits_of(fs@)[j as int][k2].neg == l.neg),
        {
            let cand = fs[j].lits[k];
            if cand.var == l.var && cand.neg == l.neg {
                proof {
                    assert(lits_of(fs@)[j as int][k as int] == cand);
                    assert(lit_occ(lits_of(fs@), l.var, l.neg));
                }
                return true;
            }
            proof {
                assert(lits_of(fs@)[j as int][k as int] == cand);
            }
        }
    }
    false
}

/// Refutation-style entailment over built formulas: the premises entail the
/// conclusion exactly when they clash on their own, or every literal of the
/// conclusion is among the premises' literals.
pub fn formulas_entail(premises: &Vec<Formula>, conclusion: &Formula) -> (r: bool)
    ensures
        r == (lits_clash(lits_of(premises@)) || forall|k: int|
            0 <= k < conclusion.lits@.len() ==> lit_occ(
                lits_of(premises@),
                (#[trigger] conclusion.lits@[k]).var,
                conclusion.lits@[k].neg,
            )),
{
    let consistent = formulas_consistent(premises);
    if !consistent {
        return true;
    }
    let m = conclusion.lits.len();
    for k in 0..m
        invariant
            m == conclusion.lits@.len(),
            !lits_clash(lits_of(premises@)),
            forall|k2: int|
                0 <= k2 < k ==> lit_occ(
                    lits_of(premises@),
                    (#[trigger] conclusion.lits@[k2]).var,
                    conclusion.lits@[k2].neg,
                ),
    {
        let cand = conclusion.lits[k];
        if !lit_present(cand, premises) {
            return false;
        }
    }
    true
}

} // verus!
