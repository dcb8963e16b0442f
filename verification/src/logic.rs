//! The propositional semantics of statements.
//!
//! An atom is identified by its signature, the pair `(name, args)`. An
//! assignment maps signatures to truth values; a statement holds under an
//! assignment when every one of its literals does, and a set of statements is
//! satisfiable when some assignment makes them all hold at once.

use vstd::prelude::*;
use crate::types::Statement;
use crate::types::Predicate;

verus! {

/// The signature that identifies an atom: its name and its argument list.
pub type Sig = (Seq<char>, Seq<Seq<char>>);

/// The signature of a predicate occurrence.
pub open spec fn psig(p: Predicate) -> Sig {
    (p.name@, p.args.deep_view())
}

/// Truth of one literal under an assignment.
pub open spec fn lit_true(a: Map<Sig, bool>, p: Predicate) -> bool {
    if p.negated {
        !a[psig(p)]
    } else {
        a[psig(p)]
    }
}

/// Truth of a statement: the conjunction of its literals.
pub open spec fn stmt_true(a: Map<Sig, bool>, s: Statement) -> bool {
    forall|k: int| 0 <= k < s.predicates@.len() ==> lit_true(a, #[trigger] s.predicates@[k])
}

/// Truth of a whole set of statements under one assignment.
pub open spec fn all_true(a: Map<Sig, bool>, ss: Seq<Statement>) -> bool {
    forall|i: int| 0 <= i < ss.len() ==> stmt_true(a, #[trigger] ss[i])
}

/// Satisfiability: some assignment makes every statement hold.
pub open spec fn set_sat(ss: Seq<Statement>) -> bool {
    exists|a: Map<Sig, bool>| all_true(a, ss)
}

/// Semantic entailment: every assignment that satisfies all premises also
/// satisfies the conclusion.
pub open spec fn entails_sem(ps: Seq<Statement>, c: Statement) -> bool {
    forall|a: Map<Sig, bool>| all_true(a, ps) ==> stmt_true(a, c)
}

/// Whether an atom with signature `s` occurs with polarity `neg` somewhere in
/// the set.
pub open spec fn occurs(ss: Seq<Statement>, s: Sig, neg: bool) -> bool {
    exists|i: int, k: int|
        0 <= i < ss.len() && 0 <= k < ss[i].predicates@.len()
            && psig(#[trigger] ss[i].predicates@[k]) == s && ss[i].predicates@[k].negated == neg
}

/// Whether some atom occurs both positively and negatively in the set.
pub open spec fn has_clash(ss: Seq<Statement>) -> bool {
    exists|s: Sig| #[trigger] occurs(ss, s, false) && occurs(ss, s, true)
}

/// The canonical assignment for a clash-free set: an atom is true exactly
/// when it occurs positively somewhere in the set.
pub open spec fn canonical_assignment(ss: Seq<Statement>) -> Map<Sig, bool> {
    Map::new(|s: Sig| true, |s: Sig| occurs(ss, s, false))
}

/// A set of conjunctions of literals is satisfiable exactly when no atom
/// occurs in it with both polarities.
pub proof fn lemma_sat_iff_no_clash(ss: Seq<Statement>)
    ensures
        set_sat(ss) <==> !has_clash(ss),
{
    if has_clash(ss) {
        let s = choose|s: Sig| #[trigger] occurs(ss, s, false) && occurs(ss, s, true);
        assert forall|a: Map<Sig, bool>| !all_true(a, ss) by {
            let (i1, k1) = choose|i: int, k: int|
                0 <= i < ss.len() && 0 <= k < ss[i].predicates@.len()
                    && psig(#[trigger] ss[i].predicates@[k]) == s
                    && ss[i].predicates@[k].negated == false;
            let (i2, k2) = choose|i: int, k: int|
                0 <= i < ss.len() && 0 <= k < ss[i].predicates@.len()
                    && psig(#[trigger] ss[i].predicates@[k]) == s
                    && ss[i].predicates@[k].negated == true;
            if all_true(a, ss) {
                assert(stmt_true(a, ss[i1]));
                assert(stmt_true(a, ss[i2]));
                assert(lit_true(a, ss[i1].predicates@[k1]));
                assert(lit_true(a, ss[i2].predicates@[k2]));
                assert(a[s] && !a[s]);
            }
        }
        assert(!set_sat(ss));
    } else {
        let a = canonical_assignment(ss);
        assert forall|i: int| 0 <= i < ss.len() implies stmt_true(a, #[trigger] ss[i]) by {
            assert forall|k: int| 0 <= k < ss[i].predicates@.len() implies lit_true(
                a,
                #[trigger] ss[i].predicates@[k],
            ) by {
                let p = ss[i].predicates@[k];
                if p.negated {
                    assert(occurs(ss, psig(p), true));
                    assert(!occurs(ss, psig(p), false));
                } else {
                    assert(occurs(ss, psig(p), false));
                }
            }
        }
        assert(all_true(a, ss));
    }
}

/// Atom sharing: predicates with identical `(name, args)` stand for the same
/// atom wherever they appear, so a set that asserts an atom and its negation
/// anywhere across its statements is never satisfiable.
pub proof fn lemma_atom_sharing(ss: Seq<Statement>, s: Sig)
    requires
        occurs(ss, s, false),
        occurs(ss, s, true),
    ensures
        !set_sat(ss),
{
    assert(has_clash(ss));
    lemma_sat_iff_no_clash(ss);
}

/// A satisfiable set stays satisfiable when cut down to any two of its
/// statements.
pub proof fn lemma_pair_of_sat_set(ss: Seq<Statement>, i: int, j: int)
    requires
        set_sat(ss),
        0 <= i < ss.len(),
        0 <= j < ss.len(),
    ensures
        set_sat(seq![ss[i], ss[j]]),
{
    let a = choose|a: Map<Sig, bool>| all_true(a, ss);
    let pair = seq![ss[i], ss[j]];
    assert(stmt_true(a, ss[i]));
    assert(stmt_true(a, ss[j]));
    assert forall|n: int| 0 <= n < pair.len() implies stmt_true(a, #[trigger] pair[n]) by {
        if n == 0 {
            assert(pair[n] == ss[i]);
        } else {
            assert(pair[n] == ss[j]);
        }
    }
    assert(all_true(a, pair));
}

/// The localization scan of a satisfiable set reports nothing.
pub proof fn lemma_contra_pairs_empty_from(ss: Seq<Statement>, i: int, j: int)
    requires
        set_sat(ss),
    ensures
        contra_pairs_from(ss, i, j).len() == 0,
    decreases ss.len() - i, ss.len() - j,
{
    if i < 0 || j < i + 1 || ss.len() <= i {
    } else if ss.len() <= j {
        lemma_contra_pairs_empty_from(ss, i + 1, i + 2);
    } else {
        if pair_unsat(ss[i], ss[j]) {
            lemma_pair_of_sat_set(ss, i, j);
            assert(false);
        }
        lemma_contra_pairs_empty_from(ss, i, j + 1);
    }
}

/// The localization scan of a satisfiable set reports nothing.
pub proof fn lemma_contra_pairs_empty(ss: Seq<Statement>)
    requires
        set_sat(ss),
    ensures
        contra_pairs(ss).len() == 0,
{
    lemma_contra_pairs_empty_from(ss, 0, 1);
}

/// Whether two statements are mutually exclusive: their conjunction, taken in
/// isolation, is unsatisfiable.
pub open spec fn pair_unsat(s1: Statement, s2: Statement) -> bool {
    !set_sat(seq![s1, s2])
}

/// The contradictions that pairwise localization reports, as pairs of
/// statement ids: every unordered pair `(i, j)` with `i < j`, scanned in
/// order, whose two statements are mutually exclusive in isolation.
pub open spec fn contra_pairs_from(ss: Seq<Statement>, i: int, j: int) -> Seq<
    (Seq<char>, Seq<char>),
>
    decreases ss.len() - i, ss.len() - j,
{
    if i < 0 || j < i + 1 || ss.len() <= i {
        Seq::empty()
    } else if ss.len() <= j {
        contra_pairs_from(ss, i + 1, i + 2)
    } else if pair_unsat(ss[i], ss[j]) {
        seq![(ss[i].id@, ss[j].id@)] + contra_pairs_from(ss, i, j + 1)
    } else {
        contra_pairs_from(ss, i, j + 1)
    }
}

/// The full localization scan, from the first pair on.
pub open spec fn contra_pairs(ss: Seq<Statement>) -> Seq<(Seq<char>, Seq<char>)> {
    contra_pairs_from(ss, 0, 1)
}

/// Whether an id pair names two input statements, in scan order, that are
/// mutually exclusive in isolation.
pub open spec fn is_contra_of(ss: Seq<Statement>, e: (Seq<char>, Seq<char>)) -> bool {
    exists|i2: int, j2: int|
        0 <= i2 < j2 < ss.len() && e == (ss[i2].id@, ss[j2].id@) && #[trigger] pair_unsat(
            ss[i2],
            ss[j2],
        )
}

/// Soundness of localization: every id pair in the scan's tail names a pair
/// of input statements that is unsatisfiable in isolation.
pub proof fn lemma_contra_pairs_sound_from(ss: Seq<Statement>, i: int, j: int)
    ensures
        forall|n: int|
            0 <= n < contra_pairs_from(ss, i, j).len() ==> is_contra_of(
                ss,
                #[trigger] contra_pairs_from(ss, i, j)[n],
            ),
    decreases ss.len() - i, ss.len() - j,
{
    if i < 0 || j < i + 1 || ss.len() <= i {
    } else if ss.len() <= j {
        lemma_contra_pairs_sound_from(ss, i + 1, i + 2);
        let whole = contra_pairs_from(ss, i, j);
        let rest = contra_pairs_from(ss, i + 1, i + 2);
        assert forall|n: int| 0 <= n < whole.len() implies is_contra_of(ss, #[trigger] whole[n]) by {
            assert(whole[n] == rest[n]);
        }
    } else if pair_unsat(ss[i], ss[j]) {
        lemma_contra_pairs_sound_from(ss, i, j + 1);
        let whole = contra_pairs_from(ss, i, j);
        let rest = contra_pairs_from(ss, i, j + 1);
        assert forall|n: int| 0 <= n < whole.len() implies is_contra_of(ss, #[trigger] whole[n]) by {
            if n == 0 {
                assert(whole[0] == (ss[i].id@, ss[j].id@));
                assert(pair_unsat(ss[i], ss[j]));
            } else {
                assert(whole[n] == rest[n - 1]);
            }
        }
    } else {
        lemma_contra_pairs_sound_from(ss, i, j + 1);
        let whole = contra_pairs_from(ss, i, j);
        let rest = contra_pairs_from(ss, i, j + 1);
        assert forall|n: int| 0 <= n < whole.len() implies is_contra_of(ss, #[trigger] whole[n]) by {
            assert(whole[n] == rest[n]);
        }
    }
}

/// Soundness of localization, for the whole scan.
pub proof fn lemma_contra_pairs_sound(ss: Seq<Statement>)
    ensures
        forall|n: int|
            0 <= n < contra_pairs(ss).len() ==> is_contra_of(ss, #[trigger] contra_pairs(ss)[n]),
{
    lemma_contra_pairs_sound_from(ss, 0, 1);
}

/// If an unsatisfiable pair lies at or after position `(i, j)` of the scan,
/// the scan's tail from `(i, j)` reports its id pair.
pub proof fn lemma_contra_pairs_complete_from(ss: Seq<Statement>, i: int, j: int, i2: int, j2: int)
    requires
        0 <= i,
        i + 1 <= j,
        i2 < j2 < ss.len(),
        i2 > i || (i2 == i && j2 >= j),
        i <= i2,
        pair_unsat(ss[i2], ss[j2]),
    ensures
        contra_pairs_from(ss, i, j).contains((ss[i2].id@, ss[j2].id@)),
    decreases ss.len() - i, ss.len() - j,
{
    let e = (ss[i2].id@, ss[j2].id@);
    let whole = contra_pairs_from(ss, i, j);
    if ss.len() <= i {
        assert(false);
    } else if ss.len() <= j {
        lemma_contra_pairs_complete_from(ss, i + 1, i + 2, i2, j2);
    } else if pair_unsat(ss[i], ss[j]) {
        if i2 == i && j2 == j {
            assert(whole[0] == e);
        } else {
            lemma_contra_pairs_complete_from(ss, i, j + 1, i2, j2);
            let rest = contra_pairs_from(ss, i, j + 1);
            let n = choose|n: int| 0 <= n < rest.len() && rest[n] == e;
            assert(whole[n + 1] == e);
        }
    } else {
        lemma_contra_pairs_complete_from(ss, i, j + 1, i2, j2);
    }
}

/// Completeness of localization: every pair of statements that is
/// unsatisfiable in isolation has its id pair in the scan's report.
pub proof fn lemma_contra_pairs_complete(ss: Seq<Statement>, i: int, j: int)
    requires
        0 <= i < j < ss.len(),
        pair_unsat(ss[i], ss[j]),
    ensures
        contra_pairs(ss).contains((ss[i].id@, ss[j].id@)),
{
    lemma_contra_pairs_complete_from(ss, 0, 1, i, j);
}

/// An inconsistent set of two or more statements makes the scan report at
/// least one pair.
pub proof fn lemma_contra_pairs_nonempty(ss: Seq<Statement>)
    requires
        !set_sat(ss),
        ss.len() >= 2,
    ensures
        contra_pairs(ss).len() > 0,
{
    lemma_pairwise_completeness(ss);
    let (i2, j2) = choose|i2: int, j2: int|
        0 <= i2 < j2 < ss.len() && #[trigger] pair_unsat(ss[i2], ss[j2]);
    lemma_contra_pairs_complete_from(ss, 0, 1, i2, j2);
}

/// Consistency is monotone: removing any statement from a satisfiable set
/// keeps it satisfiable.
pub proof fn lemma_consistency_monotone(ss: Seq<Statement>, i: int)
    requires
        set_sat(ss),
        0 <= i < ss.len(),
    ensures
        set_sat(ss.remove(i)),
{
    let a = choose|a: Map<Sig, bool>| all_true(a, ss);
    assert forall|j: int| 0 <= j < ss.remove(i).len() implies stmt_true(
        a,
        #[trigger] ss.remove(i)[j],
    ) by {
        if j < i {
            assert(ss.remove(i)[j] == ss[j]);
            assert(stmt_true(a, ss[j]));
        } else {
            assert(ss.remove(i)[j] == ss[j + 1]);
            assert(stmt_true(a, ss[j + 1]));
        }
    }
    assert(all_true(a, ss.remove(i)));
}

/// Premises entail a conclusion exactly when the premises clash on their own,
/// or every literal of the conclusion occurs, with the same polarity, among
/// the premises' literals.
pub proof fn lemma_entails_characterization(ps: Seq<Statement>, c: Statement)
    ensures
        entails_sem(ps, c) <==> (has_clash(ps) || forall|k: int|
            0 <= k < c.predicates@.len() ==> occurs(
                ps,
                psig(#[trigger] c.predicates@[k]),
                c.predicates@[k].negated,
            )),
{
    if has_clash(ps) {
        lemma_sat_iff_no_clash(ps);
        assert forall|a: Map<Sig, bool>| all_true(a, ps) implies stmt_true(a, c) by {
            assert(set_sat(ps));
        }
    } else if forall|k: int|
        0 <= k < c.predicates@.len() ==> occurs(
            ps,
            psig(#[trigger] c.predicates@[k]),
            c.predicates@[k].negated,
        ) {
        assert forall|a: Map<Sig, bool>| all_true(a, ps) implies stmt_true(a, c) by {
            assert forall|k: int| 0 <= k < c.predicates@.len() implies lit_true(
                a,
                #[trigger] c.predicates@[k],
            ) by {
                let p = c.predicates@[k];
                assert(occurs(ps, psig(p), p.negated));
                let (i, j) = choose|i: int, j: int|
                    0 <= i < ps.len() && 0 <= j < ps[i].predicates@.len()
                        && psig(#[trigger] ps[i].predicates@[j]) == psig(p)
                        && ps[i].predicates@[j].negated == p.negated;
                assert(stmt_true(a, ps[i]));
                assert(lit_true(a, ps[i].predicates@[j]));
            }
        }
    } else {
        // A literal of the conclusion is free of the premises: falsify it and
        // keep every premise literal true.
        let k0 = choose|k: int|
            0 <= k < c.predicates@.len() && !occurs(
                ps,
                psig(#[trigger] c.predicates@[k]),
                c.predicates@[k].negated,
            );
        let l = c.predicates@[k0];
        let t = psig(l);
        let a = Map::new(
            |s: Sig| true,
            |s: Sig| if s == t { l.negated } else { occurs(ps, s, false) },
        );
        assert forall|i: int| 0 <= i < ps.len() implies stmt_true(a, #[trigger] ps[i]) by {
            assert forall|j: int| 0 <= j < ps[i].predicates@.len() implies lit_true(
                a,
                #[trigger] ps[i].predicates@[j],
            ) by {
                let p = ps[i].predicates@[j];
                if psig(p) == t {
                    assert(occurs(ps, t, p.negated));
                    assert(p.negated != l.negated);
                    assert(a[t] == l.negated);
                } else {
                    if p.negated {
                        assert(occurs(ps, psig(p), true));
                        assert(!occurs(ps, psig(p), false));
                    } else {
                        assert(occurs(ps, psig(p), false));
                    }
                }
            }
        }
        assert(all_true(a, ps));
        assert(a[t] == l.negated);
        assert(!lit_true(a, l));
        assert(!stmt_true(a, c));
    }
}

/// Pairwise completeness: an unsatisfiable set of two or more statements
/// always holds a pair, taken in isolation, that is itself unsatisfiable.
pub proof fn lemma_pairwise_completeness(ss: Seq<Statement>)
    requires
        !set_sat(ss),
        ss.len() >= 2,
    ensures
        exists|i: int, j: int| 0 <= i < j < ss.len() && pair_unsat(ss[i], ss[j]),
{
    lemma_sat_iff_no_clash(ss);
    let s = choose|s: Sig| #[trigger] occurs(ss, s, false) && occurs(ss, s, true);
    let (i1, k1) = choose|i: int, k: int|
        0 <= i < ss.len() && 0 <= k < ss[i].predicates@.len()
            && psig(#[trigger] ss[i].predicates@[k]) == s && ss[i].predicates@[k].negated == false;
    let (i2, k2) = choose|i: int, k: int|
        0 <= i < ss.len() && 0 <= k < ss[i].predicates@.len()
            && psig(#[trigger] ss[i].predicates@[k]) == s && ss[i].predicates@[k].negated == true;
    let u = if i1 == i2 {
        if i1 == 0 {
            1int
        } else {
            0int
        }
    } else {
        i2
    };
    let i = if i1 < u {
        i1
    } else {
        u
    };
    let j = if i1 < u {
        u
    } else {
        i1
    };
    let pair = seq![ss[i], ss[j]];
    let pi1: int = if i1 == i {
        0
    } else {
        1
    };
    let pi2: int = if i2 == i {
        0
    } else {
        1
    };
    assert(pair[pi1] == ss[i1]);
    assert(pair[pi2] == ss[i2]);
    assert(psig(pair[pi1].predicates@[k1]) == s && pair[pi1].predicates@[k1].negated == false);
    assert(psig(pair[pi2].predicates@[k2]) == s && pair[pi2].predicates@[k2].negated == true);
    assert(occurs(pair, s, false));
    assert(occurs(pair, s, true));
    assert(has_clash(pair));
    lemma_sat_iff_no_clash(pair);
    assert(pair_unsat(ss[i], ss[j]));
}

/// Entailment by refutation is dual to consistency: for a single-literal
/// conclusion, the premises entail it exactly when adding the negated
/// conclusion, as a statement, makes the set inconsistent.
pub proof fn lemma_entailment_refutation_duality(ps: Seq<Statement>, c: Statement, nc: Statement)
    requires
        c.predicates@.len() == 1,
        nc.predicates@.len() == 1,
        psig(nc.predicates@[0]) == psig(c.predicates@[0]),
        nc.predicates@[0].negated == !c.predicates@[0].negated,
    ensures
        entails_sem(ps, c) <==> !set_sat(ps.push(nc)),
{
    let extended = ps.push(nc);
    assert forall|a: Map<Sig, bool>|
        all_true(a, extended) == (all_true(a, ps) && !stmt_true(a, c)) by {
        assert(extended[ps.len() as int] == nc);
        assert(lit_true(a, nc.predicates@[0]) == !lit_true(a, c.predicates@[0]));
        if all_true(a, extended) {
            assert forall|i: int| 0 <= i < ps.len() implies stmt_true(a, #[trigger] ps[i]) by {
                assert(extended[i] == ps[i]);
            }
            assert(stmt_true(a, nc));
            assert(lit_true(a, nc.predicates@[0]));
            assert(!lit_true(a, c.predicates@[0]));
            assert(!stmt_true(a, c));
        }
        if all_true(a, ps) && !stmt_true(a, c) {
            assert(exists|k: int| 0 <= k < c.predicates@.len() && !lit_true(
                a,
                #[trigger] c.predicates@[k],
            ));
            let k = choose|k: int|
                0 <= k < c.predicates@.len() && !lit_true(a, #[trigger] c.predicates@[k]);
            assert(k == 0);
            assert(lit_true(a, nc.predicates@[0]));
            assert forall|k2: int| 0 <= k2 < nc.predicates@.len() implies lit_true(
                a,
                #[trigger] nc.predicates@[k2],
            ) by {
                assert(k2 == 0);
            }
            assert(stmt_true(a, nc));
            assert forall|i: int| 0 <= i < extended.len() implies stmt_true(
                a,
                #[trigger] extended[i],
            ) by {
                if i < ps.len() {
                    assert(extended[i] == ps[i]);
                } else {
                    assert(extended[i] == nc);
                }
            }
        }
    }
    if entails_sem(ps, c) {
        assert forall|a: Map<Sig, bool>| !all_true(a, extended) by {
            if all_true(a, extended) {
                assert(all_true(a, ps) && !stmt_true(a, c));
            }
        }
    }
    if !set_sat(extended) {
        assert forall|a: Map<Sig, bool>| all_true(a, ps) implies stmt_true(a, c) by {
            if !stmt_true(a, c) {
                assert(all_true(a, extended));
            }
        }
    }
}

} // verus!
