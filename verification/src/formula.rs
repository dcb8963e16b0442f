//! The formula builder: a statement becomes the conjunction of its literals,
//! each literal a possibly negated variable resolved through the atom
//! registry.

use vstd::prelude::*;
use crate::logic::psig;
use crate::registry::AtomRegistry;
use crate::types::Predicate;
use crate::types::Statement;

verus! {

/// A literal over an interned variable.
#[derive(Clone, Copy)]
pub struct Lit {
    pub var: usize,
    pub neg: bool,
}

/// The formula of one statement: the conjunction of its literals. An empty
/// literal list is the constant true.
pub struct Formula {
    pub lits: Vec<Lit>,
}

/// Whether a literal stands for a predicate occurrence: its variable is
/// registered with the predicate's signature, and its polarity agrees.
pub open spec fn lit_matches(reg: AtomRegistry, l: Lit, p: Predicate) -> bool {
    &&& l.var < reg.spec_len()
    &&& reg.sig_at(l.var as int) == psig(p)
    &&& l.neg == p.negated
}

/// Whether a literal list stands for a statement, literal for literal.
pub open spec fn formula_matches(reg: AtomRegistry, ls: Seq<Lit>, s: Statement) -> bool {
    &&& ls.len() == s.predicates@.len()
    &&& forall|k: int|
        0 <= k < ls.len() ==> lit_matches(reg, #[trigger] ls[k], s.predicates@[k])
}

/// Whether a sequence of literal lists stands for a sequence of statements.
pub open spec fn all_match(reg: AtomRegistry, fs: Seq<Seq<Lit>>, ss: Seq<Statement>) -> bool {
    &&& fs.len() == ss.len()
    &&& forall|i: int| 0 <= i < fs.len() ==> formula_matches(reg, #[trigger] fs[i], ss[i])
}

/// The literal lists of a vector of formulas.
pub open spec fn lits_of(fs: Seq<Formula>) -> Seq<Seq<Lit>> {
    Seq::new(fs.len(), |i: int| fs[i].lits@)
}

/// Growing the registry never invalidates a literal built earlier.
pub proof fn lemma_lit_matches_extends(r1: AtomRegistry, r2: AtomRegistry, l: Lit, p: Predicate)
    requires
        lit_matches(r1, l, p),
        r1.extends(r2),
    ensures
        lit_matches(r2, l, p),
{
    assert(r2.sig_at(l.var as int) == r1.sig_at(l.var as int));
}

/// Growing the registry never invalidates a formula built earlier.
pub proof fn lemma_formula_matches_extends(
    r1: AtomRegistry,
    r2: AtomRegistry,
    ls: Seq<Lit>,
    s: Statement,
)
    requires
        formula_matches(r1, ls, s),
        r1.extends(r2),
    ensures
        formula_matches(r2, ls, s),
{
    assert forall|k: int| 0 <= k < ls.len() implies lit_matches(
        r2,
        #[trigger] ls[k],
        s.predicates@[k],
    ) by {
        lemma_lit_matches_extends(r1, r2, ls[k], s.predicates@[k]);
    }
}

/// Registry extension is transitive.
pub proof fn lemma_extends_trans(a: AtomRegistry, b: AtomRegistry, c: AtomRegistry)
    requires
        a.extends(b),
        b.extends(c),
    ensures
        a.extends(c),
{
}

impl Formula {
    /// A copy of this formula, literal for literal.
    pub fn duplicate(&self) -> (r: Formula)
        ensures
            r.lits@ == self.lits@,
    {
        let mut lits: Vec<Lit> = Vec::new();
        let n = self.lits.len();
        for k in 0..n
            invariant
                n == self.lits@.len(),
                lits@.len() == k,
                forall|m: int| 0 <= m < k ==> #[trigger] lits@[m] == self.lits@[m],
        {
            lits.push(self.lits[k]);
        }
        proof {
            assert(lits@ =~= self.lits@);
        }
        Formula { lits }
    }
}

/// Build a statement's formula: resolve each predicate through the registry,
/// in order, and keep its polarity.
pub fn build_formula(reg: &mut AtomRegistry, s: &Statement) -> (f: Formula)
    requires
        old(reg).wf(),
    ensures
        final(reg).wf(),
        old(reg).extends(*final(reg)),
        formula_matches(*final(reg), f.lits@, *s),
{
    let mut lits: Vec<Lit> = Vec::new();
    let n = s.predicates.len();
    for k in 0..n
        invariant
            n == s.predicates@.len(),
            reg.wf(),
            old(reg).extends(*reg),
            lits@.len() == k,
            forall|m: int| 0 <= m < k ==> lit_matches(*reg, #[trigger] lits@[m], s.predicates@[m]),
    {
        let p = &s.predicates[k];
        let ghost reg_before = *reg;
        let v = reg.intern(&p.name, &p.args);
        lits.push(Lit { var: v, neg: p.negated });
        proof {
            lemma_extends_trans(*old(reg), reg_before, *reg);
            assert forall|m: int| 0 <= m < k + 1 implies lit_matches(
                *reg,
                #[trigger] lits@[m],
                s.predicates@[m],
            ) by {
                if m < k {
                    lemma_lit_matches_extends(reg_before, *reg, lits@[m], s.predicates@[m]);
                } else {
                    assert(reg.sig_at(v as int) == psig(s.predicates@[m]));
                }
            }
        }
    }
    Formula { lits }
}

} // verus!
