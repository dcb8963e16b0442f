//! The atom registry: a call-scoped arena that maps each atom signature to a
//! single logical variable, so that the same signature always refers to the
//! same variable within one verification call.

use vstd::prelude::*;
use crate::logic::Sig;

verus! {

/// The registry stores the signature of each interned atom; the variable for
/// a signature is its index in the store.
pub struct AtomRegistry {
    pub sigs: Vec<(String, Vec<String>)>,
}

impl AtomRegistry {
    /// How many variables have been interned.
    pub open spec fn spec_len(self) -> nat {
        self.sigs@.len()
    }

    /// The signature registered for variable `i`.
    pub open spec fn sig_at(self, i: int) -> Sig {
        (self.sigs@[i].0@, self.sigs@[i].1.deep_view())
    }

    /// Distinct variables always carry distinct signatures.
    pub open spec fn wf(self) -> bool {
        forall|i: int, j: int|
            0 <= i < j < self.spec_len() ==> self.sig_at(i) != self.sig_at(j)
    }

    /// Whether some variable is already registered for signature `s`.
    pub open spec fn contains_sig(self, s: Sig) -> bool {
        exists|i: int| 0 <= i < self.spec_len() && #[trigger] self.sig_at(i) == s
    }

    /// Whether `other` keeps every variable of `self`, with its signature.
    pub open spec fn extends(self, other: AtomRegistry) -> bool {
        &&& self.spec_len() <= other.spec_len()
        &&& forall|i: int| 0 <= i < self.spec_len() ==> other.sig_at(i) == #[trigger] self.sig_at(i)
    }

    /// A fresh, empty registry.
    pub fn new() -> (r: AtomRegistry)
        ensures
            r.spec_len() == 0,
            r.wf(),
    {
        AtomRegistry { sigs: Vec::new() }
    }

    /// Discard every interned atom, for the start of an independent call.
    pub fn clear(&mut self)
        ensures
            final(self).spec_len() == 0,
            final(self).wf(),
    {
        self.sigs = Vec::new();
    }

    /// The number of interned variables.
    pub fn len(&self) -> (n: usize)
        ensures
            n == self.spec_len(),
    {
        self.sigs.len()
    }

    /// Intern a signature: return the existing variable if the signature was
    /// seen earlier in this call, otherwise create and store a new one.
    pub fn intern(&mut self, name: &String, args: &Vec<String>) -> (v: usize)
        requires
            old(self).wf(),
        ensures
            final(self).wf(),
            old(self).extends(*final(self)),
            v < final(self).spec_len(),
            final(self).sig_at(v as int) == (name@, args.deep_view()),
            old(self).contains_sig((name@, args.deep_view())) ==> *final(self) == *old(self),
            !old(self).contains_sig((name@, args.deep_view())) ==> final(self).spec_len() == old(
                self,
            ).spec_len() + 1 && v == old(self).spec_len(),
    {
        let ghost target: Sig = (name@, args.deep_view());
        let n = self.sigs.len();
        for i in 0..n
            invariant
                n == self.spec_len(),
                target == (name@, args.deep_view()),
                forall|k: int| 0 <= k < i ==> #[trigger] self.sig_at(k) != target,
                old(self).wf(),
                *self == *old(self),
        {
            let same_name = name.eq(&self.sigs[i].0);
            if same_name {
                let same_args = string_vecs_equal(args, &self.sigs[i].1);
                if same_args {
                    proof {
                        assert(self.sig_at(i as int) == target);
                    }
                    return i;
                }
                proof {
                    assert(args.deep_view() != self.sigs@[i as int].1.deep_view());
                    assert(self.sig_at(i as int) != target);
                }
            } else {
                proof {
                    assert(name@ != self.sigs@[i as int].0@);
                    assert(self.sig_at(i as int) != target);
                }
            }
        }
        proof {
            assert(!old(self).contains_sig(target));
        }
        let entry = (clone_string(name), clone_string_vec(args));
        proof {
            assert(entry.0@ == name@ && entry.1.deep_view() == args.deep_view());
        }
        self.sigs.push(entry);
        proof {
            assert(self.sig_at(n as int) == target);
            assert forall|i: int| 0 <= i < old(self).spec_len() implies self.sig_at(i) == old(
                self,
            ).sig_at(i) by {
                assert(self.sigs@[i] == old(self).sigs@[i]);
            }
            assert forall|i: int, j: int| 0 <= i < j < self.spec_len() implies self.sig_at(i)
                != self.sig_at(j) by {
                if j < n {
                    assert(old(self).sig_at(i) != old(self).sig_at(j));
                } else {
                    assert(self.sig_at(i) == old(self).sig_at(i));
                    assert(self.sig_at(i) != target);
                }
            }
        }
        n
    }
}

/// Whether two string vectors hold the same character sequences.
pub fn string_vecs_equal(a: &Vec<String>, b: &Vec<String>) -> (r: bool)
    ensures
        r == (a.deep_view() == b.deep_view()),
{
    if a.len() != b.len() {
        proof {
            assert(a.deep_view().len() != b.deep_view().len());
        }
        return false;
    }
    let n = a.len();
    for i in 0..n
        invariant
            n == a@.len() && n == b@.len(),
            forall|k: int| 0 <= k < i ==> #[trigger] a.deep_view()[k] == b.deep_view()[k],
    {
        if !a[i].eq(&b[i]) {
            proof {
                assert(a.deep_view()[i as int] != b.deep_view()[i as int]);
            }
            return false;
        }
        proof {
            assert(a.deep_view()[i as int] == b.deep_view()[i as int]);
        }
    }
    proof {
        assert(a.deep_view() =~= b.deep_view());
    }
    true
}

/// A copy of a string, character for character.
pub fn clone_string(s: &String) -> (r: String)
    ensures
        r@ == s@,
{
    s.clone()
}

/// A copy of a string vector, character for character.
pub fn clone_string_vec(v: &Vec<String>) -> (r: Vec<String>)
    ensures
        r.deep_view() == v.deep_view(),
        r@.len() == v@.len(),
{
    let mut r: Vec<String> = Vec::new();
    let n = v.len();
    for i in 0..n
        invariant
            n == v@.len(),
            r@.len() == i,
            forall|k: int| 0 <= k < i ==> #[trigger] r@[k]@ == v@[k]@,
    {
        r.push(clone_string(&v[i]));
    }
    proof {
        assert forall|k: int| 0 <= k < n implies #[trigger] r.deep_view()[k] == v.deep_view()[k] by {
            assert(r@[k]@ == v@[k]@);
            assert(r.deep_view()[k] == r@[k].deep_view());
            assert(v.deep_view()[k] == v@[k].deep_view());
        }
    }
    proof {
        assert(r.deep_view() =~= v.deep_view());
    }
    r
}

} // verus!
