//! The natural-language statement parser: it maps fixed sentence substrings
//! to predicates over shared subjects. The recognized patterns are a closed
//! set; text that matches none of them yields a statement with no
//! predicates.

use vstd::prelude::*;
use crate::text::{contains_sub, has_sub, lower_of, to_lowercase};
use crate::types::{Predicate, Statement};

verus! {

/// The view of one predicate: name, arguments, polarity.
pub open spec fn pred_view(p: Predicate) -> (Seq<char>, Seq<Seq<char>>, bool) {
    (p.name@, p.args.deep_view(), p.negated)
}

/// The views of a predicate list.
pub open spec fn preds_view(ps: Seq<Predicate>) -> Seq<(Seq<char>, Seq<Seq<char>>, bool)> {
    Seq::new(ps.len(), |i: int| pred_view(ps[i]))
}

/// A single-argument view.
pub open spec fn one_arg(a: Seq<char>) -> Seq<Seq<char>> {
    seq![a]
}

/// The predicates that the parser emits for the lower-cased text `lo`, in
/// order of the recognized patterns.
pub open spec fn parse_spec(lo: Seq<char>) -> Seq<(Seq<char>, Seq<Seq<char>>, bool)> {
    let g1: Seq<(Seq<char>, Seq<Seq<char>>, bool)> = if has_sub(lo, "all"@) && has_sub(
        lo,
        "perfectly logical"@,
    ) {
        seq![
            ("ai_system_perfectly_logical"@, one_arg("ai_systems"@), false),
            ("ai_systems_contain_contradictions"@, one_arg("ai_systems"@), true),
        ]
    } else {
        Seq::empty()
    };
    let g2: Seq<(Seq<char>, Seq<Seq<char>>, bool)> = if has_sub(
        lo,
        "ai systems contain contradictions"@,
    ) || has_sub(lo, "current ai systems contain contradictions"@) {
        seq![("ai_systems_contain_contradictions"@, one_arg("ai_systems"@), false)]
    } else {
        Seq::empty()
    };
    let g3: Seq<(Seq<char>, Seq<Seq<char>>, bool)> = if has_sub(lo, "no"@) && has_sub(
        lo,
        "ai systems exist"@,
    ) {
        seq![("ai_systems_exist"@, one_arg("ai_systems"@), true)]
    } else {
        Seq::empty()
    };
    let g4: Seq<(Seq<char>, Seq<Seq<char>>, bool)> = if has_sub(lo, "we need"@) && has_sub(
        lo,
        "coherent tools"@,
    ) {
        seq![("need_coherent_tools"@, one_arg("we"@), false)]
    } else {
        Seq::empty()
    };
    let g5: Seq<(Seq<char>, Seq<Seq<char>>, bool)> = if has_sub(lo, "we need"@) && has_sub(
        lo,
        "validation"@,
    ) {
        seq![("need_validation"@, one_arg("we"@), false)]
    } else {
        Seq::empty()
    };
    let g6: Seq<(Seq<char>, Seq<Seq<char>>, bool)> = if has_sub(
        lo,
        "coherent tools require validation"@,
    ) {
        seq![
            ("coherent_tools_require_validation"@, one_arg("tools"@), false),
            ("need_validation_implied"@, one_arg("we"@), false),
        ]
    } else {
        Seq::empty()
    };
    let g7: Seq<(Seq<char>, Seq<Seq<char>>, bool)> = if has_sub(lo, "some"@) && has_sub(
        lo,
        "logical"@,
    ) {
        seq![("some_systems_logical"@, one_arg("systems"@), false)]
    } else {
        Seq::empty()
    };
    let g8: Seq<(Seq<char>, Seq<Seq<char>>, bool)> = if has_sub(lo, "some"@) && has_sub(
        lo,
        "errors"@,
    ) {
        seq![("some_systems_have_errors"@, one_arg("systems"@), false)]
    } else {
        Seq::empty()
    };
    g1 + g2 + g3 + g4 + g5 + g6 + g7 + g8
}

/// One predicate over a single subject argument.
pub(crate) fn make_pred(name: &str, arg: &str, negated: bool) -> (p: Predicate)
    ensures
        pred_view(p) == (name@, one_arg(arg@), negated),
{
    let mut args: Vec<String> = Vec::new();
    args.push(String::from_str(arg));
    proof {
        assert(args.deep_view() =~= one_arg(arg@));
    }
    Predicate { name: String::from_str(name), args, negated }
}

/// The group of predicates that one recognized pattern contributes.
pub open spec fn parse_group(lo: Seq<char>, g: int) -> Seq<(Seq<char>, Seq<Seq<char>>, bool)> {
    if g == 1 {
        if has_sub(lo, "all"@) && has_sub(lo, "perfectly logical"@) {
            seq![
                ("ai_system_perfectly_logical"@, one_arg("ai_systems"@), false),
                ("ai_systems_contain_contradictions"@, one_arg("ai_systems"@), true),
            ]
        } else {
            Seq::empty()
        }
    } else if g == 2 {
        if has_sub(lo, "ai systems contain contradictions"@) || has_sub(
            lo,
            "current ai systems contain contradictions"@,
        ) {
            seq![("ai_systems_contain_contradictions"@, one_arg("ai_systems"@), false)]
        } else {
            Seq::empty()
        }
    } else if g == 3 {
        if has_sub(lo, "no"@) && has_sub(lo, "ai systems exist"@) {
            seq![("ai_systems_exist"@, one_arg("ai_systems"@), true)]
        } else {
            Seq::empty()
        }
    } else if g == 4 {
        if has_sub(lo, "we need"@) && has_sub(lo, "coherent tools"@) {
            seq![("need_coherent_tools"@, one_arg("we"@), false)]
        } else {
            Seq::empty()
        }
    } else if g == 5 {
        if has_sub(lo, "we need"@) && has_sub(lo, "validation"@) {
            seq![("need_validation"@, one_arg("we"@), false)]
        } else {
            Seq::empty()
        }
    } else if g == 6 {
        if has_sub(lo, "coherent tools require validation"@) {
            seq![
                ("coherent_tools_require_validation"@, one_arg("tools"@), false),
                ("need_validation_implied"@, one_arg("we"@), false),
            ]
        } else {
            Seq::empty()
        }
    } else if g == 7 {
        if has_sub(lo, "some"@) && has_sub(lo, "logical"@) {
            seq![("some_systems_logical"@, one_arg("systems"@), false)]
        } else {
            Seq::empty()
        }
    } else if g == 8 {
        if has_sub(lo, "some"@) && has_sub(lo, "errors"@) {
            seq![("some_systems_have_errors"@, one_arg("systems"@), false)]
        } else {
            Seq::empty()
        }
    } else {
        Seq::empty()
    }
}

/// Parse a natural-language statement into formal predicates by fixed
/// substring patterns over the lower-cased text.
#[verifier::rlimit(100)]
pub fn parse_statement(text: &str, id: &str) -> (r: Statement)
    ensures
        r.id@ == id@,
        r.text@ == text@,
        preds_view(r.predicates@) == parse_spec(lower_of(text@)),
{
    let low_string = to_lowercase(text);
    let low = low_string.as_str();
    let ghost lo = lower_of(text@);
    let mut predicates: Vec<Predicate> = Vec::new();
    proof {
        assert(preds_view(predicates@) =~= Seq::<(Seq<char>, Seq<Seq<char>>, bool)>::empty());
    }

    if contains_sub(low, "all") && contains_sub(low, "perfectly logical") {
        predicates.push(make_pred("ai_system_perfectly_logical", "ai_systems", false));
        predicates.push(make_pred("ai_systems_contain_contradictions", "ai_systems", true));
    }
    let ghost acc1 = parse_group(lo, 1);
    proof {
        assert(preds_view(predicates@) =~= acc1);
    }

    if contains_sub(low, "ai systems contain contradictions") || contains_sub(
        low,
        "current ai systems contain contradictions",
    ) {
        predicates.push(make_pred("ai_systems_contain_contradictions", "ai_systems", false));
    }
    let ghost acc2 = acc1 + parse_group(lo, 2);
    proof {
        assert(preds_view(predicates@) =~= acc2);
    }

    if contains_sub(low, "no") && contains_sub(low, "ai systems exist") {
        predicates.push(make_pred("ai_systems_exist", "ai_systems", true));
    }
    let ghost acc3 = acc2 + parse_group(lo, 3);
    proof {
        assert(preds_view(predicates@) =~= acc3);
    }

    if contains_sub(low, "we need") {
        if contains_sub(low, "coherent tools") {
            predicates.push(make_pred("need_coherent_tools", "we", false));
        }
        let ghost acc4 = acc3 + parse_group(lo, 4);
        proof {
            assert(preds_view(predicates@) =~= acc4);
        }
        if contains_sub(low, "validation") {
            predicates.push(make_pred("need_validation", "we", false));
        }
    }
    let ghost acc5 = acc3 + parse_group(lo, 4) + parse_group(lo, 5);
    proof {
        if !has_sub(lo, "we need"@) {
            assert(parse_group(lo, 4) =~= Seq::<(Seq<char>, Seq<Seq<char>>, bool)>::empty());
            assert(parse_group(lo, 5) =~= Seq::<(Seq<char>, Seq<Seq<char>>, bool)>::empty());
        }
        assert(preds_view(predicates@) =~= acc5);
    }

    if contains_sub(low, "coherent tools require validation") {
        predicates.push(make_pred("coherent_tools_require_validation", "tools", false));
        predicates.push(make_pred("need_validation_implied", "we", false));
    }
    let ghost acc6 = acc5 + parse_group(lo, 6);
    proof {
        assert(preds_view(predicates@) =~= acc6);
    }

    if contains_sub(low, "some") && contains_sub(low, "logical") {
        predicates.push(make_pred("some_systems_logical", "systems", false));
    }
    let ghost acc7 = acc6 + parse_group(lo, 7);
    proof {
        assert(preds_view(predicates@) =~= acc7);
    }

    if contains_sub(low, "some") && contains_sub(low, "errors") {
        predicates.push(make_pred("some_systems_have_errors", "systems", false));
    }
    let ghost acc8 = acc7 + parse_group(lo, 8);
    proof {
        assert(preds_view(predicates@) =~= acc8);
        assert(parse_spec(lo) =~= acc8);
    }
    Statement { id: String::from_str(id), text: String::from_str(text), predicates }
}

} // verus!
