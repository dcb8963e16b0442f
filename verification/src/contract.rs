//! The contract extractor: it reads a function's name and docstring out of
//! source-like text by line scanning, and turns fixed docstring keywords
//! into pre- and postcondition names.

use vstd::prelude::*;
use crate::text::{contains_sub, find_from, has_sub, is_prefix, join_spec, join_with, lines_spec,
    lower_of, nth1_token, second_token, split_lines, starts_with_sub, strip_prefix_rep,
    strip_prefix_repeated, strip_suffix_rep, strip_suffix_repeated, to_lowercase, trim_spec,
    trim_ws};
use crate::types::VerifierError;

verus! {

/// A function contract extracted from a docstring: named conditions plus
/// the origin text.
#[derive(Debug, Clone)]
pub struct FunctionContract {
    pub name: String,
    pub preconditions: Vec<String>,
    pub postconditions: Vec<String>,
    pub input_types: Vec<String>,
    pub output_type: Option<String>,
    pub docstring: Option<String>,
}

/// Extracts formal contracts from function signatures and docstrings.
pub struct ContractExtractor;

/// The first line at or after `i` whose trimmed text starts with `def `,
/// or the number of lines.
pub open spec fn def_index(lines: Seq<Seq<char>>, i: int) -> int
    decreases lines.len() - i,
{
    if i < 0 || i >= lines.len() {
        lines.len() as int
    } else if is_prefix(trim_spec(lines[i]), "def "@) {
        i
    } else {
        def_index(lines, i + 1)
    }
}

/// The function name read out of a line list: the second token of the
/// first `def ` line, cut at the first opening parenthesis.
pub open spec fn fname_from_lines(lines: Seq<Seq<char>>) -> Seq<char> {
    let d = def_index(lines, 0);
    if d >= lines.len() {
        "unknown_function"@
    } else {
        match second_token(lines[d]) {
            Option::None => "unknown_function"@,
            Option::Some(tok) => tok.subrange(0, find_from(tok, '(', 0)),
        }
    }
}

/// The function name the extractor reads out of the text.
pub open spec fn fname_spec(code: Seq<char>) -> Seq<char> {
    fname_from_lines(lines_spec(code))
}

/// Read the function name out of split lines: the second token of the
/// first `def ` line, cut at the first opening parenthesis.
pub fn function_name_from(lines: &Vec<String>) -> (r: String)
    ensures
        r@ == fname_from_lines(lines.deep_view()),
{
    let ghost ls = lines.deep_view();
    let n = lines.len();
    let mut d: usize = 0;
    while d < n && !starts_with_sub(trim_ws(lines[d].as_str()), "def ")
        invariant
            n == ls.len(),
            lines.deep_view() == ls,
            d <= n,
            def_index(ls, 0) == def_index(ls, d as int),
        decreases n - d,
    {
        proof {
            assert(trim_spec(ls[d as int]) == trim_spec(lines@[d as int]@));
        }
        d = d + 1;
    }
    proof {
        assert(def_index(ls, 0) == if d < n {
            d as int
        } else {
            ls.len() as int
        });
    }
    let mut name_str = String::from_str("unknown_function");
    if d < n {
        match nth1_token(lines[d].as_str()) {
            Some(tok) => {
                let tn = tok.unicode_len();
                let mut pos: usize = 0;
                while pos < tn && tok.get_char(pos) != '('
                    invariant
                        tn == tok@.len(),
                        pos <= tn,
                        find_from(tok@, '(', 0) == find_from(tok@, '(', pos as int),
                    decreases tn - pos,
                {
                    pos = pos + 1;
                }
                proof {
                    assert(find_from(tok@, '(', 0) == pos as int);
                }
                name_str = tok.substring_char(0, pos).to_owned();
            },
            None => {},
        }
    }
    proof {
        assert(name_str@ == fname_from_lines(ls));
    }
    name_str
}

/// The content of a one-line docstring: the quote markers stripped off both
/// ends.
pub open spec fn single_line_content(t: Seq<char>) -> Seq<char> {
    strip_suffix_rep(
        strip_suffix_rep(strip_prefix_rep(strip_prefix_rep(t, "\"\"\""@), "'''"@), "\"\"\""@),
        "'''"@,
    )
}

/// The docstring lines collected from line `i` on: a quote marker opens the
/// docstring, a second one closes it, and a one-line docstring is its own
/// content.
pub open spec fn doc_lines_from(lines: Seq<Seq<char>>, i: int, inside: bool) -> Seq<Seq<char>>
    decreases lines.len() - i,
{
    if i < 0 || i >= lines.len() {
        Seq::empty()
    } else {
        let t = trim_spec(lines[i]);
        if is_prefix(t, "\"\"\""@) || is_prefix(t, "'''"@) {
            if inside {
                Seq::empty()
            } else if t.len() > 3 {
                seq![single_line_content(t)]
            } else {
                doc_lines_from(lines, i + 1, true)
            }
        } else if inside {
            seq![t] + doc_lines_from(lines, i + 1, true)
        } else {
            doc_lines_from(lines, i + 1, false)
        }
    }
}

/// The docstring of the text, when the line scan finds one: its collected
/// lines joined with single blanks.
pub open spec fn doc_spec(code: Seq<char>) -> Option<Seq<char>> {
    let dls = doc_lines_from(lines_spec(code), 0, false);
    if dls.len() == 0 {
        Option::None
    } else {
        Option::Some(join_spec(dls, " "@))
    }
}

/// The postcondition names that the fixed keywords of a lower-cased
/// docstring contribute.
pub open spec fn post_patterns(dl: Seq<char>) -> Seq<Seq<char>> {
    (if has_sub(dl, "sorted"@) {
        seq!["result_is_sorted"@]
    } else {
        Seq::empty()
    }) + (if has_sub(dl, "ascending"@) {
        seq!["result_ascending_order"@]
    } else {
        Seq::empty()
    })
}

/// The precondition names that the fixed keywords of a lower-cased
/// docstring contribute.
pub open spec fn pre_patterns(dl: Seq<char>) -> Seq<Seq<char>> {
    if has_sub(dl, "non-negative"@) || has_sub(dl, "positive"@) {
        seq!["input_non_negative"@]
    } else {
        Seq::empty()
    }
}

/// The postcondition names extracted from the text.
pub open spec fn posts_spec(code: Seq<char>) -> Seq<Seq<char>> {
    match doc_spec(code) {
        Option::None => Seq::empty(),
        Option::Some(d) => post_patterns(lower_of(d)),
    }
}

/// The precondition names extracted from the text.
pub open spec fn pres_spec(code: Seq<char>) -> Seq<Seq<char>> {
    match doc_spec(code) {
        Option::None => Seq::empty(),
        Option::Some(d) => pre_patterns(lower_of(d)),
    }
}

impl ContractExtractor {
    /// Parse a docstring for contract keywords and add the conditions they
    /// name to the contract.
    pub fn parse_docstring_contracts(&self, contract: &mut FunctionContract, docstring: &str) -> (r:
        Result<(), VerifierError>)
        ensures
            r is Ok,
            final(contract).postconditions.deep_view() == old(
                contract,
            ).postconditions.deep_view() + post_patterns(lower_of(docstring@)),
            final(contract).preconditions.deep_view() == old(
                contract,
            ).preconditions.deep_view() + pre_patterns(lower_of(docstring@)),
            final(contract).name == old(contract).name,
            final(contract).input_types == old(contract).input_types,
            final(contract).output_type == old(contract).output_type,
            final(contract).docstring == old(contract).docstring,
    {
        let low_string = to_lowercase(docstring);
        let low = low_string.as_str();
        let ghost dl = lower_of(docstring@);
        let ghost posts0 = contract.postconditions.deep_view();
        let ghost pres0 = contract.preconditions.deep_view();

        if contains_sub(low, "sorted") {
            contract.postconditions.push(String::from_str("result_is_sorted"));
        }
        if contains_sub(low, "ascending") {
            contract.postconditions.push(String::from_str("result_ascending_order"));
        }
        if contains_sub(low, "non-negative") || contains_sub(low, "positive") {
            contract.preconditions.push(String::from_str("input_non_negative"));
        }
        proof {
            assert(contract.postconditions.deep_view() =~= posts0 + post_patterns(dl));
            assert(contract.preconditions.deep_view() =~= pres0 + pre_patterns(dl));
        }
        Ok(())
    }

    /// Extract a contract from source-like text: the function name from the
    /// first `def ` line, the docstring from the quote markers, and the
    /// conditions from the docstring's keywords.
    pub fn extract_contract_from_text(&self, code: &str) -> (r: Result<
        FunctionContract,
        VerifierError,
    >)
        ensures
            r is Ok,
            (r matches Ok(c) ==> ({
                &&& c.name@ == fname_spec(code@)
                &&& (c.docstring matches Some(d) ==> doc_spec(code@) == Option::Some(d@))
                &&& (c.docstring is None <==> doc_spec(code@) is None)
                &&& c.postconditions.deep_view() == posts_spec(code@)
                &&& c.preconditions.deep_view() == pres_spec(code@)
                &&& c.input_types@.len() == 0
                &&& c.output_type is None
            })),
    {
        let lines = split_lines(code);
        let ghost ls = lines_spec(code@);
        let n = lines.len();
        let name_str = function_name_from(&lines);
        proof {
            assert(name_str@ == fname_spec(code@));
        }

        // The docstring lines, collected by the quote-marker state machine.
        proof {
            reveal_strlit("\"\"\"");
            reveal_strlit("'''");
        }
        let ghost full = doc_lines_from(ls, 0, false);
        let mut doc_lines_v: Vec<String> = Vec::new();
        let mut inside = false;
        let mut i: usize = 0;
        proof {
            assert(doc_lines_v.deep_view() =~= Seq::<Seq<char>>::empty());
        }
        while i < n
            invariant_except_break
                n == ls.len(),
                lines.deep_view() == ls,
                i <= n,
                full == doc_lines_from(ls, 0, false),
                full =~= doc_lines_v.deep_view() + doc_lines_from(ls, i as int, inside),
                "\"\"\""@.len() == 3,
                "'''"@.len() == 3,
            ensures
                full =~= doc_lines_v.deep_view(),
            decreases n - i,
        {
            let t = trim_ws(lines[i].as_str());
            proof {
                assert(t@ == trim_spec(ls[i as int]));
            }
            let is_quote = starts_with_sub(t, "\"\"\"") || starts_with_sub(t, "'''");
            if is_quote {
                if inside {
                    proof {
                        assert(doc_lines_from(ls, i as int, true) =~= Seq::<Seq<char>>::empty());
                    }
                    break;
                }
                if t.unicode_len() > 3 {
                    let c1 = strip_prefix_repeated(t, "\"\"\"");
                    let c2 = strip_prefix_repeated(c1, "'''");
                    let c3 = strip_suffix_repeated(c2, "\"\"\"");
                    let c4 = strip_suffix_repeated(c3, "'''");
                    let ghost dv_old = doc_lines_v.deep_view();
                    doc_lines_v.push(c4.to_owned());
                    proof {
                        assert(c4@ == single_line_content(t@));
                        assert(doc_lines_from(ls, i as int, false) =~= seq![
                            single_line_content(t@),
                        ]);
                        assert(doc_lines_v.deep_view() =~= dv_old.push(c4@));
                        assert(full =~= doc_lines_v.deep_view());
                    }
                    break;
                }
                proof {
                    assert(doc_lines_from(ls, i as int, false) == doc_lines_from(
                        ls,
                        i as int + 1,
                        true,
                    ));
                }
                inside = true;
            } else if inside {
                let ghost dv_old = doc_lines_v.deep_view();
                doc_lines_v.push(t.to_owned());
                proof {
                    assert(doc_lines_from(ls, i as int, true) =~= seq![t@] + doc_lines_from(
                        ls,
                        i as int + 1,
                        true,
                    ));
                    assert(doc_lines_v.deep_view() =~= dv_old.push(t@));
                    assert(full =~= doc_lines_v.deep_view() + doc_lines_from(
                        ls,
                        i as int + 1,
                        true,
                    ));
                }
            } else {
                proof {
                    assert(doc_lines_from(ls, i as int, false) == doc_lines_from(
                        ls,
                        i as int + 1,
                        false,
                    ));
                }
            }
            i = i + 1;
        }

        let mut contract = FunctionContract {
            name: name_str,
            preconditions: Vec::new(),
            postconditions: Vec::new(),
            input_types: Vec::new(),
            output_type: None,
            docstring: None,
        };
        proof {
            assert(contract.postconditions.deep_view() =~= Seq::<Seq<char>>::empty());
            assert(contract.preconditions.deep_view() =~= Seq::<Seq<char>>::empty());
        }
        if doc_lines_v.len() > 0 {
            let doc = join_with(&doc_lines_v, " ");
            proof {
                assert(doc@ == join_spec(full, " "@));
                assert(doc_spec(code@) == Option::Some(doc@));
            }
            let doc_for_parse = doc.as_str().to_owned();
            contract.docstring = Some(doc);
            let parsed = self.parse_docstring_contracts(&mut contract, doc_for_parse.as_str());
            proof {
                assert(parsed is Ok);
                assert(contract.postconditions.deep_view() =~= posts_spec(code@));
                assert(contract.preconditions.deep_view() =~= pres_spec(code@));
            }
        } else {
            proof {
                assert(doc_spec(code@) is None);
                assert(posts_spec(code@) =~= Seq::<Seq<char>>::empty());
                assert(pres_spec(code@) =~= Seq::<Seq<char>>::empty());
            }
        }
        Ok(contract)
    }
}

} // verus!
