//! The attribute parser: from the argument list of a UDF annotation to the
//! descriptor the generator works from, with the exact diagnostic for every
//! malformed argument.

use vstd::prelude::*;
use crate::text::str_eq;

verus! {

broadcast use vstd::string::group_string_axioms;

/// The value of one annotation argument, as the attribute grammar sees it.
#[derive(Debug, PartialEq)]
pub enum AttrValue {
    /// A string literal.
    Str(String),
    /// A boolean literal.
    Bool(bool),
    /// A bracketed list of values.
    List(Vec<AttrValue>),
    /// Any other expression, carried as its printed text.
    Other(String),
}

/// One argument of the UDF annotation: a key and the value assigned to it.
#[derive(Debug, PartialEq)]
pub struct AttrArg {
    pub key: String,
    pub value: AttrValue,
}

/// The parsed annotation options. Missing arguments keep their defaults.
#[derive(Debug, PartialEq)]
pub struct UdfAttrs {
    pub name: Option<String>,
    pub aliases: Vec<String>,
    pub needs_context: bool,
    pub can_return_errors: bool,
    pub result_nullable: Option<String>,
}

/// A parse failure: the diagnostic text, anchored to the offending argument
/// by its position in the argument list.
#[derive(Debug, PartialEq)]
pub struct AttrError {
    pub message: String,
    pub arg_index: usize,
}

/// The parser state as it folds over the arguments, at the level the
/// contracts speak of.
pub type DescState = (Option<Seq<char>>, Seq<Seq<char>>, bool, bool, Option<Seq<char>>);

/// The view of an optional string.
pub open spec fn opt_view(o: Option<String>) -> Option<Seq<char>> {
    match o {
        Some(s) => Some(s@),
        None => None,
    }
}

/// The alias strings of the first `i` list elements, or absent as soon as
/// one element is not a string literal.
pub open spec fn aliases_upto(vs: Seq<AttrValue>, i: int) -> Option<Seq<Seq<char>>>
    decreases i,
{
    if i <= 0 {
        Some(Seq::empty())
    } else {
        match aliases_upto(vs, i - 1) {
            Some(pre) => match vs[i - 1] {
                AttrValue::Str(s) => Some(pre.push(s@)),
                _ => None,
            },
            None => None,
        }
    }
}

/// The alias strings of a bracketed list, or absent when some element is not
/// a string literal.
pub open spec fn aliases_of(vs: Seq<AttrValue>) -> Option<Seq<Seq<char>>> {
    aliases_upto(vs, vs.len() as int)
}

pub proof fn lemma_aliases_none_sticks(vs: Seq<AttrValue>, i: int, k: int)
    requires
        0 <= i <= k,
        aliases_upto(vs, i) is None,
    ensures
        aliases_upto(vs, k) is None,
    decreases k - i,
{
    if i < k {
        lemma_aliases_none_sticks(vs, i + 1, k);
    }
}

pub proof fn lemma_parse_err_sticks(args: Seq<AttrArg>, i: int, k: int)
    requires
        0 <= i <= k,
        parse_upto(args, i) is Err,
    ensures
        parse_upto(args, k) == parse_upto(args, i),
    decreases k - i,
{
    if i < k {
        lemma_parse_err_sticks(args, i + 1, k);
    }
}

/// A legal value of the nullability policy.
pub open spec fn nullable_ok(s: Seq<char>) -> bool {
    s == "if_null"@ || s == "never"@ || s == "internal"@
}

/// One step of the parse: how a single `key = value` argument transforms the
/// state, or which diagnostic it fails with.
pub open spec fn parse_step(st: DescState, a: AttrArg) -> Result<DescState, Seq<char>> {
    if a.key@ == "name"@ {
        match a.value {
            AttrValue::Str(s) => Ok((Some(s@), st.1, st.2, st.3, st.4)),
            _ => Err("expected string literal"@),
        }
    } else if a.key@ == "aliases"@ {
        match a.value {
            AttrValue::List(vs) => match aliases_of(vs@) {
                Some(al) => Ok((st.0, st.1 + al, st.2, st.3, st.4)),
                None => Err("Expected string literal for function alias"@),
            },
            _ => Err("expected square brackets"@),
        }
    } else if a.key@ == "needs_context"@ {
        match a.value {
            AttrValue::Bool(b) => Ok((st.0, st.1, b, st.3, st.4)),
            _ => Err("expected boolean literal"@),
        }
    } else if a.key@ == "can_return_errors"@ {
        match a.value {
            AttrValue::Bool(b) => Ok((st.0, st.1, st.2, b, st.4)),
            _ => Err("expected boolean literal"@),
        }
    } else if a.key@ == "result_nullable"@ {
        match a.value {
            AttrValue::Str(s) => if nullable_ok(s@) {
                Ok((st.0, st.1, st.2, st.3, Some(s@)))
            } else {
                Err(
                    "Unsupported value for result_nullable attribute. Only if_null, never, internal are allowed."@,
                )
            },
            _ => Err("expected string literal"@),
        }
    } else {
        Err("Unknown attribute for UDF function"@)
    }
}

/// The state after folding the first `i` arguments, or the first failure
/// with the index of the argument that caused it.
pub open spec fn parse_upto(args: Seq<AttrArg>, i: int) -> Result<DescState, (Seq<char>, int)>
    decreases i,
{
    if i <= 0 {
        Ok((None, Seq::empty(), false, false, None))
    } else {
        match parse_upto(args, i - 1) {
            Ok(st) => match parse_step(st, args[i - 1]) {
                Ok(st2) => Ok(st2),
                Err(m) => Err((m, i - 1)),
            },
            Err(e) => Err(e),
        }
    }
}

/// The result of parsing a whole annotation argument list.
pub open spec fn parse_attrs_spec(args: Seq<AttrArg>) -> Result<DescState, (Seq<char>, int)> {
    parse_upto(args, args.len() as int)
}

/// Parse the arguments of a UDF annotation into a descriptor.
///
/// Arguments apply left to right; `name`, `needs_context`,
/// `can_return_errors` and `result_nullable` overwrite earlier occurrences,
/// while `aliases` lists accumulate. The first malformed argument aborts the
/// parse with exactly the diagnostic the grammar prescribes for it.
pub fn extract_udf_meta(args: &Vec<AttrArg>) -> (r: Result<UdfAttrs, AttrError>)
    ensures
        (r is Ok) == (parse_attrs_spec(args@) is Ok),
        r matches Ok(d) ==> parse_attrs_spec(args@) matches Ok(st) && opt_view(d.name) == st.0
            && d.aliases.deep_view() == st.1 && d.needs_context == st.2 && d.can_return_errors
            == st.3 && opt_view(d.result_nullable) == st.4,
        r matches Err(e) ==> parse_attrs_spec(args@) matches Err(em) && e.message@ == em.0
            && e.arg_index as int == em.1,
{
    let mut name: Option<String> = None;
    let mut aliases: Vec<String> = Vec::new();
    let mut needs_context: bool = false;
    let mut can_return_errors: bool = false;
    let mut result_nullable: Option<String> = None;
    let n = args.len();
    let mut i: usize = 0;
    while i < n
        invariant
            i <= n,
            n == args.len(),
            parse_upto(args@, i as int) matches Ok(st) && opt_view(name) == st.0
                && aliases.deep_view() == st.1 && needs_context == st.2 && can_return_errors
                == st.3 && opt_view(result_nullable) == st.4,
        decreases n - i,
    {
        let ghost st0: DescState = (
            opt_view(name),
            aliases.deep_view(),
            needs_context,
            can_return_errors,
            opt_view(result_nullable),
        );
        let a = &args[i];
        let kind: usize = if str_eq(a.key.as_str(), "name") {
            0
        } else if str_eq(a.key.as_str(), "aliases") {
            1
        } else if str_eq(a.key.as_str(), "needs_context") {
            2
        } else if str_eq(a.key.as_str(), "can_return_errors") {
            3
        } else if str_eq(a.key.as_str(), "result_nullable") {
            4
        } else {
            5
        };
        if kind == 0 {
            match &a.value {
                AttrValue::Str(s) => {
                    name = Some(s.clone());
                },
                _ => {
                    proof {
                        assert(parse_step(st0, args@[i as int]) is Err);
                        assert(parse_upto(args@, i as int + 1) is Err);
                        lemma_parse_err_sticks(args@, i as int + 1, args@.len() as int);
                    }
                    return Err(
                        AttrError { message: "expected string literal".to_owned(), arg_index: i },
                    );
                },
            }
        } else if kind == 1 {
            match &a.value {
                AttrValue::List(vs) => {
                    let ghost aliases0 = aliases.deep_view();
                    let m = vs.len();
                    let mut j: usize = 0;
                    while j < m
                        invariant
                            j <= m,
                            m == vs.len(),
                            i < n,
                            n == args.len(),
                            args@[i as int].key@ == "aliases"@,
                            args@[i as int].value == AttrValue::List(*vs),
                            parse_upto(args@, i as int) == Result::<DescState, (Seq<char>, int)>::Ok(st0),
                            aliases0 == st0.1,
                            args@[i as int].key@ != "name"@,
                            aliases_upto(vs@, j as int) matches Some(pre) && aliases.deep_view()
                                == aliases0 + pre,
                        decreases m - j,
                    {
                        match &vs[j] {
                            AttrValue::Str(s) => {
                                proof {
                                    assert(vs@[j as int] == AttrValue::Str(*s));
                                }
                                let ghost pre0 = aliases_upto(vs@, j as int)->0;
                                let ghost dv0 = aliases.deep_view();
                                aliases.push(s.clone());
                                j = j + 1;
                                proof {
                                    assert(aliases.deep_view() =~= dv0.push(s@));
                                    assert(aliases_upto(vs@, j as int) == Some(pre0.push(s@)));
                                    assert(aliases0 + pre0.push(s@) =~= (aliases0 + pre0).push(
                                        s@,
                                    ));
                                }
                            },
                            _ => {
                                proof {
                                    assert(aliases_upto(vs@, j as int + 1) is None);
                                    lemma_aliases_none_sticks(vs@, j as int + 1, vs@.len() as int);
                                    assert(aliases_of(vs@) is None);
                                    assert(parse_step(st0, args@[i as int]) is Err);
                                    assert(parse_upto(args@, i as int + 1) is Err);
                                    lemma_parse_err_sticks(args@, i as int + 1, args@.len() as int);
                                }
                                return Err(
                                    AttrError {
                                        message: "Expected string literal for function alias".to_owned(),
                                        arg_index: i,
                                    },
                                );
                            },
                        }
                    }
                    proof {
                        assert(aliases_of(vs@) is Some);
                        assert(parse_step(st0, args@[i as int]) is Ok);
                    }
                },
                _ => {
                    proof {
                        assert(parse_step(st0, args@[i as int]) is Err);
                        assert(parse_upto(args@, i as int + 1) is Err);
                        lemma_parse_err_sticks(args@, i as int + 1, args@.len() as int);
                    }
                    return Err(
                        AttrError { message: "expected square brackets".to_owned(), arg_index: i },
                    );
                },
            }
        } else if kind == 2 {
            match &a.value {
                AttrValue::Bool(b) => {
                    needs_context = *b;
                },
                _ => {
                    proof {
                        assert(parse_step(st0, args@[i as int]) is Err);
                        assert(parse_upto(args@, i as int + 1) is Err);
                        lemma_parse_err_sticks(args@, i as int + 1, args@.len() as int);
                    }
                    return Err(
                        AttrError { message: "expected boolean literal".to_owned(), arg_index: i },
                    );
                },
            }
        } else if kind == 3 {
            match &a.value {
                AttrValue::Bool(b) => {
                    can_return_errors = *b;
                },
                _ => {
                    proof {
                        assert(parse_step(st0, args@[i as int]) is Err);
                        assert(parse_upto(args@, i as int + 1) is Err);
                        lemma_parse_err_sticks(args@, i as int + 1, args@.len() as int);
                    }
                    return Err(
                        AttrError { message: "expected boolean literal".to_owned(), arg_index: i },
                    );
                },
            }
        } else if kind == 4 {
            match &a.value {
                AttrValue::Str(s) => {
                    if str_eq(s.as_str(), "if_null") || str_eq(s.as_str(), "never") || str_eq(
                        s.as_str(),
                        "internal",
                    ) {
                        result_nullable = Some(s.clone());
                    } else {
                        proof {
                            assert(parse_step(st0, args@[i as int]) is Err);
                            assert(parse_upto(args@, i as int + 1) is Err);
                            lemma_parse_err_sticks(args@, i as int + 1, args@.len() as int);
                        }
                        return Err(
                            AttrError {
                                message: "Unsupported value for result_nullable attribute. Only if_null, never, internal are allowed.".to_owned(),
                                arg_index: i,
                            },
                        );
                    }
                },
                _ => {
                    proof {
                        assert(parse_step(st0, args@[i as int]) is Err);
                        assert(parse_upto(args@, i as int + 1) is Err);
                        lemma_parse_err_sticks(args@, i as int + 1, args@.len() as int);
                    }
                    return Err(
                        AttrError { message: "expected string literal".to_owned(), arg_index: i },
                    );
                },
            }
        } else {
            proof {
                assert(parse_step(st0, args@[i as int]) is Err);
                assert(parse_upto(args@, i as int + 1) is Err);
                lemma_parse_err_sticks(args@, i as int + 1, args@.len() as int);
            }
            return Err(
                AttrError { message: "Unknown attribute for UDF function".to_owned(), arg_index: i },
            );
        }
        i = i + 1;
        proof {
            assert(parse_upto(args@, i as int) matches Ok(st) && opt_view(name) == st.0
                && aliases.deep_view() =~= st.1 && needs_context == st.2 && can_return_errors
                == st.3 && opt_view(result_nullable) == st.4);
        }
    }
    Ok(
        UdfAttrs {
            name,
            aliases,
            needs_context,
            can_return_errors,
            result_nullable,
        },
    )
}

} // verus!
