//! The signature side of the generator: source function signatures in their
//! pretty-printed form, and recognition of the two-parameter fallible
//! container in a declared return type.
//!
//! A pretty-printed type carries its tokens separated by single spaces, so
//! `Result<bool, String>` arrives as `Result < bool , String >`.

use vstd::prelude::*;
use crate::text::{split_sp, split_space, join_sep, join_with, find_tok, lemma_find_tok, str_eq};

verus! {

broadcast use vstd::string::group_string_axioms;

/// One parameter of a source function: its binding name and its
/// pretty-printed type.
#[derive(Debug, PartialEq)]
pub struct FnParam {
    pub name: String,
    pub ty: String,
}

/// A source function signature as the generator sees it: identifier, ordered
/// positional parameters, and the pretty-printed return type, absent when the
/// function declares none.
#[derive(Debug, PartialEq)]
pub struct FnSig {
    pub ident: String,
    pub params: Vec<FnParam>,
    pub ret: Option<String>,
}

/// A generation-time fatal error; nothing is emitted for the offending
/// function.
#[derive(Debug, PartialEq, Clone, Copy)]
pub enum GenError {
    MissingReturnType,
    MalformedFallibleReturn,
}

impl GenError {
    /// The diagnostic text reported for the error.
    pub fn message(&self) -> (r: String)
        ensures
            *self is MissingReturnType ==> r@ == "The function to be wrapped must have a return type."@,
            *self is MalformedFallibleReturn ==> r@
                == "Result type is not well-formed and it is expected to have two generic parameters."@,
    {
        match self {
            GenError::MissingReturnType => "The function to be wrapped must have a return type.".to_owned(),
            GenError::MalformedFallibleReturn => "Result type is not well-formed and it is expected to have two generic parameters.".to_owned(),
        }
    }
}

/// How one token changes the angle-bracket nesting depth.
pub open spec fn tok_delta(t: Seq<char>) -> int {
    if t == "<"@ {
        1
    } else if t == ">"@ {
        -1
    } else {
        0
    }
}

/// The total depth change over the tokens `ts[a..b)`.
pub open spec fn depth_btwn(ts: Seq<Seq<char>>, a: int, b: int) -> int
    decreases b - a,
{
    if b <= a {
        0
    } else {
        depth_btwn(ts, a, b - 1) + tok_delta(ts[b - 1])
    }
}

/// The token prefix `ts[..k]` has the shape of a path: name tokens at even
/// positions separated by `::` at odd positions.
pub open spec fn path_shape(ts: Seq<Seq<char>>, k: int) -> bool {
    &&& k >= 1
    &&& k % 2 == 1
    &&& forall|j: int| 0 <= j < k && j % 2 == 1 ==> ts[j] == "::"@
    &&& forall|j: int|
        0 <= j < k && j % 2 == 0 ==> ts[j] != "::"@ && ts[j] != "<"@ && ts[j] != ">"@ && ts[j]
            != ","@
}

/// The generic group opened by the `<` at `k` stays open until it closes at
/// the final token of the type.
pub open spec fn closes_at_end(ts: Seq<Seq<char>>, k: int) -> bool {
    &&& ts.len() >= k + 2
    &&& ts[ts.len() - 1] == ">"@
    &&& forall|x: int| k + 1 <= x < ts.len() ==> 1 + #[trigger] depth_btwn(ts, k + 1, x) >= 1
    &&& 1 + depth_btwn(ts, k + 1, ts.len() - 1) == 1
}

/// Token `i` is a comma directly inside the outermost generic group.
pub open spec fn is_top_comma(ts: Seq<Seq<char>>, k: int, i: int) -> bool {
    &&& k + 1 <= i < ts.len() - 1
    &&& ts[i] == ","@
    &&& 1 + depth_btwn(ts, k + 1, i) == 1
}

/// The outermost generic group holds exactly one top-level comma, so exactly
/// two arguments.
pub open spec fn unique_top_comma(ts: Seq<Seq<char>>, k: int) -> bool {
    &&& exists|c: int| is_top_comma(ts, k, c)
    &&& forall|c1: int, c2: int|
        #[trigger] is_top_comma(ts, k, c1) && #[trigger] is_top_comma(ts, k, c2) ==> c1 == c2
}

/// A fallible-container head at `j` whose arguments are not
/// angle-bracketed: the tokens before `j` are a path ending in the
/// container name, and what follows neither opens a generic list nor
/// continues the path.
pub open spec fn is_result_head_at(ts: Seq<Seq<char>>, j: int) -> bool {
    &&& 1 <= j < ts.len()
    &&& path_shape(ts, j)
    &&& ts[j - 1] == "Result"@
    &&& ts[j] != "<"@
    &&& ts[j] != "::"@
}

/// The type carries the fallible container with arguments that are not
/// angle-bracketed (parenthesized, say).
pub open spec fn paren_result_head(ts: Seq<Seq<char>>) -> bool {
    exists|j: int| is_result_head_at(ts, j)
}

/// The return type is the fallible container without angle-bracketed
/// arguments: the bare path, or the path followed by arguments of another
/// shape. Either is a fatal shape.
pub open spec fn ret_is_malformed(ret: Seq<char>) -> bool {
    let ts = split_sp(ret);
    ||| path_shape(ts, ts.len() as int) && ts[ts.len() - 1] == "Result"@
    ||| paren_result_head(ts)
}

/// Along the maximal path prefix of length `j`, a non-angle-bracketed
/// container head can stand nowhere but at `j`, and a full-length path
/// forces `j` to reach the end.
proof fn lemma_result_head_unique(ts: Seq<Seq<char>>, j: int)
    requires
        0 <= j <= ts.len(),
        j == 0 || j % 2 == 1,
        forall|x: int| 0 <= x < j && x % 2 == 1 ==> ts[x] == "::"@,
        forall|x: int|
            0 <= x < j && x % 2 == 0 ==> ts[x] != "::"@ && ts[x] != "<"@ && ts[x] != ">"@ && ts[x]
                != ","@,
        j == 0 ==> ts.len() == 0 || ts[0] == "::"@ || ts[0] == "<"@ || ts[0] == ">"@ || ts[0]
            == ","@,
        1 <= j && j < ts.len() ==> j + 1 >= ts.len() || ts[j] != "::"@ || (ts[j + 1] == "::"@
            || ts[j + 1] == "<"@ || ts[j + 1] == ">"@ || ts[j + 1] == ","@),
    ensures
        forall|j2: int| #[trigger] is_result_head_at(ts, j2) ==> j2 == j,
        path_shape(ts, ts.len() as int) ==> j == ts.len(),
{
    assert forall|j2: int| #[trigger] is_result_head_at(ts, j2) implies j2 == j by {
        if j2 < j {
            assert(ts[j2] == "::"@);
        } else if j2 > j {
            if j == 0 {
                assert(ts[0] != "::"@ && ts[0] != "<"@ && ts[0] != ">"@ && ts[0] != ","@);
            } else {
                assert(j2 >= j + 2);
                if ts[j] != "::"@ {
                    assert(ts[j] == "::"@);
                } else {
                    assert(ts[j + 1] != "::"@ && ts[j + 1] != "<"@ && ts[j + 1] != ">"@ && ts[j
                        + 1] != ","@);
                }
            }
        }
    }
    if path_shape(ts, ts.len() as int) && j < ts.len() {
        let n = ts.len() as int;
        if j == 0 {
            assert(ts[0] != "::"@ && ts[0] != "<"@ && ts[0] != ">"@ && ts[0] != ","@);
        } else if j + 1 >= n {
            assert(n % 2 == 1);
        } else if ts[j] != "::"@ {
            assert(ts[j] == "::"@);
        } else {
            assert(ts[j + 1] != "::"@ && ts[j + 1] != "<"@ && ts[j + 1] != ">"@ && ts[j + 1]
                != ","@);
        }
    }
}

/// The return type names the two-parameter fallible container at its top
/// level.
pub open spec fn ret_is_fallible(ret: Seq<char>) -> bool {
    let ts = split_sp(ret);
    let k = find_tok(ts, "<"@, 0);
    &&& k < ts.len()
    &&& path_shape(ts, k)
    &&& ts[k - 1] == "Result"@
    &&& closes_at_end(ts, k)
    &&& unique_top_comma(ts, k)
}

/// The pretty-printed success type of a fallible return: the tokens between
/// the opening `<` and the single top-level comma, joined with spaces.
pub open spec fn ret_success(ret: Seq<char>) -> Seq<char> {
    let ts = split_sp(ret);
    let k = find_tok(ts, "<"@, 0);
    let c = choose|c: int| is_top_comma(ts, k, c);
    join_sep(ts.subrange(k + 1, c), " "@)
}

/// True exactly when the return type is the heap-owned string type, which the
/// wrapper must marshal through the engine's allocation callback.
pub fn is_returning_string(return_type: &str) -> (r: bool)
    ensures
        r == (return_type@ == "String"@),
{
    str_eq(return_type, "String")
}

fn check_path_shape(ts: &Vec<String>, k: usize) -> (r: bool)
    requires
        k <= ts.len(),
    ensures
        r == path_shape(ts.deep_view(), k as int),
{
    if k == 0 || k % 2 == 0 {
        return false;
    }
    let mut j: usize = 0;
    while j < k
        invariant
            j <= k,
            k <= ts.len(),
            k % 2 == 1,
            forall|x: int| 0 <= x < j && x % 2 == 1 ==> ts.deep_view()[x] == "::"@,
            forall|x: int|
                0 <= x < j && x % 2 == 0 ==> ts.deep_view()[x] != "::"@ && ts.deep_view()[x]
                    != "<"@ && ts.deep_view()[x] != ">"@ && ts.deep_view()[x] != ","@,
        decreases k - j,
    {
        proof {
            assert(ts.deep_view()[j as int] == ts@[j as int]@);
        }
        if j % 2 == 1 {
            if !str_eq(ts[j].as_str(), "::") {
                return false;
            }
        } else {
            if str_eq(ts[j].as_str(), "::") || str_eq(ts[j].as_str(), "<") || str_eq(
                ts[j].as_str(),
                ">",
            ) || str_eq(ts[j].as_str(), ",") {
                return false;
            }
        }
        j = j + 1;
    }
    true
}

/// Scan the generic group opened at `k`: whether it closes exactly at the
/// end, and whether it holds exactly one top-level comma (and where).
fn scan_generic(ts: &Vec<String>, k: usize) -> (r: (bool, bool, usize))
    requires
        k < ts.len(),
    ensures
        r.0 == closes_at_end(ts.deep_view(), k as int),
        r.0 ==> r.1 == unique_top_comma(ts.deep_view(), k as int),
        r.0 && r.1 ==> is_top_comma(ts.deep_view(), k as int, r.2 as int),
{
    let ghost tsv = ts.deep_view();
    proof {
        reveal_strlit("<");
        reveal_strlit(">");
        reveal_strlit(",");
        assert("<"@.len() == 1 && "<"@[0] == '<');
        assert(">"@.len() == 1 && ">"@[0] == '>');
        assert(","@.len() == 1 && ","@[0] == ',');
    }
    let n = ts.len();
    if n - k < 2 {
        return (false, false, 0);
    }
    if !str_eq(ts[n - 1].as_str(), ">") {
        proof {
            assert(tsv[n - 1] != ">"@);
        }
        return (false, false, 0);
    }
    let mut i: usize = k + 1;
    let mut depth: usize = 1;
    let mut count: usize = 0;
    let mut c1: usize = 0;
    let ghost mut c2: int = 0;
    while i < n - 1
        invariant
            k + 1 <= i <= n - 1,
            n == ts.len(),
            tsv == ts.deep_view(),
            n >= k + 2,
            depth == 1 + depth_btwn(tsv, k + 1, i as int),
            1 <= depth <= i - k,
            forall|x: int| k + 1 <= x < i ==> 1 + #[trigger] depth_btwn(tsv, k + 1, x) >= 1,
            count == 0 ==> forall|x: int| k + 1 <= x < i ==> !is_top_comma(tsv, k as int, x),
            count == 1 ==> is_top_comma(tsv, k as int, c1 as int) && k + 1 <= c1 < i,
            count == 1 ==> forall|x: int|
                k + 1 <= x < i && x != c1 ==> !is_top_comma(tsv, k as int, x),
            count >= 2 ==> is_top_comma(tsv, k as int, c1 as int) && is_top_comma(tsv, k as int, c2)
                && c1 != c2,
        decreases n - 1 - i,
    {
        proof {
            reveal_strlit("<");
            reveal_strlit(">");
            reveal_strlit(",");
            assert("<"@.len() == 1 && "<"@[0] == '<');
            assert(">"@.len() == 1 && ">"@[0] == '>');
            assert(","@.len() == 1 && ","@[0] == ',');
            assert(tsv[i as int] == ts@[i as int]@);
        }
        let ghost depth0 = depth as int;
        let is_lt = str_eq(ts[i].as_str(), "<");
        let is_gt = str_eq(ts[i].as_str(), ">");
        let is_comma = str_eq(ts[i].as_str(), ",");
        if is_lt {
            depth = depth + 1;
        } else if is_gt {
            if depth == 1 {
                proof {
                    assert(1 + depth_btwn(tsv, k + 1, i as int + 1) == 0);
                    assert(!closes_at_end(tsv, k as int));
                }
                return (false, false, 0);
            }
            depth = depth - 1;
        } else {
            if is_comma && depth == 1 {
                if count == 0 {
                    c1 = i;
                    count = 1;
                } else if count == 1 {
                    proof {
                        c2 = i as int;
                    }
                    count = 2;
                }
            }
        }
        i = i + 1;
        proof {
            assert(depth_btwn(tsv, k + 1, i as int) == depth_btwn(tsv, k + 1, i as int - 1)
                + tok_delta(tsv[i as int - 1]));
            if !(is_comma && depth0 == 1) {
                assert(!is_top_comma(tsv, k as int, i as int - 1));
            }
        }
    }
    if depth != 1 {
        proof {
            assert(1 + depth_btwn(tsv, k + 1, n as int - 1) != 1);
        }
        return (false, false, 0);
    }
    proof {
        assert(closes_at_end(tsv, k as int)) by {
            assert(forall|x: int| k + 1 <= x < n ==> 1 + #[trigger] depth_btwn(tsv, k + 1, x) >= 1);
        }
    }
    if count == 1 {
        (true, true, c1)
    } else if count == 0 {
        proof {
            assert(!unique_top_comma(tsv, k as int));
        }
        (true, false, 0)
    } else {
        proof {
            assert(!unique_top_comma(tsv, k as int));
        }
        (true, false, 0)
    }
}

/// Recognize a fallible return type and strip it to its success type.
///
/// A top-level two-argument fallible container is stripped: the result is
/// its first argument, flagged `true`. The container without angle-bracketed
/// arguments — bare, or with arguments of another shape — is the fatal
/// malformed shape. Every other return type passes through unchanged,
/// flagged `false`.
pub fn extract_result_type(return_type: &str) -> (r: Result<(String, bool), GenError>)
    ensures
        r is Err <==> ret_is_malformed(return_type@),
        r matches Err(e) ==> e == GenError::MalformedFallibleReturn,
        r matches Ok(p) ==> p.1 == ret_is_fallible(return_type@),
        r matches Ok(p) ==> p.0@ == if p.1 {
            ret_success(return_type@)
        } else {
            return_type@
        },
{
    let ts = split_space(return_type);
    let ghost tsv = ts.deep_view();
    let n = ts.len();
    // the maximal path prefix: names at even positions, `::` between them
    let mut j: usize = 0;
    let head_start_ok: bool = if n == 0 {
        false
    } else {
        proof {
            assert(tsv[0] == ts@[0]@);
        }
        !(str_eq(ts[0].as_str(), "::") || str_eq(ts[0].as_str(), "<") || str_eq(
            ts[0].as_str(),
            ">",
        ) || str_eq(ts[0].as_str(), ","))
    };
    if head_start_ok {
        j = 1;
        loop
            invariant_except_break
                j % 2 == 1,
                1 <= j <= n,
                n == ts.len(),
                tsv == ts.deep_view(),
                forall|x: int| 0 <= x < j && x % 2 == 1 ==> tsv[x] == "::"@,
                forall|x: int|
                    0 <= x < j && x % 2 == 0 ==> tsv[x] != "::"@ && tsv[x] != "<"@ && tsv[x]
                        != ">"@ && tsv[x] != ","@,
            ensures
                j % 2 == 1,
                1 <= j <= n,
                n == ts.len(),
                forall|x: int| 0 <= x < j && x % 2 == 1 ==> tsv[x] == "::"@,
                forall|x: int|
                    0 <= x < j && x % 2 == 0 ==> tsv[x] != "::"@ && tsv[x] != "<"@ && tsv[x]
                        != ">"@ && tsv[x] != ","@,
                j < n ==> j + 1 >= n || tsv[j as int] != "::"@ || (tsv[j as int + 1] == "::"@
                    || tsv[j as int + 1] == "<"@ || tsv[j as int + 1] == ">"@ || tsv[j as int + 1]
                    == ","@),
            decreases n - j,
        {
            if n - j <= 1 {
                break;
            }
            proof {
                assert(tsv[j as int] == ts@[j as int]@);
                assert(tsv[j as int + 1] == ts@[j as int + 1]@);
            }
            if !str_eq(ts[j].as_str(), "::") {
                break;
            }
            if str_eq(ts[j + 1].as_str(), "::") || str_eq(ts[j + 1].as_str(), "<") || str_eq(
                ts[j + 1].as_str(),
                ">",
            ) || str_eq(ts[j + 1].as_str(), ",") {
                break;
            }
            j = j + 2;
        }
    }
    proof {
        lemma_result_head_unique(tsv, j as int);
    }
    let mut head_result = false;
    if j >= 1 {
        proof {
            assert(tsv[j as int - 1] == ts@[j as int - 1]@);
        }
        head_result = str_eq(ts[j - 1].as_str(), "Result");
    }
    if head_result {
        if j == n {
            // the bare container path: fatal
            proof {
                assert(path_shape(tsv, n as int));
            }
            return Err(GenError::MalformedFallibleReturn);
        }
        proof {
            assert(tsv[j as int] == ts@[j as int]@);
        }
        let next_lt = str_eq(ts[j].as_str(), "<");
        let next_sep = if next_lt {
            false
        } else {
            str_eq(ts[j].as_str(), "::")
        };
        if !next_lt && !next_sep {
            // the container head with arguments of another shape: fatal
            proof {
                assert(is_result_head_at(tsv, j as int));
                assert(paren_result_head(tsv));
            }
            return Err(GenError::MalformedFallibleReturn);
        }
    }
    proof {
        // on every remaining path, neither malformed shape holds
        assert(!ret_is_malformed(return_type@)) by {
            if paren_result_head(tsv) {
                let j2 = choose|j2: int| is_result_head_at(tsv, j2);
                assert(is_result_head_at(tsv, j2));
                assert(j2 == j as int);
            }
        }
    }
    let mut k: usize = 0;
    loop
        invariant_except_break
            k <= n,
            n == ts.len(),
            tsv == ts.deep_view(),
            forall|j: int| 0 <= j < k ==> tsv[j] != "<"@,
        ensures
            k <= n,
            n == ts.len(),
            forall|j: int| 0 <= j < k ==> tsv[j] != "<"@,
            k == n || tsv[k as int] == "<"@,
        decreases n - k,
    {
        if k == n {
            break;
        }
        proof {
            assert(tsv[k as int] == ts@[k as int]@);
        }
        if str_eq(ts[k].as_str(), "<") {
            break;
        }
        k = k + 1;
    }
    proof {
        lemma_find_tok(tsv, "<"@, 0, k as int);
    }
    if k == n {
        // no generic list: not fallible, and not malformed either (shown above)
        Ok((return_type.to_owned(), false))
    } else {
        proof {
            assert(tsv[k as int] == "<"@);
        }
        let shape_ok = if check_path_shape(&ts, k) {
            proof {
                assert(tsv[k as int - 1] == ts@[k as int - 1]@);
            }
            str_eq(ts[k - 1].as_str(), "Result")
        } else {
            false
        };
        if !shape_ok {
            return Ok((return_type.to_owned(), false));
        }
        let (closed, one_comma, c1) = scan_generic(&ts, k);
        if !closed || !one_comma {
            return Ok((return_type.to_owned(), false));
        }
        // exactly two generic arguments: the success type is tokens (k, c1)
        let mut sub: Vec<String> = Vec::new();
        let mut x: usize = k + 1;
        while x < c1
            invariant
                k + 1 <= x <= c1,
                c1 < ts.len(),
                tsv == ts.deep_view(),
                sub@.len() == x - k - 1,
                forall|j: int| 0 <= j < sub@.len() ==> #[trigger] sub@[j]@ == tsv[k + 1 + j],
            decreases c1 - x,
        {
            proof {
                assert(tsv[x as int] == ts@[x as int]@);
            }
            sub.push(ts[x].clone());
            x = x + 1;
        }
        proof {
            assert forall|j: int| 0 <= j < sub@.len() implies sub.deep_view()[j]
                == tsv.subrange(k + 1, c1 as int)[j] by {
                assert(sub.deep_view()[j] == sub@[j]@);
            }
            assert(sub.deep_view() =~= tsv.subrange(k + 1, c1 as int));
        }
        let s = join_with(&sub, " ");
        proof {
            let cc = choose|c: int| is_top_comma(tsv, k as int, c);
            assert(is_top_comma(tsv, k as int, cc));
            assert(cc == c1 as int);
            assert(ret_is_fallible(return_type@));
            assert(s@ == ret_success(return_type@));
        }
        Ok((s, true))
    }
}

} // verus!
