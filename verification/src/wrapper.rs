//! The wrapper synthesizer: from a source signature and the parsed
//! annotation options to the C-ABI wrapper description, the call layout, the
//! result handling, and the metadata record its registrar installs.

use vstd::prelude::*;
use vstd::string::StringExecFns;
use crate::meta::{DataType, UdfMetaData};
use crate::signature::{FnParam, FnSig, GenError, ret_is_malformed, ret_is_fallible, ret_success,
    extract_result_type, is_returning_string};
use crate::text::{join_sep, join_with, str_eq};
use crate::type_map::{map_type, map_type_spec};

verus! {

broadcast use vstd::string::group_string_axioms;

/// The C-ABI type of one wrapper parameter.
#[derive(Debug, PartialEq)]
pub enum CParamTy {
    /// The engine context handle, a 64-bit integer injected first.
    Context,
    /// The parameter's native type, passed through verbatim.
    Value(String),
    /// A pointer to the byte data of a UTF-8 argument.
    Utf8Data,
    /// The 32-bit length of a UTF-8 argument.
    Utf8Len,
    /// A pointer through which the wrapper writes the returned string's
    /// length.
    OutLen,
}

/// One parameter of the emitted C-ABI wrapper.
#[derive(Debug, PartialEq)]
pub struct WrapperParam {
    pub name: String,
    pub ty: CParamTy,
}

/// The wrapper's return type.
#[derive(Debug, PartialEq)]
pub enum CRet {
    /// The native type, returned as is.
    Value(String),
    /// A pointer to engine-allocated byte data holding the returned string.
    StringData,
}

/// How the wrapper passes one original argument to the wrapped body.
#[derive(Debug, PartialEq)]
pub enum CallArg {
    /// Pass the parameter directly by name.
    Direct(String),
    /// Rebuild a bounded UTF-8 view from the named data and length parameter
    /// pair.
    Utf8View(String),
}

/// What the wrapper does with the body's result.
#[derive(Debug, PartialEq)]
pub enum ResultHandling {
    /// Return the value unchanged.
    Direct,
    /// Copy the returned string into engine-allocated memory, write its
    /// length through the out-parameter, and return the data pointer.
    StringAlloc,
    /// On failure report the error through the engine callback and return
    /// `false`.
    ErrorToFalse,
    /// On failure report the error through the engine callback and return the
    /// additive identity of the return type.
    ErrorToZero,
    /// On success behave as the string path; on failure report the error,
    /// write zero through the out-parameter and return the null pointer.
    ErrorToNullString,
}

/// Everything the generator derives for one UDF: the wrapper signature, how
/// it invokes the body, and the record its registrar installs.
#[derive(Debug, PartialEq)]
pub struct UdfExpansion {
    pub wrapper_name: String,
    pub params: Vec<WrapperParam>,
    pub ret: CRet,
    pub call_args: Vec<CallArg>,
    pub handling: ResultHandling,
    pub registrar_name: String,
    pub meta: UdfMetaData,
}

/// The pretty-printed return type of a signature, empty when none is
/// declared.
pub open spec fn sig_ret(sig: FnSig) -> Seq<char> {
    match sig.ret {
        Some(rt) => rt@,
        None => Seq::empty(),
    }
}

/// The declared return type with a fallible container stripped to its
/// success type.
pub open spec fn stripped_ret(rt: Seq<char>) -> Seq<char> {
    if ret_is_fallible(rt) {
        ret_success(rt)
    } else {
        rt
    }
}

/// The wrapper must marshal its result through the engine's string
/// allocation path.
pub open spec fn returns_heap_string(rt: Seq<char>) -> bool {
    stripped_ret(rt) == "String"@
}

/// Errors can be returned: asserted by the annotation or implied by a
/// fallible return type.
pub open spec fn eff_can_return_errors(rt: Seq<char>, attr_flag: bool) -> bool {
    attr_flag || ret_is_fallible(rt)
}

/// The wrapper takes the engine context: asked for by the annotation, forced
/// by a heap-string return, or needed to report errors.
pub open spec fn eff_needs_context(rt: Seq<char>, needs_context: bool, attr_flag: bool) -> bool {
    needs_context || returns_heap_string(rt) || eff_can_return_errors(rt, attr_flag)
}

/// The Arrow names of the parameters, in order.
pub open spec fn param_arrow_types(params: Seq<FnParam>) -> Seq<Seq<char>> {
    params.map_values(|p: FnParam| map_type_spec(p.ty@))
}

/// The physical C name: the identifier, an underscore, then the Arrow names
/// of the parameters joined by underscores.
pub open spec fn pc_name_spec(ident: Seq<char>, arrow_types: Seq<Seq<char>>) -> Seq<char> {
    ident + "_"@ + join_sep(arrow_types, "_"@)
}

/// `out` is exactly the wrapper-parameter expansion of the source parameters:
/// a UTF-8 argument becomes a data and length pair, anything else passes
/// through verbatim.
pub open spec fn params_expanded(src: Seq<FnParam>, out: Seq<WrapperParam>) -> bool
    decreases src.len(),
{
    if src.len() == 0 {
        out.len() == 0
    } else {
        let p = src.last();
        if map_type_spec(p.ty@) == "utf8"@ {
            &&& out.len() >= 2
            &&& out[out.len() - 2].name == p.name
            &&& out[out.len() - 2].ty is Utf8Data
            &&& out[out.len() - 1].name@ == p.name@ + "_len"@
            &&& out[out.len() - 1].ty is Utf8Len
            &&& params_expanded(src.drop_last(), out.take(out.len() - 2))
        } else {
            &&& out.len() >= 1
            &&& out[out.len() - 1].name == p.name
            &&& out[out.len() - 1].ty matches CParamTy::Value(t) && t == p.ty
            &&& params_expanded(src.drop_last(), out.take(out.len() - 1))
        }
    }
}

/// `out` is exactly the call-site argument list: UTF-8 arguments are rebuilt
/// from their pointer and length pair, every other argument is passed by
/// name.
pub open spec fn call_args_expanded(src: Seq<FnParam>, out: Seq<CallArg>) -> bool {
    &&& out.len() == src.len()
    &&& forall|i: int|
        0 <= i < src.len() ==> {
            if map_type_spec(src[i].ty@) == "utf8"@ {
                #[trigger] out[i] matches CallArg::Utf8View(n) && n == src[i].name
            } else {
                out[i] matches CallArg::Direct(n) && n == src[i].name
            }
        }
}

/// The result handling the return type calls for.
pub open spec fn expected_handling(rt: Seq<char>) -> ResultHandling {
    if ret_is_fallible(rt) {
        if ret_success(rt) == "String"@ {
            ResultHandling::ErrorToNullString
        } else if ret_success(rt) == "bool"@ {
            ResultHandling::ErrorToFalse
        } else {
            ResultHandling::ErrorToZero
        }
    } else if rt == "String"@ {
        ResultHandling::StringAlloc
    } else {
        ResultHandling::Direct
    }
}

/// A data type record carrying just an Arrow name, with every optional
/// attribute absent.
pub open spec fn simple_dt(d: DataType, t: Seq<char>) -> bool {
    &&& d.name@ == t
    &&& d.value_type is None
    &&& d.precision is None
    &&& d.scale is None
    &&& d.unit is None
}

/// The full contract of the expansion derived for one UDF.
pub open spec fn udf_expansion_ok(
    sig: FnSig,
    name_override: Option<String>,
    aliases: Seq<String>,
    needs_context: bool,
    can_return_errors: bool,
    result_nullable: Option<String>,
    exp: UdfExpansion,
) -> bool {
    let rt = sig_ret(sig);
    let strr = returns_heap_string(rt);
    let eff_err = eff_can_return_errors(rt, can_return_errors);
    let eff_ctx = eff_needs_context(rt, needs_context, can_return_errors);
    let b: int = if eff_ctx {
        1
    } else {
        0
    };
    let t: int = if strr {
        1
    } else {
        0
    };
    &&& sig.ret is Some
    &&& exp.wrapper_name@ == pc_name_spec(sig.ident@, param_arrow_types(sig.params@))
    &&& exp.params@.len() >= b + t
    &&& params_expanded(sig.params@, exp.params@.subrange(b, exp.params@.len() - t))
    &&& eff_ctx ==> exp.params@.len() > 0 && exp.params@[0].ty is Context && exp.params@[0].name@
        == "ctx"@
    &&& (exp.params@.len() > 0 && exp.params@[0].ty is Context) ==> eff_ctx
    &&& strr ==> exp.params@[exp.params@.len() - 1].ty is OutLen
        && exp.params@[exp.params@.len() - 1].name@ == "out_len"@
    &&& !strr ==> forall|j: int| 0 <= j < exp.params@.len() ==> !(#[trigger] exp.params@[j].ty is OutLen)
    &&& (exp.ret is StringData) == strr
    &&& exp.ret matches CRet::Value(v) ==> v@ == stripped_ret(rt)
    &&& call_args_expanded(sig.params@, exp.call_args@)
    &&& exp.handling == expected_handling(rt)
    &&& exp.registrar_name@ == "register_"@ + exp.wrapper_name@
    &&& match name_override {
        Some(n) => exp.meta.name == n,
        None => exp.meta.name == sig.ident,
    }
    &&& exp.meta.aliases@ == aliases
    &&& exp.meta.param_types@.len() == sig.params@.len()
    &&& forall|i: int|
        0 <= i < sig.params@.len() ==> simple_dt(
            #[trigger] exp.meta.param_types@[i],
            map_type_spec(sig.params@[i].ty@),
        )
    &&& simple_dt(
        exp.meta.return_type,
        if strr {
            "utf8"@
        } else {
            map_type_spec(stripped_ret(rt))
        },
    )
    &&& exp.meta.pc_name == exp.wrapper_name
    &&& match result_nullable {
        Some(s) => exp.meta.result_nullable == s,
        None => exp.meta.result_nullable@ == "if_null"@,
    }
    &&& exp.meta.can_return_errors == eff_err
    &&& exp.meta.needs_context == eff_ctx
}

/// The Arrow names of a sequence of pretty-printed type names.
pub open spec fn arrow_types_of(tys: Seq<Seq<char>>) -> Seq<Seq<char>> {
    tys.map_values(|t: Seq<char>| map_type_spec(t))
}

/// The wrapper name for a function with the given identifier and
/// pretty-printed parameter types; the workspace scanner derives names
/// through this function, so it agrees with the analyzer by construction.
pub fn wrapper_fn_name(ident: &str, param_tys: &Vec<String>) -> (r: String)
    ensures
        r@ == pc_name_spec(ident@, arrow_types_of(param_tys.deep_view())),
{
    let mut arrow: Vec<String> = Vec::new();
    let mut i: usize = 0;
    while i < param_tys.len()
        invariant
            i <= param_tys.len(),
            arrow@.len() == i,
            forall|j: int| 0 <= j < i ==> #[trigger] arrow@[j]@ == map_type_spec(param_tys@[j]@),
        decreases param_tys.len() - i,
    {
        arrow.push(map_type(param_tys[i].as_str()));
        i = i + 1;
    }
    let mut r = ident.to_owned();
    r.append("_");
    let joined = join_with(&arrow, "_");
    r.append(joined.as_str());
    proof {
        assert(arrow.deep_view() =~= arrow_types_of(param_tys.deep_view()));
        assert(r@ =~= pc_name_spec(ident@, arrow_types_of(param_tys.deep_view())));
    }
    r
}

/// Scanner and analyzer agreement: both derive the physical C name from the
/// identifier and the mapped parameter types alone, through the one type
/// mapper.
pub proof fn lemma_scanner_analyzer_agree(ident: Seq<char>, params: Seq<FnParam>)
    ensures
        pc_name_spec(ident, param_arrow_types(params)) == pc_name_spec(
            ident,
            arrow_types_of(params.map_values(|p: FnParam| p.ty@)),
        ),
{
    assert(param_arrow_types(params) =~= arrow_types_of(params.map_values(|p: FnParam| p.ty@)));
}

/// Every entry of a parameter expansion is a data, length, or verbatim value
/// parameter; the expansion never injects the context or the length
/// out-parameter.
pub proof fn lemma_expanded_kinds(src: Seq<FnParam>, out: Seq<WrapperParam>)
    requires
        params_expanded(src, out),
    ensures
        forall|j: int|
            0 <= j < out.len() ==> (#[trigger] out[j].ty is Utf8Data || out[j].ty is Utf8Len
                || out[j].ty is Value),
    decreases src.len(),
{
    if src.len() > 0 {
        let p = src.last();
        if map_type_spec(p.ty@) == "utf8"@ {
            lemma_expanded_kinds(src.drop_last(), out.take(out.len() - 2));
            assert forall|j: int|
                0 <= j < out.len() implies (#[trigger] out[j].ty is Utf8Data || out[j].ty is Utf8Len
                || out[j].ty is Value) by {
                if j < out.len() - 2 {
                    assert(out[j] == out.take(out.len() - 2)[j]);
                }
            }
        } else {
            lemma_expanded_kinds(src.drop_last(), out.take(out.len() - 1));
            assert forall|j: int|
                0 <= j < out.len() implies (#[trigger] out[j].ty is Utf8Data || out[j].ty is Utf8Len
                || out[j].ty is Value) by {
                if j < out.len() - 1 {
                    assert(out[j] == out.take(out.len() - 1)[j]);
                }
            }
        }
    }
}

/// Derive the full expansion for one annotated function.
///
/// Fails exactly when the function declares no return type, or declares the
/// bare fallible container with no arguments.
pub fn udf_impl(
    sig: &FnSig,
    name: Option<String>,
    aliases: Vec<String>,
    needs_context: bool,
    can_return_errors: bool,
    result_nullable: Option<String>,
) -> (r: Result<UdfExpansion, GenError>)
    ensures
        match sig.ret {
            None => r matches Err(e) && e is MissingReturnType,
            Some(rt) => {
                &&& (r is Err <==> ret_is_malformed(rt@))
                &&& (r matches Err(e) ==> e is MalformedFallibleReturn)
                &&& (r matches Ok(exp) ==> udf_expansion_ok(
                    *sig,
                    name,
                    aliases@,
                    needs_context,
                    can_return_errors,
                    result_nullable,
                    exp,
                ))
            },
        },
{
    let rt: &String = match &sig.ret {
        None => {
            return Err(GenError::MissingReturnType);
        },
        Some(rt) => rt,
    };
    let (stripped, fallible) = match extract_result_type(rt.as_str()) {
        Ok(p) => p,
        Err(e) => {
            return Err(e);
        },
    };
    let strr = is_returning_string(stripped.as_str());
    let eff_err = can_return_errors || fallible;
    let eff_ctx = needs_context || strr || eff_err;
    let ghost rtv = rt@;
    proof {
        assert(stripped@ == stripped_ret(rtv));
        assert(strr == returns_heap_string(rtv));
        assert(eff_err == eff_can_return_errors(rtv, can_return_errors));
        assert(eff_ctx == eff_needs_context(rtv, needs_context, can_return_errors));
    }
    let ghost b: int = if eff_ctx {
        1
    } else {
        0
    };
    let mut params: Vec<WrapperParam> = Vec::new();
    let mut call_args: Vec<CallArg> = Vec::new();
    let mut arg_types: Vec<String> = Vec::new();
    let mut param_types: Vec<DataType> = Vec::new();
    if eff_ctx {
        params.push(WrapperParam { name: "ctx".to_owned(), ty: CParamTy::Context });
    }
    let n = sig.params.len();
    let mut i: usize = 0;
    while i < n
        invariant
            i <= n,
            n == sig.params.len(),
            b == if eff_ctx {
                1int
            } else {
                0int
            },
            params@.len() >= b,
            eff_ctx ==> params@.len() > 0 && params@[0].ty is Context && params@[0].name@
                == "ctx"@,
            params_expanded(sig.params@.take(i as int), params@.skip(b)),
            call_args@.len() == i,
            forall|j: int|
                0 <= j < i ==> {
                    if map_type_spec(sig.params@[j].ty@) == "utf8"@ {
                        #[trigger] call_args@[j] matches CallArg::Utf8View(nm) && nm
                            == sig.params@[j].name
                    } else {
                        call_args@[j] matches CallArg::Direct(nm) && nm == sig.params@[j].name
                    }
                },
            arg_types@.len() == i,
            forall|j: int|
                0 <= j < i ==> #[trigger] arg_types@[j]@ == map_type_spec(sig.params@[j].ty@),
            param_types@.len() == i,
            forall|j: int|
                0 <= j < i ==> simple_dt(
                    #[trigger] param_types@[j],
                    map_type_spec(sig.params@[j].ty@),
                ),
        decreases n - i,
    {
        let p = &sig.params[i];
        let mapped = map_type(p.ty.as_str());
        let is_utf8 = str_eq(mapped.as_str(), "utf8");
        let ghost params_before = params@;
        if is_utf8 {
            params.push(WrapperParam { name: p.name.clone(), ty: CParamTy::Utf8Data });
            let mut len_name = p.name.clone();
            len_name.append("_len");
            params.push(WrapperParam { name: len_name, ty: CParamTy::Utf8Len });
            call_args.push(CallArg::Utf8View(p.name.clone()));
        } else {
            params.push(WrapperParam { name: p.name.clone(), ty: CParamTy::Value(p.ty.clone()) });
            call_args.push(CallArg::Direct(p.name.clone()));
        }
        param_types.push(
            DataType {
                name: mapped.clone(),
                value_type: None,
                precision: None,
                scale: None,
                unit: None,
            },
        );
        arg_types.push(mapped);
        i = i + 1;
        proof {
            let src = sig.params@.take(i as int);
            assert(src.last() == sig.params@[i as int - 1]);
            assert(src.drop_last() =~= sig.params@.take(i as int - 1));
            let out = params@.skip(b);
            if map_type_spec(sig.params@[i as int - 1].ty@) == "utf8"@ {
                assert(out.take(out.len() - 2) =~= params_before.skip(b));
            } else {
                assert(out.take(out.len() - 1) =~= params_before.skip(b));
            }
            assert(params_expanded(src, out));
        }
    }
    proof {
        assert(sig.params@.take(n as int) =~= sig.params@);
    }
    // the physical C name and the registrar's name
    let mut wrapper_name = sig.ident.clone();
    wrapper_name.append("_");
    let joined = join_with(&arg_types, "_");
    wrapper_name.append(joined.as_str());
    proof {
        assert(arg_types.deep_view() =~= param_arrow_types(sig.params@));
        assert(wrapper_name@ =~= pc_name_spec(sig.ident@, param_arrow_types(sig.params@)));
    }
    let mut registrar_name = "register_".to_owned();
    registrar_name.append(wrapper_name.as_str());
    // the handling of the body's result
    let handling = if fallible {
        if strr {
            ResultHandling::ErrorToNullString
        } else if str_eq(stripped.as_str(), "bool") {
            ResultHandling::ErrorToFalse
        } else {
            ResultHandling::ErrorToZero
        }
    } else if strr {
        ResultHandling::StringAlloc
    } else {
        ResultHandling::Direct
    };
    // the metadata record the registrar installs
    let return_type_name = if strr {
        "utf8".to_owned()
    } else {
        map_type(stripped.as_str())
    };
    let base_name = match name {
        Some(n) => n,
        None => sig.ident.clone(),
    };
    let nullable = match result_nullable {
        Some(s) => s,
        None => "if_null".to_owned(),
    };
    let ret = if strr {
        CRet::StringData
    } else {
        CRet::Value(stripped)
    };
    let ghost params_before_tail = params@;
    if strr {
        params.push(WrapperParam { name: "out_len".to_owned(), ty: CParamTy::OutLen });
        proof {
            assert(params@.subrange(b, params@.len() - 1) =~= params_before_tail.skip(b));
        }
    }
    let meta = UdfMetaData {
        name: base_name,
        aliases,
        param_types,
        return_type: DataType {
            name: return_type_name,
            value_type: None,
            precision: None,
            scale: None,
            unit: None,
        },
        pc_name: wrapper_name.clone(),
        result_nullable: nullable,
        can_return_errors: eff_err,
        needs_context: eff_ctx,
    };
    let exp = UdfExpansion {
        wrapper_name,
        params,
        ret,
        call_args,
        handling,
        registrar_name,
        meta,
    };
    proof {
        let ghost t: int = if strr {
            1
        } else {
            0
        };
        assert(exp.params@.subrange(b, exp.params@.len() - t) =~= params_before_tail.skip(b));
        if !eff_ctx && exp.params@.len() > 0 {
            assert(exp.params@.skip(0) =~= exp.params@);
            lemma_expanded_kinds(sig.params@, exp.params@);
        }
        if !strr {
            assert(exp.params@.skip(b) =~= exp.params@.subrange(b, exp.params@.len() as int));
            lemma_expanded_kinds(sig.params@, exp.params@.skip(b));
            assert forall|j: int|
                0 <= j < exp.params@.len() implies !(#[trigger] exp.params@[j].ty is OutLen) by {
                if j >= b {
                    assert(exp.params@[j] == exp.params@.skip(b)[j - b]);
                }
            }
        }
    }
    Ok(exp)
}

/// Name determinism: the wrapper's physical C name is the source identifier,
/// an underscore, and the Arrow names of the parameters joined by
/// underscores; with no parameters it is the identifier followed by a single
/// trailing underscore.
pub proof fn lemma_name_determinism(ident: Seq<char>, arrow_types: Seq<Seq<char>>)
    ensures
        pc_name_spec(ident, arrow_types) == ident + "_"@ + join_sep(arrow_types, "_"@),
        arrow_types.len() == 0 ==> pc_name_spec(ident, arrow_types) == ident + "_"@,
{
    if arrow_types.len() == 0 {
        assert(pc_name_spec(ident, arrow_types) =~= ident + "_"@);
    }
}

/// Context-parameter injection: the wrapper's first parameter is the engine
/// context exactly when the annotation asked for it, the return type is the
/// heap-owned string, or the wrapper can report errors.
pub proof fn lemma_context_injection(
    sig: FnSig,
    name_override: Option<String>,
    aliases: Seq<String>,
    needs_context: bool,
    can_return_errors: bool,
    result_nullable: Option<String>,
    exp: UdfExpansion,
)
    requires
        udf_expansion_ok(
            sig,
            name_override,
            aliases,
            needs_context,
            can_return_errors,
            result_nullable,
            exp,
        ),
    ensures
        (exp.params@.len() > 0 && exp.params@[0].ty is Context) <==> (needs_context
            || returns_heap_string(sig_ret(sig)) || eff_can_return_errors(
            sig_ret(sig),
            can_return_errors,
        )),
{
}

/// String wrapping: the wrapper returns a byte pointer exactly when the
/// declared return type is the heap-owned string; in that case its last
/// parameter is the length out-parameter, and otherwise it has no length
/// out-parameter at all.
pub proof fn lemma_string_wrapping(
    sig: FnSig,
    name_override: Option<String>,
    aliases: Seq<String>,
    needs_context: bool,
    can_return_errors: bool,
    result_nullable: Option<String>,
    exp: UdfExpansion,
)
    requires
        udf_expansion_ok(
            sig,
            name_override,
            aliases,
            needs_context,
            can_return_errors,
            result_nullable,
            exp,
        ),
    ensures
        (exp.ret is StringData) == returns_heap_string(sig_ret(sig)),
        returns_heap_string(sig_ret(sig)) ==> exp.params@.len() > 0 && exp.params@[exp.params@.len()
            - 1].ty is OutLen && exp.params@[exp.params@.len() - 1].name@ == "out_len"@,
        !returns_heap_string(sig_ret(sig)) ==> forall|j: int|
            0 <= j < exp.params@.len() ==> !(#[trigger] exp.params@[j].ty is OutLen),
{
}

} // verus!
