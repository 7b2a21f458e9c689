//! End-to-end checks of the generator on the reference signatures: one plain
//! function, one with a nullability policy, a context taker, a heap-string
//! return, and a fallible return.

use gandiva_rust_udf::gdv_string::{string_return_action, StringReturnAction};
use gandiva_rust_udf::signature::{FnParam, FnSig};
use gandiva_rust_udf::wrapper::{udf_impl, CParamTy, CRet, ResultHandling, UdfExpansion};

fn expand(
    ident: &str,
    params: Vec<(&str, &str)>,
    ret: &str,
    needs_context: bool,
    result_nullable: Option<&str>,
) -> UdfExpansion {
    let sig = FnSig {
        ident: ident.to_string(),
        params: params
            .into_iter()
            .map(|(n, t)| FnParam { name: n.to_string(), ty: t.to_string() })
            .collect(),
        ret: Some(ret.to_string()),
    };
    udf_impl(
        &sig,
        None,
        vec![],
        needs_context,
        false,
        result_nullable.map(|r| r.to_string()),
    )
    .unwrap()
}

#[test]
fn scenario_no_option_float_udf() {
    // fn foo() -> f64 with no options
    let out = expand("foo", vec![], "f64", false, None);
    assert_eq!(out.wrapper_name, "foo_");
    assert_eq!(out.ret, CRet::Value("f64".to_string()));
    assert_eq!(out.meta.name, "foo");
    assert_eq!(out.meta.param_types.len(), 0);
    assert_eq!(out.meta.return_type.name, "float64");
    assert_eq!(out.meta.pc_name, "foo_");
    assert!(!out.meta.needs_context);
}

#[test]
fn scenario_never_nullable_udf() {
    // fn bar(x: i64) -> f64 with result_nullable = "never"
    let out = expand("bar", vec![("x", "i64")], "f64", false, Some("never"));
    assert_eq!(out.wrapper_name, "bar_int64");
    assert_eq!(out.params.len(), 1);
    assert_eq!(out.params[0].ty, CParamTy::Value("i64".to_string()));
    assert_eq!(out.ret, CRet::Value("f64".to_string()));
    assert_eq!(out.meta.return_type.name, "float64");
    assert_eq!(out.meta.result_nullable, "never");
}

#[test]
fn scenario_context_taking_udf() {
    // fn baz(x: &str) -> bool with needs_context = true
    let out = expand("baz", vec![("x", "& str")], "bool", true, None);
    assert_eq!(out.wrapper_name, "baz_utf8");
    assert_eq!(out.params.len(), 3);
    assert_eq!(out.params[0].name, "ctx");
    assert_eq!(out.params[0].ty, CParamTy::Context);
    assert_eq!(out.params[1].ty, CParamTy::Utf8Data);
    assert_eq!(out.params[2].name, "x_len");
    assert_eq!(out.params[2].ty, CParamTy::Utf8Len);
    assert_eq!(out.meta.param_types[0].name, "utf8");
    assert!(out.meta.needs_context);
}

#[test]
fn scenario_heap_string_udf() {
    // fn qux(x: i64) -> String
    let out = expand("qux", vec![("x", "i64")], "String", false, None);
    assert_eq!(out.wrapper_name, "qux_int64");
    assert_eq!(out.params.len(), 3);
    assert_eq!(out.params[0].ty, CParamTy::Context);
    assert_eq!(out.params[2].name, "out_len");
    assert_eq!(out.params[2].ty, CParamTy::OutLen);
    assert_eq!(out.ret, CRet::StringData);
    assert_eq!(out.meta.return_type.name, "utf8");
    assert!(out.meta.needs_context);
}

#[test]
fn scenario_fallible_bool_udf() {
    // fn quux(x: &str) -> Fallible<bool, string>
    let out = expand("quux", vec![("x", "& str")], "Result < bool , String >", false, None);
    assert_eq!(out.wrapper_name, "quux_utf8");
    assert_eq!(out.params.len(), 3);
    assert_eq!(out.params[0].ty, CParamTy::Context);
    assert_eq!(out.ret, CRet::Value("bool".to_string()));
    assert_eq!(out.handling, ResultHandling::ErrorToFalse);
    assert!(out.meta.needs_context);
    assert!(out.meta.can_return_errors);
    assert_eq!(out.meta.return_type.name, "boolean");
}

#[test]
fn test_string_return_action_cases() {
    assert_eq!(string_return_action(false, false, 5), StringReturnAction::ReportUnset);
    assert_eq!(string_return_action(false, true, 5), StringReturnAction::ReportUnset);
    assert_eq!(string_return_action(true, false, 5), StringReturnAction::ReportAllocFailed);
    assert_eq!(string_return_action(true, true, 5), StringReturnAction::CopyOut(5));
    assert_eq!(string_return_action(true, true, 0), StringReturnAction::CopyOut(0));
}
