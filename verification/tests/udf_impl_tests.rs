use gandiva_rust_udf::meta::{DataType, UdfMetaData};
use gandiva_rust_udf::signature::{extract_result_type, FnParam, FnSig, GenError};
use gandiva_rust_udf::wrapper::{
    udf_impl, CParamTy, CRet, CallArg, ResultHandling, UdfExpansion, WrapperParam,
};

fn sig(ident: &str, params: Vec<(&str, &str)>, ret: Option<&str>) -> FnSig {
    FnSig {
        ident: ident.to_string(),
        params: params
            .into_iter()
            .map(|(n, t)| FnParam { name: n.to_string(), ty: t.to_string() })
            .collect(),
        ret: ret.map(|r| r.to_string()),
    }
}

fn dt(name: &str) -> DataType {
    DataType {
        name: name.to_string(),
        value_type: None,
        precision: None,
        scale: None,
        unit: None,
    }
}

fn meta(
    name: &str,
    aliases: Vec<&str>,
    param_types: Vec<&str>,
    return_type: &str,
    pc_name: &str,
    result_nullable: &str,
    can_return_errors: bool,
    needs_context: bool,
) -> UdfMetaData {
    UdfMetaData {
        name: name.to_string(),
        aliases: aliases.into_iter().map(|a| a.to_string()).collect(),
        param_types: param_types.into_iter().map(dt).collect(),
        return_type: dt(return_type),
        pc_name: pc_name.to_string(),
        result_nullable: result_nullable.to_string(),
        can_return_errors,
        needs_context,
    }
}

fn value_param(name: &str, ty: &str) -> WrapperParam {
    WrapperParam { name: name.to_string(), ty: CParamTy::Value(ty.to_string()) }
}

fn ctx_param() -> WrapperParam {
    WrapperParam { name: "ctx".to_string(), ty: CParamTy::Context }
}

fn utf8_params(name: &str) -> Vec<WrapperParam> {
    vec![
        WrapperParam { name: name.to_string(), ty: CParamTy::Utf8Data },
        WrapperParam { name: format!("{}_len", name), ty: CParamTy::Utf8Len },
    ]
}

fn out_len_param() -> WrapperParam {
    WrapperParam { name: "out_len".to_string(), ty: CParamTy::OutLen }
}

fn gen(
    s: &FnSig,
    name: Option<&str>,
    aliases: Vec<&str>,
    needs_context: bool,
    can_return_errors: bool,
    result_nullable: Option<&str>,
) -> UdfExpansion {
    udf_impl(
        s,
        name.map(|n| n.to_string()),
        aliases.into_iter().map(|a| a.to_string()).collect(),
        needs_context,
        can_return_errors,
        result_nullable.map(|r| r.to_string()),
    )
    .unwrap()
}

#[test]
fn test_no_arg_udf() {
    let input = sig("my_udf", vec![], Some("f64"));
    let expected = UdfExpansion {
        wrapper_name: "my_udf_".to_string(),
        params: vec![],
        ret: CRet::Value("f64".to_string()),
        call_args: vec![],
        handling: ResultHandling::Direct,
        registrar_name: "register_my_udf_".to_string(),
        meta: meta("my_udf", vec![], vec![], "float64", "my_udf_", "if_null", false, false),
    };
    assert_eq!(gen(&input, None, vec![], false, false, None), expected);
}

#[test]
fn test_i64_arg_udf() {
    let input = sig("my_udf", vec![("x", "i64")], Some("f64"));
    let expected = UdfExpansion {
        wrapper_name: "my_udf_int64".to_string(),
        params: vec![value_param("x", "i64")],
        ret: CRet::Value("f64".to_string()),
        call_args: vec![CallArg::Direct("x".to_string())],
        handling: ResultHandling::Direct,
        registrar_name: "register_my_udf_int64".to_string(),
        meta: meta(
            "my_udf",
            vec![],
            vec!["int64"],
            "float64",
            "my_udf_int64",
            "if_null",
            false,
            false,
        ),
    };
    assert_eq!(gen(&input, None, vec![], false, false, None), expected);
}

#[test]
fn test_bool_arg_udf() {
    let input = sig("my_udf", vec![("x", "bool")], Some("bool"));
    let out = gen(&input, None, vec![], false, false, None);
    assert_eq!(out.wrapper_name, "my_udf_boolean");
    assert_eq!(out.params, vec![value_param("x", "bool")]);
    assert_eq!(out.ret, CRet::Value("bool".to_string()));
    assert_eq!(out.handling, ResultHandling::Direct);
    assert_eq!(
        out.meta,
        meta(
            "my_udf",
            vec![],
            vec!["boolean"],
            "boolean",
            "my_udf_boolean",
            "if_null",
            false,
            false,
        )
    );
}

#[test]
fn test_i64_i32_args_udf() {
    let input = sig("my_udf", vec![("x", "i64"), ("y", "i32")], Some("f32"));
    let out = gen(&input, None, vec![], false, false, None);
    assert_eq!(out.wrapper_name, "my_udf_int64_int32");
    assert_eq!(out.params, vec![value_param("x", "i64"), value_param("y", "i32")]);
    assert_eq!(out.ret, CRet::Value("f32".to_string()));
    assert_eq!(
        out.meta,
        meta(
            "my_udf",
            vec![],
            vec!["int64", "int32"],
            "float32",
            "my_udf_int64_int32",
            "if_null",
            false,
            false,
        )
    );
}

#[test]
fn test_str_arg_udf() {
    let input = sig("my_udf", vec![("x", "& str")], Some("bool"));
    let out = gen(&input, None, vec![], false, false, None);
    assert_eq!(out.wrapper_name, "my_udf_utf8");
    assert_eq!(out.params, utf8_params("x"));
    assert_eq!(out.call_args, vec![CallArg::Utf8View("x".to_string())]);
    assert_eq!(out.ret, CRet::Value("bool".to_string()));
    assert_eq!(out.handling, ResultHandling::Direct);
    assert_eq!(
        out.meta,
        meta("my_udf", vec![], vec!["utf8"], "boolean", "my_udf_utf8", "if_null", false, false)
    );
}

#[test]
fn test_needs_context_udf() {
    let input = sig("my_udf", vec![("x", "& str")], Some("bool"));
    let out = gen(&input, None, vec![], true, false, None);
    let mut expected_params = vec![ctx_param()];
    expected_params.extend(utf8_params("x"));
    assert_eq!(out.params, expected_params);
    assert_eq!(
        out.meta,
        meta("my_udf", vec![], vec!["utf8"], "boolean", "my_udf_utf8", "if_null", false, true)
    );
}

#[test]
fn test_needs_context_return_string_udf() {
    // the body returns String::from("hello"); only the signature matters here
    let input = sig("my_udf", vec![("x", "i64")], Some("String"));
    let out = gen(&input, None, vec![], false, false, None);
    assert_eq!(out.wrapper_name, "my_udf_int64");
    assert_eq!(out.params, vec![ctx_param(), value_param("x", "i64"), out_len_param()]);
    assert_eq!(out.ret, CRet::StringData);
    assert_eq!(out.handling, ResultHandling::StringAlloc);
    assert_eq!(
        out.meta,
        meta("my_udf", vec![], vec!["int64"], "utf8", "my_udf_int64", "if_null", false, true)
    );
}

#[test]
fn test_customized_base_name_udf() {
    let input = sig("my_udf", vec![("x", "i64")], Some("f64"));
    let out = gen(&input, Some("your_udf"), vec![], false, false, None);
    assert_eq!(out.wrapper_name, "my_udf_int64");
    assert_eq!(
        out.meta,
        meta(
            "your_udf",
            vec![],
            vec!["int64"],
            "float64",
            "my_udf_int64",
            "if_null",
            false,
            false,
        )
    );
}

#[test]
fn test_alias_udf() {
    let input = sig("my_udf", vec![("x", "i64")], Some("f64"));
    let out = gen(&input, None, vec!["your_udf"], false, false, None);
    assert_eq!(
        out.meta,
        meta(
            "my_udf",
            vec!["your_udf"],
            vec!["int64"],
            "float64",
            "my_udf_int64",
            "if_null",
            false,
            false,
        )
    );
}

#[test]
fn test_result_nullable_udf() {
    let input = sig("my_udf", vec![("x", "i64")], Some("f64"));
    let out = gen(&input, None, vec![], false, false, Some("never"));
    assert_eq!(
        out.meta,
        meta("my_udf", vec![], vec!["int64"], "float64", "my_udf_int64", "never", false, false)
    );
}

#[test]
fn test_return_error_bool_udf() {
    let input = sig("my_udf", vec![("x", "& str")], Some("Result < bool , String >"));
    let out = gen(&input, None, vec![], false, false, None);
    let mut expected_params = vec![ctx_param()];
    expected_params.extend(utf8_params("x"));
    assert_eq!(out.params, expected_params);
    assert_eq!(out.ret, CRet::Value("bool".to_string()));
    assert_eq!(out.handling, ResultHandling::ErrorToFalse);
    assert_eq!(
        out.meta,
        meta("my_udf", vec![], vec!["utf8"], "boolean", "my_udf_utf8", "if_null", true, true)
    );
}

#[test]
fn test_return_error_int32_udf() {
    let input = sig("my_udf", vec![("x", "& str")], Some("Result < i32 , String >"));
    let out = gen(&input, None, vec![], false, false, None);
    assert_eq!(out.ret, CRet::Value("i32".to_string()));
    assert_eq!(out.handling, ResultHandling::ErrorToZero);
    assert_eq!(
        out.meta,
        meta("my_udf", vec![], vec!["utf8"], "int32", "my_udf_utf8", "if_null", true, true)
    );
}

#[test]
fn test_return_error_string_udf() {
    let input = sig("my_udf", vec![("x", "i64")], Some("Result < String , String >"));
    let out = gen(&input, None, vec![], false, false, None);
    assert_eq!(out.params, vec![ctx_param(), value_param("x", "i64"), out_len_param()]);
    assert_eq!(out.ret, CRet::StringData);
    assert_eq!(out.handling, ResultHandling::ErrorToNullString);
    assert_eq!(
        out.meta,
        meta("my_udf", vec![], vec!["int64"], "utf8", "my_udf_int64", "if_null", true, true)
    );
}

#[test]
fn test_missing_return_type_is_fatal() {
    let input = sig("my_udf", vec![], None);
    let err = udf_impl(&input, None, vec![], false, false, None).err().unwrap();
    assert_eq!(err, GenError::MissingReturnType);
    assert_eq!(err.message(), "The function to be wrapped must have a return type.");
}

#[test]
fn test_bare_fallible_return_is_fatal() {
    let input = sig("my_udf", vec![], Some("Result"));
    let err = udf_impl(&input, None, vec![], false, false, None).err().unwrap();
    assert_eq!(err, GenError::MalformedFallibleReturn);
    assert_eq!(
        err.message(),
        "Result type is not well-formed and it is expected to have two generic parameters."
    );
}

#[test]
fn test_attr_error_flag_without_fallible_return_takes_success_path() {
    let input = sig("my_udf", vec![("x", "i64")], Some("f64"));
    let out = gen(&input, None, vec![], false, true, None);
    // the wrapper still takes the plain success path, but gains the context
    assert_eq!(out.handling, ResultHandling::Direct);
    assert_eq!(out.params[0], ctx_param());
    assert!(out.meta.can_return_errors);
    assert!(out.meta.needs_context);
}

#[test]
fn test_extract_result_type_cases() {
    assert_eq!(
        extract_result_type("Result < bool , String >").unwrap(),
        ("bool".to_string(), true)
    );
    assert_eq!(extract_result_type("f64").unwrap(), ("f64".to_string(), false));
    assert_eq!(
        extract_result_type("std :: result :: Result < i32 , String >").unwrap(),
        ("i32".to_string(), true)
    );
    assert_eq!(
        extract_result_type("Vec < i32 >").unwrap(),
        ("Vec < i32 >".to_string(), false)
    );
    assert_eq!(
        extract_result_type("Result < Vec < i32 > , String >").unwrap(),
        ("Vec < i32 >".to_string(), true)
    );
    // a one-argument container is not the fallible shape
    assert_eq!(
        extract_result_type("Result < i32 >").unwrap(),
        ("Result < i32 >".to_string(), false)
    );
    assert_eq!(
        extract_result_type("Result").err().unwrap(),
        GenError::MalformedFallibleReturn
    );
    // the container head with parenthesized arguments is malformed too
    assert_eq!(
        extract_result_type("Result (i32) -> i32").err().unwrap(),
        GenError::MalformedFallibleReturn
    );
    assert_eq!(
        extract_result_type("std :: result :: Result (i32) -> i32").err().unwrap(),
        GenError::MalformedFallibleReturn
    );
    assert_eq!(
        extract_result_type("std :: result :: Result").err().unwrap(),
        GenError::MalformedFallibleReturn
    );
}
