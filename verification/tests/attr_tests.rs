use gandiva_rust_udf::descriptor::{extract_udf_meta, AttrArg, AttrValue, UdfAttrs};

fn arg(key: &str, value: AttrValue) -> AttrArg {
    AttrArg { key: key.to_string(), value }
}

fn s(v: &str) -> AttrValue {
    AttrValue::Str(v.to_string())
}

#[test]
fn test_extract_udf_meta() {
    let args = vec![
        arg("name", s("my_udf")),
        arg("aliases", AttrValue::List(vec![s("your_udf")])),
        arg("needs_context", AttrValue::Bool(true)),
        arg("result_nullable", s("never")),
    ];
    let expected = UdfAttrs {
        name: Some("my_udf".to_string()),
        aliases: vec!["your_udf".to_string()],
        needs_context: true,
        can_return_errors: false,
        result_nullable: Some("never".to_string()),
    };
    let actual = extract_udf_meta(&args);
    assert_eq!(actual.unwrap(), expected);
}

#[test]
fn test_extract_invalid_alias() {
    let args = vec![arg("aliases", AttrValue::List(vec![AttrValue::Other("42".to_string())]))];
    let actual = extract_udf_meta(&args);
    assert_eq!(
        actual.err().unwrap().message,
        "Expected string literal for function alias"
    );
}

#[test]
fn test_extract_invalid_attribute() {
    let args = vec![arg("no_such_attr", AttrValue::Other("42".to_string()))];
    let actual = extract_udf_meta(&args);
    assert_eq!(actual.err().unwrap().message, "Unknown attribute for UDF function");
}

#[test]
fn test_extract_name_should_be_string() {
    let args = vec![arg("name", AttrValue::Other("42".to_string()))];
    let actual = extract_udf_meta(&args);
    assert_eq!(actual.err().unwrap().message, "expected string literal");
}

#[test]
fn test_extract_alias_should_be_array() {
    let args = vec![arg("aliases", s("your_udf"))];
    let actual = extract_udf_meta(&args);
    assert_eq!(actual.err().unwrap().message, "expected square brackets");
}

#[test]
fn test_extract_result_nullable_should_be_string() {
    let args = vec![arg("result_nullable", s("if_null"))];
    let expected = UdfAttrs {
        name: None,
        aliases: vec![],
        needs_context: false,
        can_return_errors: false,
        result_nullable: Some("if_null".to_string()),
    };
    let actual = extract_udf_meta(&args);
    assert_eq!(actual.unwrap(), expected);
}

#[test]
fn test_extract_invalid_result_nullable_value() {
    let args = vec![arg("result_nullable", s("no_supported_nullable_value"))];
    let actual = extract_udf_meta(&args);
    assert_eq!(
        actual.err().unwrap().message,
        "Unsupported value for result_nullable attribute. Only if_null, never, internal are allowed."
    );
}

#[test]
fn test_extract_needs_context_should_be_bool() {
    let args = vec![arg("needs_context", AttrValue::Other("42".to_string()))];
    let actual = extract_udf_meta(&args);
    assert_eq!(actual.err().unwrap().message, "expected boolean literal");
}

#[test]
fn test_extract_udf_meta_multi_aliases_false_needs_context() {
    let args = vec![
        arg("name", s("my_udf")),
        arg("aliases", AttrValue::List(vec![s("your_udf"), s("her_udf")])),
        arg("needs_context", AttrValue::Bool(false)),
        arg("result_nullable", s("internal")),
    ];
    let expected = UdfAttrs {
        name: Some("my_udf".to_string()),
        aliases: vec!["your_udf".to_string(), "her_udf".to_string()],
        needs_context: false,
        can_return_errors: false,
        result_nullable: Some("internal".to_string()),
    };
    let actual = extract_udf_meta(&args);
    assert_eq!(actual.unwrap(), expected);
}

#[test]
fn test_extract_udf_meta_default() {
    let args: Vec<AttrArg> = vec![];
    let expected = UdfAttrs {
        name: None,
        aliases: vec![],
        needs_context: false,
        can_return_errors: false,
        result_nullable: None,
    };
    let actual = extract_udf_meta(&args);
    assert_eq!(actual.unwrap(), expected);
}

#[test]
fn test_extract_udf_meta_can_return_errors() {
    let args = vec![arg("can_return_errors", AttrValue::Bool(true))];
    let expected = UdfAttrs {
        name: None,
        aliases: vec![],
        needs_context: false,
        can_return_errors: true,
        result_nullable: None,
    };
    let actual = extract_udf_meta(&args);
    assert_eq!(actual.unwrap(), expected);
}

#[test]
fn test_extract_error_is_anchored_to_argument() {
    let args = vec![
        arg("name", s("ok")),
        arg("needs_context", AttrValue::Other("42".to_string())),
    ];
    let err = extract_udf_meta(&args).err().unwrap();
    assert_eq!(err.arg_index, 1);
}

#[test]
fn test_extract_aliases_accumulate_and_name_overwrites() {
    let args = vec![
        arg("aliases", AttrValue::List(vec![s("a1")])),
        arg("name", s("first")),
        arg("aliases", AttrValue::List(vec![s("a2")])),
        arg("name", s("second")),
    ];
    let d = extract_udf_meta(&args).unwrap();
    assert_eq!(d.name, Some("second".to_string()));
    assert_eq!(d.aliases, vec!["a1".to_string(), "a2".to_string()]);
}
