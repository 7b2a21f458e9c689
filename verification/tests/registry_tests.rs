use gandiva_rust_udf::json::{data_type_to_json, get_udf_registry, json_string_exec, registry_to_json};
use gandiva_rust_udf::meta::{register_udf, DataType, UdfMetaData, UdfRegistry};

fn _get_udf_meta() -> UdfMetaData {
    UdfMetaData {
        name: "my_udf".to_string(),
        param_types: vec![DataType { name: "utf8".to_string(), ..Default::default() }],
        return_type: DataType { name: "boolean".to_string(), ..Default::default() },
        pc_name: "my_udf_utf8".to_string(),
        ..Default::default()
    }
}

#[test]
fn test_register_udf() {
    let mut registry: Vec<UdfMetaData> = vec![];
    let udf_meta_data = _get_udf_meta();
    register_udf(&mut registry, udf_meta_data);
    let udfs = &registry;
    assert!(udfs.len() >= 1);
    assert_eq!(udfs[0].name, "my_udf");
}

#[test]
fn test_get_udf_registry() {
    let mut registry: Vec<UdfMetaData> = vec![];
    let udf_meta_data = _get_udf_meta();
    register_udf(&mut registry, udf_meta_data);
    let registry_str = get_udf_registry(&registry);
    let udf_registry: serde_json::Value = serde_json::from_str(&registry_str).unwrap();
    let functions = udf_registry["functions"].as_array().unwrap();
    assert!(functions.len() >= 1);
    assert_eq!(functions[0]["name"].as_str().unwrap(), "my_udf");
}

#[test]
fn test_registry_document_exact_text() {
    let mut registry: Vec<UdfMetaData> = vec![];
    register_udf(&mut registry, _get_udf_meta());
    let expected = "{\"version\":\"1.0\",\"functions\":[{\"name\":\"my_udf\",\"aliases\":[],\"param_types\":[{\"type_name\":\"utf8\"}],\"return_type\":{\"type_name\":\"boolean\"},\"pc_name\":\"my_udf_utf8\",\"result_nullable\":\"if_null\",\"can_return_errors\":false,\"needs_context\":false}]}";
    assert_eq!(get_udf_registry(&registry), expected);
}

#[test]
fn test_registry_struct_document() {
    let reg = UdfRegistry { version: "1.0".to_string(), functions: vec![] };
    assert_eq!(registry_to_json(&reg), "{\"version\":\"1.0\",\"functions\":[]}");
}

#[test]
fn test_json_string_escaping() {
    assert_eq!(json_string_exec("plain"), "\"plain\"");
    assert_eq!(json_string_exec("a\"b"), "\"a\\\"b\"");
    assert_eq!(json_string_exec("a\\b"), "\"a\\\\b\"");
    assert_eq!(json_string_exec("line\nbreak"), "\"line\\u000abreak\"");
    assert_eq!(json_string_exec("tab\tend"), "\"tab\\u0009end\"");
}

#[test]
fn test_data_type_optional_attributes() {
    let plain = DataType { name: "int32".to_string(), ..Default::default() };
    assert_eq!(data_type_to_json(&plain), "{\"type_name\":\"int32\"}");
    let decimal = DataType {
        name: "decimal".to_string(),
        value_type: None,
        precision: Some(38),
        scale: Some(-2),
        unit: None,
    };
    assert_eq!(
        data_type_to_json(&decimal),
        "{\"type_name\":\"decimal\",\"precision\":38,\"scale\":-2}"
    );
    let list = DataType {
        name: "list".to_string(),
        value_type: Some(Box::new(DataType { name: "int64".to_string(), ..Default::default() })),
        precision: None,
        scale: None,
        unit: None,
    };
    assert_eq!(
        data_type_to_json(&list),
        "{\"type_name\":\"list\",\"value_type\":{\"type_name\":\"int64\"}}"
    );
    let ts = DataType {
        name: "timestamp".to_string(),
        value_type: None,
        precision: None,
        scale: None,
        unit: Some("ms".to_string()),
    };
    assert_eq!(
        data_type_to_json(&ts),
        "{\"type_name\":\"timestamp\",\"unit\":\"ms\"}"
    );
}

#[test]
fn test_registry_round_trip_fields() {
    // registered records survive serialization: parsing the document back
    // yields the names, types and physical names that went in
    let mut registry: Vec<UdfMetaData> = vec![];
    register_udf(
        &mut registry,
        UdfMetaData {
            name: "foo".to_string(),
            param_types: vec![],
            return_type: DataType { name: "float64".to_string(), ..Default::default() },
            pc_name: "foo_".to_string(),
            ..Default::default()
        },
    );
    register_udf(&mut registry, _get_udf_meta());
    let doc = get_udf_registry(&registry);
    let parsed: serde_json::Value = serde_json::from_str(&doc).unwrap();
    assert_eq!(parsed["version"].as_str().unwrap(), "1.0");
    let functions = parsed["functions"].as_array().unwrap();
    assert_eq!(functions.len(), 2);
    assert_eq!(functions[0]["name"].as_str().unwrap(), "foo");
    assert_eq!(functions[0]["pc_name"].as_str().unwrap(), "foo_");
    assert_eq!(functions[0]["return_type"]["type_name"].as_str().unwrap(), "float64");
    assert_eq!(functions[0]["param_types"].as_array().unwrap().len(), 0);
    assert_eq!(functions[1]["name"].as_str().unwrap(), "my_udf");
    assert_eq!(functions[1]["pc_name"].as_str().unwrap(), "my_udf_utf8");
    assert_eq!(
        functions[1]["param_types"][0]["type_name"].as_str().unwrap(),
        "utf8"
    );
    assert_eq!(functions[1]["result_nullable"].as_str().unwrap(), "if_null");
    assert_eq!(functions[1]["can_return_errors"].as_bool().unwrap(), false);
    assert_eq!(functions[1]["needs_context"].as_bool().unwrap(), false);
}

#[test]
fn test_round_trip_with_escaped_name() {
    let mut registry: Vec<UdfMetaData> = vec![];
    register_udf(
        &mut registry,
        UdfMetaData {
            name: "odd \"name\" with \\ and \n".to_string(),
            return_type: DataType { name: "int32".to_string(), ..Default::default() },
            pc_name: "odd_".to_string(),
            ..Default::default()
        },
    );
    let doc = get_udf_registry(&registry);
    let parsed: serde_json::Value = serde_json::from_str(&doc).unwrap();
    assert_eq!(
        parsed["functions"][0]["name"].as_str().unwrap(),
        "odd \"name\" with \\ and \n"
    );
}
