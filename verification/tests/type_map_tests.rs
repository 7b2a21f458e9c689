use gandiva_rust_udf::type_map::{map_type, _map_type};

#[test]
fn test_map_type_canonical_table() {
    assert_eq!(map_type("& str"), "utf8");
    assert_eq!(map_type("bool"), "boolean");
    assert_eq!(map_type("i8"), "int8");
    assert_eq!(map_type("i16"), "int16");
    assert_eq!(map_type("i32"), "int32");
    assert_eq!(map_type("i64"), "int64");
    assert_eq!(map_type("u8"), "uint8");
    assert_eq!(map_type("u16"), "uint16");
    assert_eq!(map_type("u32"), "uint32");
    assert_eq!(map_type("u64"), "uint64");
    assert_eq!(map_type("f32"), "float32");
    assert_eq!(map_type("f64"), "float64");
}

#[test]
fn test_map_type_unknown_passes_through() {
    assert_eq!(map_type("decimal"), "decimal");
    assert_eq!(map_type("String"), "String");
    assert_eq!(map_type("Vec < i32 >"), "Vec < i32 >");
    assert_eq!(map_type(""), "");
}

#[test]
fn test_map_type_legacy_spelling_agrees() {
    assert_eq!(_map_type("i64"), "int64");
    assert_eq!(_map_type("& str"), "utf8");
    assert_eq!(_map_type("timestamp"), "timestamp");
}
