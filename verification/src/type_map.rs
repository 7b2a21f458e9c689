//! The type mapper: Arrow names for native scalar types.
//!
//! Native type names arrive in their pretty-printed form, tokens separated by
//! single spaces, so a borrowed string slice is written `& str`.

use vstd::prelude::*;
use crate::text::str_eq;

verus! {

broadcast use vstd::string::group_string_axioms;

/// The Arrow name of a native scalar type; any name outside the mapped set
/// passes through unchanged (this covers complex types and user-defined
/// names).
pub open spec fn map_type_spec(s: Seq<char>) -> Seq<char> {
    if s == "& str"@ {
        "utf8"@
    } else if s == "bool"@ {
        "boolean"@
    } else if s == "i8"@ {
        "int8"@
    } else if s == "i16"@ {
        "int16"@
    } else if s == "i32"@ {
        "int32"@
    } else if s == "i64"@ {
        "int64"@
    } else if s == "u8"@ {
        "uint8"@
    } else if s == "u16"@ {
        "uint16"@
    } else if s == "u32"@ {
        "uint32"@
    } else if s == "u64"@ {
        "uint64"@
    } else if s == "f32"@ {
        "float32"@
    } else if s == "f64"@ {
        "float64"@
    } else {
        s
    }
}

/// Map a native type name, pretty-printed, to its Arrow type name.
pub fn map_type(arg_type: &str) -> (r: String)
    ensures
        r@ == map_type_spec(arg_type@),
{
    if str_eq(arg_type, "& str") {
        "utf8".to_owned()
    } else if str_eq(arg_type, "bool") {
        "boolean".to_owned()
    } else if str_eq(arg_type, "i8") {
        "int8".to_owned()
    } else if str_eq(arg_type, "i16") {
        "int16".to_owned()
    } else if str_eq(arg_type, "i32") {
        "int32".to_owned()
    } else if str_eq(arg_type, "i64") {
        "int64".to_owned()
    } else if str_eq(arg_type, "u8") {
        "uint8".to_owned()
    } else if str_eq(arg_type, "u16") {
        "uint16".to_owned()
    } else if str_eq(arg_type, "u32") {
        "uint32".to_owned()
    } else if str_eq(arg_type, "u64") {
        "uint64".to_owned()
    } else if str_eq(arg_type, "f32") {
        "float32".to_owned()
    } else if str_eq(arg_type, "f64") {
        "float64".to_owned()
    } else {
        arg_type.to_owned()
    }
}

/// The same mapping under the name an earlier revision of the toolchain
/// exported; kept so both spellings stay available to callers.
pub fn _map_type(arg_type: &str) -> (r: String)
    ensures
        r@ == map_type_spec(arg_type@),
{
    map_type(arg_type)
}

/// The twelve canonical mappings hold, and every name outside the mapped set
/// is preserved verbatim.
pub proof fn lemma_map_type_table()
    ensures
        map_type_spec("& str"@) == "utf8"@,
        map_type_spec("bool"@) == "boolean"@,
        map_type_spec("i8"@) == "int8"@,
        map_type_spec("i16"@) == "int16"@,
        map_type_spec("i32"@) == "int32"@,
        map_type_spec("i64"@) == "int64"@,
        map_type_spec("u8"@) == "uint8"@,
        map_type_spec("u16"@) == "uint16"@,
        map_type_spec("u32"@) == "uint32"@,
        map_type_spec("u64"@) == "uint64"@,
        map_type_spec("f32"@) == "float32"@,
        map_type_spec("f64"@) == "float64"@,
        forall|s: Seq<char>|
            s != "& str"@ && s != "bool"@ && s != "i8"@ && s != "i16"@ && s != "i32"@
                && s != "i64"@ && s != "u8"@ && s != "u16"@ && s != "u32"@ && s != "u64"@
                && s != "f32"@ && s != "f64"@ ==> #[trigger] map_type_spec(s) == s,
{
    reveal_strlit("& str");
    reveal_strlit("bool");
    reveal_strlit("i8");
    reveal_strlit("i16");
    reveal_strlit("i32");
    reveal_strlit("i64");
    reveal_strlit("u8");
    reveal_strlit("u16");
    reveal_strlit("u32");
    reveal_strlit("u64");
    reveal_strlit("f32");
    reveal_strlit("f64");
    assert("& str"@.len() == 5);
    assert("bool"@.len() == 4);
    assert("i8"@.len() == 2 && "i8"@[0] == 'i' && "i8"@[1] == '8');
    assert("u8"@.len() == 2 && "u8"@[0] == 'u' && "u8"@[1] == '8');
    assert("i16"@.len() == 3 && "i16"@[0] == 'i' && "i16"@[1] == '1');
    assert("i32"@.len() == 3 && "i32"@[0] == 'i' && "i32"@[1] == '3');
    assert("i64"@.len() == 3 && "i64"@[0] == 'i' && "i64"@[1] == '6');
    assert("u16"@.len() == 3 && "u16"@[0] == 'u' && "u16"@[1] == '1');
    assert("u32"@.len() == 3 && "u32"@[0] == 'u' && "u32"@[1] == '3');
    assert("u64"@.len() == 3 && "u64"@[0] == 'u' && "u64"@[1] == '6');
    assert("f32"@.len() == 3 && "f32"@[0] == 'f' && "f32"@[1] == '3');
    assert("f64"@.len() == 3 && "f64"@[0] == 'f' && "f64"@[1] == '6');
}

} // verus!
