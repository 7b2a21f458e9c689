//! The JSON emitter for the registry document: the exact byte-for-byte text
//! handed to the engine when it asks for the registered UDFs.

use vstd::prelude::*;
use vstd::string::StrSliceExecFns;
use vstd::string::StringExecFns;
use crate::meta::{DataType, UdfMetaData, UdfRegistry};
use crate::text::{join_sep, join_with, push_char};

verus! {

broadcast use vstd::string::group_string_axioms;

/// The decimal digit characters.
pub open spec fn digit_char(d: int) -> char {
    if d == 0 {
        '0'
    } else if d == 1 {
        '1'
    } else if d == 2 {
        '2'
    } else if d == 3 {
        '3'
    } else if d == 4 {
        '4'
    } else if d == 5 {
        '5'
    } else if d == 6 {
        '6'
    } else if d == 7 {
        '7'
    } else if d == 8 {
        '8'
    } else {
        '9'
    }
}

/// The hexadecimal digit characters, lower case.
pub open spec fn hex_digit(d: int) -> char {
    if d < 10 {
        digit_char(d)
    } else if d == 10 {
        'a'
    } else if d == 11 {
        'b'
    } else if d == 12 {
        'c'
    } else if d == 13 {
        'd'
    } else if d == 14 {
        'e'
    } else {
        'f'
    }
}

/// The decimal digits of a nonnegative number, most significant first.
pub open spec fn dec_u(n: nat) -> Seq<char>
    decreases n,
{
    if n < 10 {
        seq![digit_char(n as int)]
    } else {
        dec_u(n / 10).push(digit_char((n % 10) as int))
    }
}

/// The decimal text of an integer.
pub open spec fn dec_i(i: int) -> Seq<char> {
    if i < 0 {
        "-"@ + dec_u((-i) as nat)
    } else {
        dec_u(i as nat)
    }
}

/// One character as it stands inside a JSON string: quote and backslash are
/// escaped, control characters take the four-digit escape, everything else
/// passes through.
pub open spec fn esc_char(c: char) -> Seq<char> {
    if c == '"' {
        "\\\""@
    } else if c == '\\' {
        "\\\\"@
    } else if (c as u32) < 0x20 {
        "\\u00"@ + seq![hex_digit(c as u32 as int / 16), hex_digit(c as u32 as int % 16)]
    } else {
        seq![c]
    }
}

/// The body of a JSON string.
pub open spec fn json_escape(s: Seq<char>) -> Seq<char>
    decreases s.len(),
{
    if s.len() == 0 {
        Seq::empty()
    } else {
        json_escape(s.drop_last()) + esc_char(s.last())
    }
}

/// A JSON string, quotes included.
pub open spec fn json_string(s: Seq<char>) -> Seq<char> {
    "\""@ + json_escape(s) + "\""@
}

/// A JSON boolean.
pub open spec fn json_bool(b: bool) -> Seq<char> {
    if b {
        "true"@
    } else {
        "false"@
    }
}

/// The JSON object of a data type: its name, then only those optional
/// attributes that are present.
pub open spec fn data_type_json(d: DataType) -> Seq<char>
    decreases d,
{
    "{\"type_name\":"@ + json_string(d.name@) + (match d.value_type {
        Some(b) => ",\"value_type\":"@ + data_type_json(*b),
        None => Seq::empty(),
    }) + (match d.precision {
        Some(p) => ",\"precision\":"@ + dec_i(p as int),
        None => Seq::empty(),
    }) + (match d.scale {
        Some(sc) => ",\"scale\":"@ + dec_i(sc as int),
        None => Seq::empty(),
    }) + (match d.unit {
        Some(u) => ",\"unit\":"@ + json_string(u@),
        None => Seq::empty(),
    }) + "}"@
}

/// The JSON object of one registered UDF record.
pub open spec fn udf_meta_json(m: UdfMetaData) -> Seq<char> {
    "{\"name\":"@ + json_string(m.name@) + ",\"aliases\":["@ + join_sep(
        m.aliases@.map_values(|a: String| json_string(a@)),
        ","@,
    ) + "],\"param_types\":["@ + join_sep(
        m.param_types@.map_values(|d: DataType| data_type_json(d)),
        ","@,
    ) + "],\"return_type\":"@ + data_type_json(m.return_type) + ",\"pc_name\":"@ + json_string(
        m.pc_name@,
    ) + ",\"result_nullable\":"@ + json_string(m.result_nullable@) + ",\"can_return_errors\":"@
        + json_bool(m.can_return_errors) + ",\"needs_context\":"@ + json_bool(m.needs_context)
        + "}"@
}

/// The full registry document.
pub open spec fn udf_registry_json(version: Seq<char>, functions: Seq<UdfMetaData>) -> Seq<char> {
    "{\"version\":"@ + json_string(version) + ",\"functions\":["@ + join_sep(
        functions.map_values(|m: UdfMetaData| udf_meta_json(m)),
        ","@,
    ) + "]}"@
}

fn dec_digit(d: u64) -> (r: char)
    requires
        d < 10,
    ensures
        r == digit_char(d as int),
{
    if d == 0 {
        '0'
    } else if d == 1 {
        '1'
    } else if d == 2 {
        '2'
    } else if d == 3 {
        '3'
    } else if d == 4 {
        '4'
    } else if d == 5 {
        '5'
    } else if d == 6 {
        '6'
    } else if d == 7 {
        '7'
    } else if d == 8 {
        '8'
    } else {
        '9'
    }
}

fn hex_char(d: u32) -> (r: char)
    requires
        d < 16,
    ensures
        r == hex_digit(d as int),
{
    if d < 10 {
        dec_digit(d as u64)
    } else if d == 10 {
        'a'
    } else if d == 11 {
        'b'
    } else if d == 12 {
        'c'
    } else if d == 13 {
        'd'
    } else if d == 14 {
        'e'
    } else {
        'f'
    }
}

fn u64_to_dec(n: u64) -> (r: String)
    ensures
        r@ == dec_u(n as nat),
{
    let mut digits: Vec<char> = Vec::new();
    let mut v: u64 = n;
    loop
        invariant_except_break
            dec_u(n as nat) == dec_u(v as nat) + digits@.reverse(),
        ensures
            dec_u(n as nat) == digits@.reverse(),
        decreases v,
    {
        let ghost v0 = v as nat;
        let ghost d0 = digits@;
        let c = dec_digit(v % 10);
        digits.push(c);
        proof {
            assert(digits@.reverse() =~= seq![digit_char((v0 % 10) as int)] + d0.reverse());
        }
        let v2 = v / 10;
        if v2 == 0 {
            proof {
                assert(v0 < 10);
                assert(dec_u(v0) == seq![digit_char(v0 as int)]);
                assert(v0 % 10 == v0);
                assert(dec_u(n as nat) =~= digits@.reverse());
            }
            break;
        }
        proof {
            assert(v0 >= 10);
            assert(dec_u(v0) == dec_u(v0 / 10).push(digit_char((v0 % 10) as int)));
            assert(dec_u(v0 / 10) + digits@.reverse() =~= dec_u(v0) + d0.reverse());
        }
        v = v2;
    }
    let mut r = String::new();
    let mut i: usize = 0;
    let len = digits.len();
    while i < len
        invariant
            i <= len,
            len == digits@.len(),
            r@ == digits@.reverse().take(i as int),
        decreases len - i,
    {
        push_char(&mut r, digits[len - 1 - i]);
        i = i + 1;
        proof {
            assert(r@ =~= digits@.reverse().take(i as int));
        }
    }
    proof {
        assert(digits@.reverse().take(len as int) =~= digits@.reverse());
    }
    r
}

fn i32_to_dec(i: i32) -> (r: String)
    ensures
        r@ == dec_i(i as int),
{
    if i < 0 {
        let mut r = "-".to_owned();
        let mag: u64 = (-(i as i64)) as u64;
        let tail = u64_to_dec(mag);
        r.append(tail.as_str());
        r
    } else {
        u64_to_dec(i as u64)
    }
}

fn append_escaped(out: &mut String, s: &str)
    ensures
        final(out)@ == old(out)@ + json_escape(s@),
{
    let n = s.unicode_len();
    let mut i: usize = 0;
    proof {
        assert(json_escape(s@.take(0)) == Seq::<char>::empty());
        assert(out@ =~= old(out)@ + json_escape(s@.take(0)));
    }
    while i < n
        invariant
            i <= n,
            n == s@.len(),
            out@ == old(out)@ + json_escape(s@.take(i as int)),
        decreases n - i,
    {
        let c = s.get_char(i);
        if c == '"' {
            out.append("\\\"");
        } else if c == '\\' {
            out.append("\\\\");
        } else {
            let d = c as u32;
            if d < 0x20 {
                out.append("\\u00");
                push_char(out, hex_char(d / 16));
                push_char(out, hex_char(d % 16));
            } else {
                push_char(out, c);
            }
        }
        i = i + 1;
        proof {
            assert(s@.take(i as int).drop_last() =~= s@.take(i as int - 1));
            assert(s@.take(i as int).last() == s@[i as int - 1]);
            assert(out@ =~= old(out)@ + json_escape(s@.take(i as int)));
        }
    }
    proof {
        assert(s@.take(n as int) =~= s@);
    }
}

/// A JSON string for the given text.
pub fn json_string_exec(s: &str) -> (r: String)
    ensures
        r@ == json_string(s@),
{
    let mut r = "\"".to_owned();
    append_escaped(&mut r, s);
    r.append("\"");
    proof {
        assert(r@ =~= json_string(s@));
    }
    r
}

/// The JSON object of a data type.
#[verifier::rlimit(60)]
pub fn data_type_to_json(d: &DataType) -> (r: String)
    ensures
        r@ == data_type_json(*d),
    decreases *d,
{
    let mut r = "{\"type_name\":".to_owned();
    let name_json = json_string_exec(d.name.as_str());
    r.append(name_json.as_str());
    match &d.value_type {
        Some(b) => {
            r.append(",\"value_type\":");
            let inner = data_type_to_json(&**b);
            r.append(inner.as_str());
        },
        None => {},
    }
    match &d.precision {
        Some(p) => {
            r.append(",\"precision\":");
            let t = i32_to_dec(*p);
            r.append(t.as_str());
        },
        None => {},
    }
    match &d.scale {
        Some(sc) => {
            r.append(",\"scale\":");
            let t = i32_to_dec(*sc);
            r.append(t.as_str());
        },
        None => {},
    }
    match &d.unit {
        Some(u) => {
            r.append(",\"unit\":");
            let t = json_string_exec(u.as_str());
            r.append(t.as_str());
        },
        None => {},
    }
    r.append("}");
    proof {
        assert(r@ =~= data_type_json(*d));
    }
    r
}

/// The JSON object of one registered record.
pub fn udf_meta_to_json(m: &UdfMetaData) -> (r: String)
    ensures
        r@ == udf_meta_json(*m),
{
    let mut r = "{\"name\":".to_owned();
    let t = json_string_exec(m.name.as_str());
    r.append(t.as_str());
    r.append(",\"aliases\":[");
    let mut alias_parts: Vec<String> = Vec::new();
    let mut i: usize = 0;
    while i < m.aliases.len()
        invariant
            i <= m.aliases.len(),
            alias_parts@.len() == i,
            forall|j: int|
                0 <= j < i ==> #[trigger] alias_parts@[j]@ == json_string(m.aliases@[j]@),
        decreases m.aliases.len() - i,
    {
        alias_parts.push(json_string_exec(m.aliases[i].as_str()));
        i = i + 1;
    }
    let joined = join_with(&alias_parts, ",");
    proof {
        assert(alias_parts.deep_view() =~= m.aliases@.map_values(|a: String| json_string(a@)));
    }
    r.append(joined.as_str());
    r.append("],\"param_types\":[");
    let mut ty_parts: Vec<String> = Vec::new();
    let mut k: usize = 0;
    while k < m.param_types.len()
        invariant
            k <= m.param_types.len(),
            ty_parts@.len() == k,
            forall|j: int|
                0 <= j < k ==> #[trigger] ty_parts@[j]@ == data_type_json(m.param_types@[j]),
        decreases m.param_types.len() - k,
    {
        ty_parts.push(data_type_to_json(&m.param_types[k]));
        k = k + 1;
    }
    let tjoined = join_with(&ty_parts, ",");
    proof {
        assert(ty_parts.deep_view() =~= m.param_types@.map_values(
            |d: DataType| data_type_json(d),
        ));
    }
    r.append(tjoined.as_str());
    r.append("],\"return_type\":");
    let rt = data_type_to_json(&m.return_type);
    r.append(rt.as_str());
    r.append(",\"pc_name\":");
    let pc = json_string_exec(m.pc_name.as_str());
    r.append(pc.as_str());
    r.append(",\"result_nullable\":");
    let rn = json_string_exec(m.result_nullable.as_str());
    r.append(rn.as_str());
    r.append(",\"can_return_errors\":");
    if m.can_return_errors {
        r.append("true");
    } else {
        r.append("false");
    }
    r.append(",\"needs_context\":");
    if m.needs_context {
        r.append("true");
    } else {
        r.append("false");
    }
    r.append("}");
    proof {
        assert(r@ =~= udf_meta_json(*m));
    }
    r
}

fn metas_to_json(functions: &Vec<UdfMetaData>) -> (r: String)
    ensures
        r@ == join_sep(functions@.map_values(|m: UdfMetaData| udf_meta_json(m)), ","@),
{
    let mut parts: Vec<String> = Vec::new();
    let mut i: usize = 0;
    while i < functions.len()
        invariant
            i <= functions.len(),
            parts@.len() == i,
            forall|j: int| 0 <= j < i ==> #[trigger] parts@[j]@ == udf_meta_json(functions@[j]),
        decreases functions.len() - i,
    {
        parts.push(udf_meta_to_json(&functions[i]));
        i = i + 1;
    }
    proof {
        assert(parts.deep_view() =~= functions@.map_values(|m: UdfMetaData| udf_meta_json(m)));
    }
    join_with(&parts, ",")
}

/// The document for a registry value, whatever its version string.
pub fn registry_to_json(reg: &UdfRegistry) -> (r: String)
    ensures
        r@ == udf_registry_json(reg.version@, reg.functions@),
{
    let mut r = "{\"version\":".to_owned();
    let v = json_string_exec(reg.version.as_str());
    r.append(v.as_str());
    r.append(",\"functions\":[");
    let body = metas_to_json(&reg.functions);
    r.append(body.as_str());
    r.append("]}");
    proof {
        assert(r@ =~= udf_registry_json(reg.version@, reg.functions@));
    }
    r
}

/// The registry document for the given records, under the fixed document
/// version. This is the text whose ownership is handed to the engine; the
/// caller pairs it with the engine's matching free call.
pub fn get_udf_registry(functions: &Vec<UdfMetaData>) -> (r: String)
    ensures
        r@ == udf_registry_json("1.0"@, functions@),
{
    let mut r = "{\"version\":".to_owned();
    let v = json_string_exec("1.0");
    r.append(v.as_str());
    r.append(",\"functions\":[");
    let body = metas_to_json(functions);
    r.append(body.as_str());
    r.append("]}");
    proof {
        assert(r@ =~= udf_registry_json("1.0"@, functions@));
    }
    r
}

proof fn lemma_char_code_injective(a: char, b: char)
    requires
        a as u32 == b as u32,
    ensures
        a == b,
{
}

proof fn lemma_escape_front(s: Seq<char>)
    requires
        s.len() > 0,
    ensures
        json_escape(s) == esc_char(s[0]) + json_escape(s.drop_first()),
    decreases s.len(),
{
    if s.len() == 1 {
        assert(json_escape(s.drop_last()) == Seq::<char>::empty());
        assert(s.drop_first().len() == 0);
        assert(json_escape(s) =~= esc_char(s[0]) + json_escape(s.drop_first()));
    } else {
        lemma_escape_front(s.drop_last());
        assert(s.drop_last()[0] == s[0]);
        assert(s.drop_last().drop_first() =~= s.drop_first().drop_last());
        assert(s.drop_first().last() == s.last());
        assert(json_escape(s.drop_first()) == json_escape(s.drop_first().drop_last()) + esc_char(
            s.drop_first().last(),
        ));
        assert(json_escape(s) =~= esc_char(s[0]) + json_escape(s.drop_first()));
    }
}

proof fn lemma_esc_char_shape(c: char)
    ensures
        esc_char(c).len() >= 1,
        (c == '"' || c == '\\' || (c as u32) < 0x20) ==> esc_char(c).len() >= 2 && esc_char(c)[0]
            == '\\',
        !(c == '"' || c == '\\' || (c as u32) < 0x20) ==> esc_char(c) == seq![c],
        c == '"' ==> esc_char(c).len() == 2 && esc_char(c)[1] == '"',
        c == '\\' && c != '"' ==> esc_char(c).len() == 2 && esc_char(c)[1] == '\\',
        c != '"' && c != '\\' && (c as u32) < 0x20 ==> esc_char(c).len() == 6 && esc_char(c)[1]
            == 'u' && esc_char(c)[4] == hex_digit(c as u32 as int / 16) && esc_char(c)[5]
            == hex_digit(c as u32 as int % 16),
{
    reveal_strlit("\\\"");
    reveal_strlit("\\\\");
    reveal_strlit("\\u00");
    assert("\\\""@.len() == 2 && "\\\""@[0] == '\\' && "\\\""@[1] == '"');
    assert("\\\\"@.len() == 2 && "\\\\"@[0] == '\\' && "\\\\"@[1] == '\\');
    assert("\\u00"@.len() == 4 && "\\u00"@[0] == '\\' && "\\u00"@[1] == 'u');
}

/// Escaping loses nothing: two different texts never share a JSON string
/// body, so the string payloads of the registry document determine the
/// registered values they came from.
#[verifier::rlimit(60)]
pub proof fn lemma_json_escape_injective(s1: Seq<char>, s2: Seq<char>)
    requires
        json_escape(s1) == json_escape(s2),
    ensures
        s1 == s2,
    decreases s1.len(),
{
    if s1.len() == 0 || s2.len() == 0 {
        if s1.len() == 0 && s2.len() > 0 {
            lemma_escape_front(s2);
            lemma_esc_char_shape(s2[0]);
            assert(json_escape(s2).len() >= 1);
        }
        if s2.len() == 0 && s1.len() > 0 {
            lemma_escape_front(s1);
            lemma_esc_char_shape(s1[0]);
            assert(json_escape(s1).len() >= 1);
        }
        assert(s1 =~= s2);
    } else {
        lemma_escape_front(s1);
        lemma_escape_front(s2);
        let a = s1[0];
        let b = s2[0];
        lemma_esc_char_shape(a);
        lemma_esc_char_shape(b);
        let ea = esc_char(a);
        let eb = esc_char(b);
        let ra = json_escape(s1.drop_first());
        let rb = json_escape(s2.drop_first());
        let a_esc = a == '"' || a == '\\' || (a as u32) < 0x20;
        let b_esc = b == '"' || b == '\\' || (b as u32) < 0x20;
        assert((ea + ra)[0] == ea[0]);
        assert((eb + rb)[0] == eb[0]);
        if !a_esc && !b_esc {
            assert(a == b);
            assert((ea + ra).skip(1) =~= ra);
            assert((eb + rb).skip(1) =~= rb);
            lemma_json_escape_injective(s1.drop_first(), s2.drop_first());
            assert(s1 =~= seq![a] + s1.drop_first());
            assert(s2 =~= seq![b] + s2.drop_first());
        } else if a_esc != b_esc {
            // one side starts with a backslash unit, the other with a plain
            // character that is never a backslash
            assert(false);
        } else {
            assert((ea + ra)[1] == ea[1]);
            assert((eb + rb)[1] == eb[1]);
            if a == '"' || (a == '\\') {
                assert(b == '"' || b == '\\') by {
                    if (b as u32) < 0x20 && b != '"' && b != '\\' {
                        assert(eb[1] == 'u');
                    }
                }
                assert(a == b);
                assert((ea + ra).skip(2) =~= ra);
                assert((eb + rb).skip(2) =~= rb);
                lemma_json_escape_injective(s1.drop_first(), s2.drop_first());
                assert(s1 =~= seq![a] + s1.drop_first());
                assert(s2 =~= seq![b] + s2.drop_first());
            } else {
                assert(ea[1] == 'u');
                assert(b != '"' && b != '\\') by {
                    if b == '"' || b == '\\' {
                        assert(eb[1] == '"' || eb[1] == '\\');
                    }
                }
                assert((ea + ra)[4] == ea[4] && (ea + ra)[5] == ea[5]);
                assert((eb + rb)[4] == eb[4] && (eb + rb)[5] == eb[5]);
                assert(hex_digit(a as u32 as int / 16) == hex_digit(b as u32 as int / 16));
                assert(hex_digit(a as u32 as int % 16) == hex_digit(b as u32 as int % 16));
                assert(a as u32 as int / 16 == b as u32 as int / 16);
                assert(a as u32 as int % 16 == b as u32 as int % 16);
                assert(a as u32 == b as u32);
                lemma_char_code_injective(a, b);
                assert((ea + ra).skip(6) =~= ra);
                assert((eb + rb).skip(6) =~= rb);
                lemma_json_escape_injective(s1.drop_first(), s2.drop_first());
                assert(s1 =~= seq![a] + s1.drop_first());
                assert(s2 =~= seq![b] + s2.drop_first());
            }
        }
    }
}

} // verus!
