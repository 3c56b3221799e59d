//! The JSON faces of the manifest metadata: rendering the table schema and the
//! partition-field list as the user metadata spells them, and interpreting the
//! parsed JSON trees back. Parsing of raw JSON text is done by serde_json
//! behind trusted items; every interpretation of the parsed tree is verified.
use vstd::prelude::*;

use crate::error::Error;
use crate::schema::{FieldType, NestedField, PartitionField, Schema};
use crate::strutil::{parse_u64, spec_parse_u64, spec_strip_zeros, str_eq};
use crate::values::PrimitiveType;
use vstd::string::StrSliceExecFns;
use vstd::string::StringExecFns;

verus! {

#[verifier::external_type_specification]
#[verifier::external_body]
/// The parsed JSON tree type of serde_json, carried opaquely.
pub struct ExJsonValue(serde_json::Value);

/// Whether a byte string is a JSON text that serde_json parses; parsing is a
/// function of the bytes alone.
pub uninterp spec fn json_tree_ok(bytes: Seq<u8>) -> bool;

/// Relies on serde_json::from_slice: it parses exactly the well-formed JSON
/// texts and returns their tree.
#[verifier::external_body]
pub(crate) fn json_parse(bytes: &Vec<u8>) -> (r: Result<serde_json::Value, String>)
    ensures
        r is Ok <==> json_tree_ok(bytes@),
{
    serde_json::from_slice(bytes).map_err(|e| e.to_string())
}

/// Relies on serde_json::Value::get: the member of an object under a key.
#[verifier::external_body]
pub(crate) fn js_get(v: &serde_json::Value, key: &str) -> (r: Option<serde_json::Value>) {
    v.get(key).cloned()
}

/// Relies on serde_json::Value::as_str: the text of a JSON string node.
#[verifier::external_body]
pub(crate) fn js_str(v: &serde_json::Value) -> (r: Option<String>) {
    v.as_str().map(|s| s.to_string())
}

/// Relies on serde_json::Value::as_i64: the value of a JSON integer node.
#[verifier::external_body]
pub(crate) fn js_i64(v: &serde_json::Value) -> (r: Option<i64>) {
    v.as_i64()
}

/// Relies on serde_json::Value::as_bool: the value of a JSON boolean node.
#[verifier::external_body]
pub(crate) fn js_bool(v: &serde_json::Value) -> (r: Option<bool>) {
    v.as_bool()
}

/// Relies on serde_json::Value::as_array: the elements of a JSON array node.
#[verifier::external_body]
pub(crate) fn js_array(v: &serde_json::Value) -> (r: Option<Vec<serde_json::Value>>) {
    v.as_array().cloned()
}

/// Relies on serde_json::to_string: the JSON text of a parsed tree; a tree of
/// JSON nodes always serializes.
#[verifier::external_body]
pub(crate) fn js_to_string(v: &serde_json::Value) -> (r: String) {
    serde_json::to_string(v).unwrap_or_default()
}

/// Relies on String::push: it appends exactly one character.
#[verifier::external_body]
pub(crate) fn string_push(s: &mut String, c: char)
    ensures
        final(s)@ == old(s)@ + seq![c],
{
    s.push(c);
}

/// The decimal rendering of an unsigned 64-bit value.
pub open spec fn spec_render_u64(v: u64) -> Seq<char>
    decreases v,
{
    let digit = (('0' as u32) + ((v % 10) as u32)) as char;
    if v < 10 {
        seq![digit]
    } else {
        spec_render_u64(v / 10) + seq![digit]
    }
}

/// The decimal rendering of a signed 32-bit value.
pub open spec fn spec_render_i32(v: i32) -> Seq<char> {
    if v < 0 {
        seq!['-'] + spec_render_u64((-(v as i64)) as u64)
    } else {
        spec_render_u64(v as u64)
    }
}

/// Render an unsigned 64-bit value in decimal.
pub fn render_u64(v: u64) -> (r: String)
    ensures
        r@ == spec_render_u64(v),
    decreases v,
{
    let digit_code = 48 + ((v % 10) as u32);
    let mut s = if v < 10 {
        String::new()
    } else {
        render_u64(v / 10)
    };
    string_push(&mut s, char_of_digit_code(digit_code));
    proof {
        assert(s@ =~= spec_render_u64(v));
    }
    s
}

/// The character of a digit code between 48 and 57.
fn char_of_digit_code(code: u32) -> (r: char)
    requires
        48 <= code <= 57,
    ensures
        r == (code as char),
{
    if code == 48 {
        '0'
    } else if code == 49 {
        '1'
    } else if code == 50 {
        '2'
    } else if code == 51 {
        '3'
    } else if code == 52 {
        '4'
    } else if code == 53 {
        '5'
    } else if code == 54 {
        '6'
    } else if code == 55 {
        '7'
    } else if code == 56 {
        '8'
    } else {
        '9'
    }
}

/// Render a signed 32-bit value in decimal.
pub fn render_i32(v: i32) -> (r: String)
    ensures
        r@ == spec_render_i32(v),
{
    if v < 0 {
        let mut s = String::new();
        string_push(&mut s, '-');
        let rest = render_u64((-(v as i64)) as u64);
        s.append(rest.as_str());
        proof {
            assert(s@ =~= spec_render_i32(v));
        }
        s
    } else {
        render_u64(v as u64)
    }
}

/// The JSON escaping of a text: quotes and backslashes get a backslash, and
/// ASCII control characters become a unicode escape.
pub open spec fn spec_json_escape_char(c: char) -> Seq<char> {
    if c == '"' {
        seq!['\\', '"']
    } else if c == '\\' {
        seq!['\\', '\\']
    } else if (c as u32) < 0x20 {
        seq!['\\', 'u', '0', '0'] + seq![
            spec_hex_digit((c as u32) / 16),
            spec_hex_digit((c as u32) % 16),
        ]
    } else {
        seq![c]
    }
}

/// The lower-case hex digit of a value below sixteen.
pub open spec fn spec_hex_digit(v: u32) -> char {
    if v < 10 {
        (('0' as u32) + v) as char
    } else {
        (('a' as u32) + (v - 10)) as char
    }
}

/// The JSON escaping of a whole text.
pub open spec fn spec_json_escape(s: Seq<char>) -> Seq<char>
    decreases s.len(),
{
    if s.len() == 0 {
        Seq::empty()
    } else {
        spec_json_escape(s.drop_last()) + spec_json_escape_char(s.last())
    }
}

/// The lower-case hex digit of a value below sixteen, executable.
fn hex_digit(v: u32) -> (r: char)
    requires
        v < 16,
    ensures
        r == spec_hex_digit(v),
{
    if v < 10 {
        char_of_digit_code(48 + v)
    } else if v == 10 {
        'a'
    } else if v == 11 {
        'b'
    } else if v == 12 {
        'c'
    } else if v == 13 {
        'd'
    } else if v == 14 {
        'e'
    } else {
        'f'
    }
}

/// Append the JSON escaping of a text.
pub fn append_json_escaped(out: &mut String, s: &str)
    ensures
        final(out)@ == old(out)@ + spec_json_escape(s@),
{
    let n = s.unicode_len();
    let mut i: usize = 0;
    proof {
        assert(spec_json_escape(s@.take(0)) =~= Seq::<char>::empty());
        assert(out@ =~= old(out)@ + spec_json_escape(s@.take(0)));
    }
    while i < n
        invariant
            i <= n,
            n == s@.len(),
            out@ == old(out)@ + spec_json_escape(s@.take(i as int)),
        decreases n - i,
    {
        let c = s.get_char(i);
        proof {
            assert(s@.take(i + 1).drop_last() =~= s@.take(i as int));
            assert(s@.take(i + 1).last() == s@[i as int]);
        }
        if c == '"' {
            string_push(out, '\\');
            string_push(out, '"');
        } else if c == '\\' {
            string_push(out, '\\');
            string_push(out, '\\');
        } else if (c as u32) < 0x20 {
            string_push(out, '\\');
            string_push(out, 'u');
            string_push(out, '0');
            string_push(out, '0');
            string_push(out, hex_digit((c as u32) / 16));
            string_push(out, hex_digit((c as u32) % 16));
        } else {
            string_push(out, c);
        }
        proof {
            assert(out@ =~= old(out)@ + spec_json_escape(s@.take(i + 1)));
        }
        i = i + 1;
    }
    proof {
        assert(s@.take(n as int) =~= s@);
    }
}

/// The JSON spelling of a primitive type.
pub open spec fn spec_type_json(ty: PrimitiveType) -> Seq<char> {
    match ty {
        PrimitiveType::Boolean => "boolean"@,
        PrimitiveType::Int => "int"@,
        PrimitiveType::Long => "long"@,
        PrimitiveType::Float => "float"@,
        PrimitiveType::Double => "double"@,
        PrimitiveType::Decimal { precision, scale } => "decimal("@ + spec_render_u64(
            precision as u64,
        ) + seq![','] + spec_render_u64(scale as u64) + seq![')'],
        PrimitiveType::Date => "date"@,
        PrimitiveType::Time => "time"@,
        PrimitiveType::Timestamp => "timestamp"@,
        PrimitiveType::Timestamptz => "timestamptz"@,
        PrimitiveType::TimestampNs => "timestamp_ns"@,
        PrimitiveType::TimestamptzNs => "timestamptz_ns"@,
        PrimitiveType::String => "string"@,
        PrimitiveType::Uuid => "uuid"@,
        PrimitiveType::Fixed(n) => "fixed["@ + spec_render_u64(n) + seq![']'],
        PrimitiveType::Binary => "binary"@,
    }
}

/// Render the JSON spelling of a primitive type.
pub fn type_json(ty: &PrimitiveType) -> (r: String)
    ensures
        r@ == spec_type_json(*ty),
{
    match ty {
        PrimitiveType::Boolean => "boolean".to_owned(),
        PrimitiveType::Int => "int".to_owned(),
        PrimitiveType::Long => "long".to_owned(),
        PrimitiveType::Float => "float".to_owned(),
        PrimitiveType::Double => "double".to_owned(),
        PrimitiveType::Decimal { precision, scale } => {
            let mut s = "decimal(".to_owned();
            let p = render_u64(*precision as u64);
            s.append(p.as_str());
            string_push(&mut s, ',');
            let sc = render_u64(*scale as u64);
            s.append(sc.as_str());
            string_push(&mut s, ')');
            proof {
                assert(s@ =~= spec_type_json(*ty));
            }
            s
        },
        PrimitiveType::Date => "date".to_owned(),
        PrimitiveType::Time => "time".to_owned(),
        PrimitiveType::Timestamp => "timestamp".to_owned(),
        PrimitiveType::Timestamptz => "timestamptz".to_owned(),
        PrimitiveType::TimestampNs => "timestamp_ns".to_owned(),
        PrimitiveType::TimestamptzNs => "timestamptz_ns".to_owned(),
        PrimitiveType::String => "string".to_owned(),
        PrimitiveType::Uuid => "uuid".to_owned(),
        PrimitiveType::Fixed(n) => {
            let mut s = "fixed[".to_owned();
            let d = render_u64(*n);
            s.append(d.as_str());
            string_push(&mut s, ']');
            proof {
                assert(s@ =~= spec_type_json(*ty));
            }
            s
        },
        PrimitiveType::Binary => "binary".to_owned(),
    }
}

/// The first position of a character in a sequence, or the length if absent.
pub open spec fn spec_find_char(s: Seq<char>, c: char) -> int
    decreases s.len(),
{
    if s.len() == 0 {
        0
    } else if s[0] == c {
        0
    } else {
        1 + spec_find_char(s.drop_first(), c)
    }
}

/// The primitive type a JSON type string spells, if any.
pub open spec fn spec_type_of_chars(s: Seq<char>) -> Option<PrimitiveType> {
    if s == "boolean"@ {
        Some(PrimitiveType::Boolean)
    } else if s == "int"@ {
        Some(PrimitiveType::Int)
    } else if s == "long"@ {
        Some(PrimitiveType::Long)
    } else if s == "float"@ {
        Some(PrimitiveType::Float)
    } else if s == "double"@ {
        Some(PrimitiveType::Double)
    } else if s == "date"@ {
        Some(PrimitiveType::Date)
    } else if s == "time"@ {
        Some(PrimitiveType::Time)
    } else if s == "timestamp"@ {
        Some(PrimitiveType::Timestamp)
    } else if s == "timestamptz"@ {
        Some(PrimitiveType::Timestamptz)
    } else if s == "timestamp_ns"@ {
        Some(PrimitiveType::TimestampNs)
    } else if s == "timestamptz_ns"@ {
        Some(PrimitiveType::TimestamptzNs)
    } else if s == "string"@ {
        Some(PrimitiveType::String)
    } else if s == "uuid"@ {
        Some(PrimitiveType::Uuid)
    } else if s == "binary"@ {
        Some(PrimitiveType::Binary)
    } else if crate::schema::spec_is_bracket_form(s, "fixed["@) {
        match spec_parse_u64(s.subrange("fixed["@.len() as int, s.len() - 1)) {
            Some(n) => Some(PrimitiveType::Fixed(n)),
            None => None,
        }
    } else if s.len() > "decimal("@.len() + 1 && s.take("decimal("@.len() as int) == "decimal("@
        && s.last() == ')' {
        let inner = s.subrange("decimal("@.len() as int, s.len() - 1);
        let comma = spec_find_char(inner, ',');
        if comma < inner.len() {
            let p = inner.take(comma);
            let rest = inner.skip(comma + 1);
            let q = if rest.len() > 0 && rest[0] == ' ' {
                rest.drop_first()
            } else {
                rest
            };
            match (spec_parse_u64(p), spec_parse_u64(q)) {
                (Some(pv), Some(qv)) => if pv <= 0xffff_ffff && qv <= 0xffff_ffff {
                    Some(PrimitiveType::Decimal { precision: pv as u32, scale: qv as u32 })
                } else {
                    None
                },
                _ => None,
            }
        } else {
            None
        }
    } else {
        None
    }
}

/// Find the first position of a character in a string.
fn find_char(s: &str, c: char) -> (r: usize)
    ensures
        r == spec_find_char(s@, c),
        r <= s@.len(),
{
    let n = s.unicode_len();
    let mut i: usize = 0;
    proof {
        assert(s@.skip(0) =~= s@);
    }
    while i < n
        invariant
            i <= n,
            n == s@.len(),
            spec_find_char(s@, c) == i + spec_find_char(s@.skip(i as int), c),
        decreases n - i,
    {
        proof {
            assert(s@.skip(i as int)[0] == s@[i as int]);
            assert(s@.skip(i as int).drop_first() =~= s@.skip(i + 1));
        }
        if s.get_char(i) == c {
            return i;
        }
        i = i + 1;
    }
    proof {
        assert(s@.skip(n as int).len() == 0);
    }
    n
}

/// Parse the JSON spelling of a primitive type.
pub fn type_of_str(s: &str) -> (r: Option<PrimitiveType>)
    ensures
        r == spec_type_of_chars(s@),
{
    if str_eq(s, "boolean") {
        Some(PrimitiveType::Boolean)
    } else if str_eq(s, "int") {
        Some(PrimitiveType::Int)
    } else if str_eq(s, "long") {
        Some(PrimitiveType::Long)
    } else if str_eq(s, "float") {
        Some(PrimitiveType::Float)
    } else if str_eq(s, "double") {
        Some(PrimitiveType::Double)
    } else if str_eq(s, "date") {
        Some(PrimitiveType::Date)
    } else if str_eq(s, "time") {
        Some(PrimitiveType::Time)
    } else if str_eq(s, "timestamp") {
        Some(PrimitiveType::Timestamp)
    } else if str_eq(s, "timestamptz") {
        Some(PrimitiveType::Timestamptz)
    } else if str_eq(s, "timestamp_ns") {
        Some(PrimitiveType::TimestampNs)
    } else if str_eq(s, "timestamptz_ns") {
        Some(PrimitiveType::TimestamptzNs)
    } else if str_eq(s, "string") {
        Some(PrimitiveType::String)
    } else if str_eq(s, "uuid") {
        Some(PrimitiveType::Uuid)
    } else if str_eq(s, "binary") {
        Some(PrimitiveType::Binary)
    } else if crate::schema::is_bracket_form(s, "fixed[") {
        let n = s.unicode_len();
        let fl = "fixed[".unicode_len();
        let inner = s.substring_char(fl, n - 1);
        proof {
            reveal_strlit("fixed[");
        }
        match parse_u64(inner) {
            Some(v) => Some(PrimitiveType::Fixed(v)),
            None => None,
        }
    } else {
        let dl = "decimal(".unicode_len();
        let n = s.unicode_len();
        proof {
            reveal_strlit("decimal(");
        }
        if n > dl + 1 && str_eq(s.substring_char(0, dl), "decimal(") && s.get_char(n - 1) == ')' {
            let inner = s.substring_char(dl, n - 1);
            proof {
                assert(inner@ =~= s@.subrange(dl as int, n - 1));
            }
            let comma = find_char(inner, ',');
            if comma < inner.unicode_len() {
                let p = inner.substring_char(0, comma);
                let rest = inner.substring_char(comma + 1, inner.unicode_len());
                let q = if rest.unicode_len() > 0 && rest.get_char(0) == ' ' {
                    rest.substring_char(1, rest.unicode_len())
                } else {
                    rest
                };
                proof {
                    assert(p@ =~= inner@.take(comma as int));
                    assert(rest@ =~= inner@.skip(comma + 1));
                    if rest@.len() > 0 && rest@[0] == ' ' {
                        assert(q@ =~= rest@.drop_first());
                    }
                }
                match (parse_u64(p), parse_u64(q)) {
                    (Some(pv), Some(qv)) => {
                        if pv <= 0xffff_ffff && qv <= 0xffff_ffff {
                            Some(PrimitiveType::Decimal { precision: pv as u32, scale: qv as u32 })
                        } else {
                            None
                        }
                    },
                    _ => None,
                }
            } else {
                None
            }
        } else {
            None
        }
    }
}

/// The JSON text of one schema field.
pub open spec fn spec_field_json(f: NestedField) -> Seq<char> {
    "{\"id\":"@ + spec_render_i32(f.id) + ",\"name\":\""@ + spec_json_escape(f.name@)
        + "\",\"required\":"@ + (if f.required {
        "true"@
    } else {
        "false"@
    }) + ",\"type\":"@ + (match f.field_type {
        FieldType::Primitive(ty) => seq!['"'] + spec_type_json(ty) + seq!['"'],
        FieldType::Other(raw) => raw@,
    }) + "}"@
}

/// The JSON texts of a list of schema fields, comma-joined.
pub open spec fn spec_fields_json(fields: Seq<NestedField>) -> Seq<char>
    decreases fields.len(),
{
    if fields.len() == 0 {
        Seq::empty()
    } else if fields.len() == 1 {
        spec_field_json(fields[0])
    } else {
        spec_fields_json(fields.drop_last()) + seq![','] + spec_field_json(fields.last())
    }
}

/// The JSON text of a table schema, as the `schema` user-metadata value
/// spells it.
pub open spec fn spec_schema_json(s: Schema) -> Seq<char> {
    "{\"type\":\"struct\",\"schema-id\":"@ + spec_render_i32(s.schema_id) + ",\"fields\":["@
        + spec_fields_json(s.fields@) + "]}"@
}

/// Render the JSON text of a table schema.
#[verifier::rlimit(100)]
#[verifier::spinoff_prover]
pub fn schema_json(s: &Schema) -> (r: String)
    ensures
        r@ == spec_schema_json(*s),
{
    let mut out: String = "{\"type\":\"struct\",\"schema-id\":".to_owned();
    let sid = render_i32(s.schema_id);
    out.append(sid.as_str());
    out.append(",\"fields\":[");
    let n = s.fields.len();
    let mut i: usize = 0;
    while i < n
        invariant
            i <= n,
            n == s.fields@.len(),
            out@ == "{\"type\":\"struct\",\"schema-id\":"@ + spec_render_i32(s.schema_id)
                + ",\"fields\":["@ + spec_fields_json(s.fields@.take(i as int)),
        decreases n - i,
    {
        let f = &s.fields[i];
        let mut item: String = "{\"id\":".to_owned();
        let fid = render_i32(f.id);
        item.append(fid.as_str());
        item.append(",\"name\":\"");
        append_json_escaped(&mut item, f.name.as_str());
        item.append("\",\"required\":");
        if f.required {
            item.append("true");
        } else {
            item.append("false");
        }
        item.append(",\"type\":");
        match &f.field_type {
            FieldType::Primitive(ty) => {
                item.append("\"");
                let t = type_json(ty);
                item.append(t.as_str());
                item.append("\"");
            },
            FieldType::Other(raw) => {
                item.append(raw.as_str());
            },
        }
        item.append("}");
        proof {
            reveal_strlit("\"");
            assert("\""@ =~= seq!['"']);
            assert(item@ =~= spec_field_json(s.fields@[i as int]));
        }
        if i > 0 {
            out.append(",");
        }
        out.append(item.as_str());
        proof {
            reveal_strlit(",");
            assert(","@ =~= seq![',']);
            assert(s.fields@.take(i + 1).drop_last() =~= s.fields@.take(i as int));
            assert(s.fields@.take(i + 1).last() == s.fields@[i as int]);
            assert(out@ =~= "{\"type\":\"struct\",\"schema-id\":"@ + spec_render_i32(s.schema_id)
                + ",\"fields\":["@ + spec_fields_json(s.fields@.take(i + 1)));
        }
        i = i + 1;
    }
    out.append("]}");
    proof {
        assert(s.fields@.take(n as int) =~= s.fields@);
        assert(out@ =~= spec_schema_json(*s));
    }
    out
}

/// The JSON text of one partition field.
pub open spec fn spec_partition_field_json(f: PartitionField) -> Seq<char> {
    "{\"source-id\":"@ + spec_render_i32(f.source_id) + ",\"field-id\":"@ + spec_render_i32(
        f.field_id,
    ) + ",\"name\":\""@ + spec_json_escape(f.name@) + "\",\"transform\":\""@ + spec_json_escape(
        f.transform@,
    ) + "\"}"@
}

/// The JSON texts of a list of partition fields, comma-joined.
pub open spec fn spec_partition_fields_json_items(fields: Seq<PartitionField>) -> Seq<char>
    decreases fields.len(),
{
    if fields.len() == 0 {
        Seq::empty()
    } else if fields.len() == 1 {
        spec_partition_field_json(fields[0])
    } else {
        spec_partition_fields_json_items(fields.drop_last()) + seq![','] + spec_partition_field_json(
            fields.last(),
        )
    }
}

/// The JSON text of the partition-field list, as the `partition-spec`
/// user-metadata value spells it.
pub open spec fn spec_partition_fields_json(fields: Seq<PartitionField>) -> Seq<char> {
    seq!['['] + spec_partition_fields_json_items(fields) + seq![']']
}

/// Render the JSON text of the partition-field list.
#[verifier::rlimit(100)]
pub fn partition_fields_json(fields: &Vec<PartitionField>) -> (r: String)
    ensures
        r@ == spec_partition_fields_json(fields@),
{
    let mut out: String = "[".to_owned();
    let n = fields.len();
    let mut i: usize = 0;
    proof {
        reveal_strlit("[");
        assert(out@ =~= seq!['[']);
        assert(spec_partition_fields_json_items(fields@.take(0)) =~= Seq::<char>::empty());
        assert(out@ =~= seq!['['] + spec_partition_fields_json_items(fields@.take(0)));
    }
    while i < n
        invariant
            i <= n,
            n == fields@.len(),
            out@ == seq!['['] + spec_partition_fields_json_items(fields@.take(i as int)),
        decreases n - i,
    {
        if i > 0 {
            out.append(",");
        }
        let f = &fields[i];
        out.append("{\"source-id\":");
        let sid = render_i32(f.source_id);
        out.append(sid.as_str());
        out.append(",\"field-id\":");
        let fid = render_i32(f.field_id);
        out.append(fid.as_str());
        out.append(",\"name\":\"");
        append_json_escaped(&mut out, f.name.as_str());
        out.append("\",\"transform\":\"");
        append_json_escaped(&mut out, f.transform.as_str());
        out.append("\"}");
        proof {
            reveal_strlit(",");
            assert(","@ =~= seq![',']);
            assert(fields@.take(i + 1).drop_last() =~= fields@.take(i as int));
            assert(fields@.take(i + 1).last() == fields@[i as int]);
            assert(out@ =~= seq!['['] + spec_partition_fields_json_items(fields@.take(i + 1)));
        }
        i = i + 1;
    }
    out.append("]");
    proof {
        reveal_strlit("]");
        assert("]"@ =~= seq![']']);
        assert(fields@.take(n as int) =~= fields@);
        assert(out@ =~= spec_partition_fields_json(fields@));
    }
    out
}

/// Interpret a parsed JSON tree as a table schema: a struct-typed object with
/// a field list; a field whose type is a string must name a primitive type,
/// any other type value is carried opaquely as its JSON text. The tree itself
/// is opaque to the verifier, so what this interpreter returns is checked by
/// the round-trip tests against [`schema_json`]; the type-string grammar it
/// applies is [`type_of_str`], which carries an exact contract.
pub fn schema_from_json(v: &serde_json::Value) -> Result<Schema, Error> {
    match js_get(v, "type") {
        Some(t) => {
            match js_str(&t) {
                Some(name) => {
                    if !str_eq(name.as_str(), "struct") {
                        return Err(
                            Error::data_invalid("a table schema must be a struct".to_owned()),
                        );
                    }
                },
                None => {
                    return Err(Error::data_invalid("a table schema must be a struct".to_owned()));
                },
            }
        },
        None => {
            return Err(Error::data_invalid("a table schema needs a type".to_owned()));
        },
    }
    let schema_id: i32 = match js_get(v, "schema-id") {
        Some(idv) => match js_i64(&idv) {
            Some(id) => {
                if id < -0x8000_0000 || id > 0x7fff_ffff {
                    return Err(
                        Error::data_invalid("the schema id does not fit an int".to_owned()),
                    );
                }
                id as i32
            },
            None => {
                return Err(Error::data_invalid("the schema id must be an integer".to_owned()));
            },
        },
        None => 0,
    };
    let fields_v = match js_get(v, "fields") {
        Some(fv) => fv,
        None => {
            return Err(Error::data_invalid("a table schema needs fields".to_owned()));
        },
    };
    let items = match js_array(&fields_v) {
        Some(a) => a,
        None => {
            return Err(Error::data_invalid("the schema fields must be a list".to_owned()));
        },
    };
    let mut fields: Vec<NestedField> = Vec::new();
    let n = items.len();
    let mut i: usize = 0;
    while i < n
        invariant
            i <= n,
            n == items@.len(),
        decreases n - i,
    {
        let item = &items[i];
        let id: i32 = match js_get(item, "id") {
            Some(idv) => match js_i64(&idv) {
                Some(id) => {
                    if id < -0x8000_0000 || id > 0x7fff_ffff {
                        return Err(
                            Error::data_invalid("a field id does not fit an int".to_owned()),
                        );
                    }
                    id as i32
                },
                None => {
                    return Err(Error::data_invalid("a field id must be an integer".to_owned()));
                },
            },
            None => {
                return Err(Error::data_invalid("a schema field needs an id".to_owned()));
            },
        };
        let name = match js_get(item, "name") {
            Some(nv) => match js_str(&nv) {
                Some(s) => s,
                None => {
                    return Err(Error::data_invalid("a field name must be a string".to_owned()));
                },
            },
            None => {
                return Err(Error::data_invalid("a schema field needs a name".to_owned()));
            },
        };
        let required = match js_get(item, "required") {
            Some(rv) => match js_bool(&rv) {
                Some(b) => b,
                None => {
                    return Err(
                        Error::data_invalid("a field requiredness must be a boolean".to_owned()),
                    );
                },
            },
            None => {
                return Err(Error::data_invalid("a schema field needs requiredness".to_owned()));
            },
        };
        let tv = match js_get(item, "type") {
            Some(tv) => tv,
            None => {
                return Err(Error::data_invalid("a schema field needs a type".to_owned()));
            },
        };
        let field_type = match js_str(&tv) {
            Some(ts) => match type_of_str(ts.as_str()) {
                Some(ty) => FieldType::Primitive(ty),
                None => {
                    return Err(Error::data_invalid("unsupported primitive type".to_owned()));
                },
            },
            None => FieldType::Other(js_to_string(&tv)),
        };
        fields.push(NestedField { id, name, required, field_type });
        i = i + 1;
    }
    Ok(Schema { schema_id, fields })
}

/// Interpret a parsed JSON tree as a partition-field list. The tree is opaque
/// to the verifier, so what this interpreter returns is checked by the
/// round-trip tests against [`partition_fields_json`].
pub fn partition_fields_from_json(v: &serde_json::Value) -> Result<Vec<PartitionField>, Error> {
    let items = match js_array(v) {
        Some(a) => a,
        None => {
            return Err(Error::data_invalid("the partition spec must be a list".to_owned()));
        },
    };
    let mut fields: Vec<PartitionField> = Vec::new();
    let n = items.len();
    let mut i: usize = 0;
    while i < n
        invariant
            i <= n,
            n == items@.len(),
        decreases n - i,
    {
        let item = &items[i];
        let source_id: i32 = match js_get(item, "source-id") {
            Some(idv) => match js_i64(&idv) {
                Some(id) => {
                    if id < -0x8000_0000 || id > 0x7fff_ffff {
                        return Err(
                            Error::data_invalid("a source id does not fit an int".to_owned()),
                        );
                    }
                    id as i32
                },
                None => {
                    return Err(Error::data_invalid("a source id must be an integer".to_owned()));
                },
            },
            None => {
                return Err(Error::data_invalid("a partition field needs a source id".to_owned()));
            },
        };
        let field_id: i32 = match js_get(item, "field-id") {
            Some(idv) => match js_i64(&idv) {
                Some(id) => {
                    if id < -0x8000_0000 || id > 0x7fff_ffff {
                        return Err(
                            Error::data_invalid("a field id does not fit an int".to_owned()),
                        );
                    }
                    id as i32
                },
                None => {
                    return Err(Error::data_invalid("a field id must be an integer".to_owned()));
                },
            },
            None => {
                return Err(Error::data_invalid("a partition field needs a field id".to_owned()));
            },
        };
        let name = match js_get(item, "name") {
            Some(nv) => match js_str(&nv) {
                Some(s) => s,
                None => {
                    return Err(Error::data_invalid("a field name must be a string".to_owned()));
                },
            },
            None => {
                return Err(Error::data_invalid("a partition field needs a name".to_owned()));
            },
        };
        let transform = match js_get(item, "transform") {
            Some(tv) => match js_str(&tv) {
                Some(s) => s,
                None => {
                    return Err(
                        Error::data_invalid("a transform must be a string".to_owned()),
                    );
                },
            },
            None => {
                return Err(Error::data_invalid("a partition field needs a transform".to_owned()));
            },
        };
        fields.push(PartitionField { source_id, field_id, name, transform });
        i = i + 1;
    }
    Ok(fields)
}

/// The rendering of a value is nonempty, spells the value in digits, never
/// starts with a zero unless the value is zero, and has at most as many
/// digits as the value has decimal places.
pub proof fn lemma_render_u64_digits(v: u64)
    ensures
        spec_render_u64(v).len() >= 1,
        crate::strutil::spec_all_digits(spec_render_u64(v)),
        crate::strutil::spec_digits_value(spec_render_u64(v)) == v,
        v > 0 ==> spec_render_u64(v)[0] != '0',
        v < 10_000_000_000_000_000_000 ==> spec_render_u64(v).len() <= 19,
    decreases v,
{
    let s = spec_render_u64(v);
    let digit = (('0' as u32) + ((v % 10) as u32)) as char;
    assert(digit as u32 == ('0' as u32) + ((v % 10) as u32));
    assert(crate::strutil::spec_is_digit(digit));
    if v < 10 {
        assert(s =~= seq![digit]);
        assert(s.drop_last() =~= Seq::<char>::empty());
        assert(crate::strutil::spec_digits_value(Seq::<char>::empty()) == 0);
        assert(crate::strutil::spec_digits_value(s) == digit as int - '0' as int);
    } else {
        lemma_render_u64_digits(v / 10);
        let rest = spec_render_u64(v / 10);
        assert(s =~= rest + seq![digit]);
        assert(s.drop_last() =~= rest);
        assert(s.last() == digit);
        assert(crate::strutil::spec_all_digits(s)) by {
            assert forall|i: int| 0 <= i < s.len() implies crate::strutil::spec_is_digit(
                #[trigger] s[i],
            ) by {
                if i < rest.len() {
                    assert(s[i] == rest[i]);
                }
            }
        }
        assert(crate::strutil::spec_digits_value(s) == crate::strutil::spec_digits_value(rest)
            * 10 + (digit as int - '0' as int));
        assert(s[0] == rest[0]);
        if v < 10_000_000_000_000_000_000 {
            crate::binary::lemma_pow10_values();
            assert(v / 10 < crate::binary::pow10(18));
            lemma_render_len(v / 10, 18);
        }
    }
}

/// Values below 10^n render in at most n digits.
proof fn lemma_render_len(v: u64, n: nat)
    requires
        1 <= n <= 19,
        v < crate::binary::pow10(n),
    ensures
        spec_render_u64(v).len() <= n,
    decreases v,
{
    if v < 10 {
    } else {
        assert(crate::binary::pow10(n) == 10 * crate::binary::pow10((n - 1) as nat));
        assert(v / 10 < crate::binary::pow10((n - 1) as nat));
        assert(n - 1 >= 1) by {
            crate::binary::lemma_pow10_le(1nat, 1nat);
            if n == 1 {
                assert(crate::binary::pow10(1) == 10);
            }
        }
        lemma_render_len(v / 10, (n - 1) as nat);
    }
}

/// Reading a rendered value back gives the value: the digits spell it, there
/// are no leading zeros to strip, and at most nineteen digits appear for any
/// value below 10^19.
pub proof fn lemma_parse_render_u64(v: u64)
    requires
        v < 10_000_000_000_000_000_000,
    ensures
        crate::strutil::spec_parse_u64(spec_render_u64(v)) == Some(v),
{
    lemma_render_u64_digits(v);
    let s = spec_render_u64(v);
    if v == 0 {
        assert(s.len() == 1);
        assert(s[0] == (('0' as u32) + ((v % 10) as u32)) as char);
        assert(s[0] == '0') by {
            assert(('0' as u32) + ((v % 10) as u32) == '0' as u32);
            vstd::utf8::char_u32_cast('0', '0' as u32);
        }
        assert(spec_strip_zeros(Seq::<char>::empty()) =~= Seq::<char>::empty());
        assert(s.drop_first() =~= Seq::<char>::empty());
        assert(spec_strip_zeros(s) =~= Seq::<char>::empty());
    } else {
        assert(spec_strip_zeros(s) == s);
    }
}

/// Reading a rendered signed id back gives the id; this is what carries the
/// schema and partition-spec ids through the user metadata.
pub proof fn lemma_parse_render_i32(v: i32)
    ensures
        crate::strutil::spec_parse_i32(spec_render_i32(v)) == Some(v),
{
    let s = spec_render_i32(v);
    if v < 0 {
        let m = (-(v as i64)) as u64;
        lemma_parse_render_u64(m);
        assert(s[0] == '-');
        assert(s.drop_first() =~= spec_render_u64(m));
        assert(m <= 0x8000_0000);
    } else {
        lemma_parse_render_u64(v as u64);
        lemma_render_u64_digits(v as u64);
        assert(s[0] != '-' && s[0] != '+') by {
            assert(crate::strutil::spec_is_digit(s[0]));
        }
    }
}

/// The first occurrence of a character is where it first stands.
proof fn lemma_find_char_at(s: Seq<char>, c: char, k: int)
    requires
        0 <= k < s.len(),
        forall|i: int| 0 <= i < k ==> s[i] != c,
        s[k] == c,
    ensures
        spec_find_char(s, c) == k,
    decreases k,
{
    if k == 0 {
    } else {
        assert(s[0] != c);
        assert forall|i: int| 0 <= i < k - 1 implies s.drop_first()[i] != c by {
            assert(s.drop_first()[i] == s[i + 1]);
        }
        assert(s.drop_first()[k - 1] == s[k]);
        lemma_find_char_at(s.drop_first(), c, k - 1);
    }
}

/// Rendering a fixed-length type and reading the spelling back gives it.
proof fn lemma_fixed_json_roundtrip(n: u64)
    requires
        n < 10_000_000_000_000_000_000,
    ensures
        spec_type_of_chars(spec_type_json(PrimitiveType::Fixed(n))) == Some(
            PrimitiveType::Fixed(n),
        ),
{
    reveal_strlit("boolean");
    reveal_strlit("int");
    reveal_strlit("long");
    reveal_strlit("float");
    reveal_strlit("double");
    reveal_strlit("date");
    reveal_strlit("time");
    reveal_strlit("timestamp");
    reveal_strlit("timestamptz");
    reveal_strlit("timestamp_ns");
    reveal_strlit("timestamptz_ns");
    reveal_strlit("string");
    reveal_strlit("uuid");
    reveal_strlit("binary");
    reveal_strlit("fixed[");
    let s = spec_type_json(PrimitiveType::Fixed(n));
    lemma_render_u64_digits(n);
    let d = spec_render_u64(n);
    assert(s =~= "fixed["@ + d + seq![']']);
    assert(s[0] == 'f');
    assert(s.take("fixed["@.len() as int) =~= "fixed["@);
    assert(s.last() == ']');
    let mid = s.subrange("fixed["@.len() as int, s.len() - 1);
    assert(mid =~= d);
    assert(crate::schema::spec_is_bracket_form(s, "fixed["@));
    lemma_parse_render_u64(n);
}

/// Rendering a decimal type and reading the spelling back gives it.
#[verifier::rlimit(100)]
#[verifier::spinoff_prover]
proof fn lemma_decimal_json_roundtrip(precision: u32, scale: u32)
    ensures
        spec_type_of_chars(
            spec_type_json(PrimitiveType::Decimal { precision, scale }),
        ) == Some(PrimitiveType::Decimal { precision, scale }),
{
    reveal_strlit("boolean");
    reveal_strlit("int");
    reveal_strlit("long");
    reveal_strlit("float");
    reveal_strlit("double");
    reveal_strlit("date");
    reveal_strlit("time");
    reveal_strlit("timestamp");
    reveal_strlit("timestamptz");
    reveal_strlit("timestamp_ns");
    reveal_strlit("timestamptz_ns");
    reveal_strlit("string");
    reveal_strlit("uuid");
    reveal_strlit("binary");
    reveal_strlit("fixed[");
    reveal_strlit("decimal(");
    let s = spec_type_json(PrimitiveType::Decimal { precision, scale });
    lemma_render_u64_digits(precision as u64);
    lemma_render_u64_digits(scale as u64);
    let p = spec_render_u64(precision as u64);
    let q = spec_render_u64(scale as u64);
    assert(s =~= "decimal("@ + p + seq![','] + q + seq![')']);
    assert(s[0] == 'd');
    assert(s.len() > "decimal("@.len() + 1);
    assert(!crate::schema::spec_is_bracket_form(s, "fixed["@)) by {
        if s.take("fixed["@.len() as int) == "fixed["@ {
            assert(s.take("fixed["@.len() as int)[0] == s[0]);
        }
    }
    assert(s.take("decimal("@.len() as int) =~= "decimal("@);
    assert(s.last() == ')');
    let inner = s.subrange("decimal("@.len() as int, s.len() - 1);
    assert(inner =~= p + seq![','] + q);
    assert forall|i: int| 0 <= i < p.len() implies inner[i] != ',' by {
        assert(inner[i] == p[i]);
        assert(crate::strutil::spec_is_digit(p[i]));
        assert((p[i] as u32) >= ('0' as u32));
    }
    assert(inner[p.len() as int] == ',');
    lemma_find_char_at(inner, ',', p.len() as int);
    assert(inner.take(p.len() as int) =~= p);
    assert(inner.skip(p.len() as int + 1) =~= q);
    assert(q[0] != ' ') by {
        assert(crate::strutil::spec_is_digit(q[0]));
        assert((q[0] as u32) >= ('0' as u32));
    }
    lemma_parse_render_u64(precision as u64);
    lemma_parse_render_u64(scale as u64);
}

/// Rendering a primitive type and reading the spelling back gives the type;
/// for a fixed type the declared length must have at most nineteen digits.
pub proof fn lemma_type_json_roundtrip(ty: PrimitiveType)
    requires
        ty matches PrimitiveType::Fixed(n) ==> n < 10_000_000_000_000_000_000,
    ensures
        spec_type_of_chars(spec_type_json(ty)) == Some(ty),
{
    reveal_strlit("boolean");
    reveal_strlit("int");
    reveal_strlit("long");
    reveal_strlit("float");
    reveal_strlit("double");
    reveal_strlit("date");
    reveal_strlit("time");
    reveal_strlit("timestamp");
    reveal_strlit("timestamptz");
    reveal_strlit("timestamp_ns");
    reveal_strlit("timestamptz_ns");
    reveal_strlit("string");
    reveal_strlit("uuid");
    reveal_strlit("binary");
    match ty {
        PrimitiveType::Fixed(n) => {
            lemma_fixed_json_roundtrip(n);
            assert(spec_type_of_chars(spec_type_json(ty)) == Some(ty));
        },
        PrimitiveType::Decimal { precision, scale } => {
            lemma_decimal_json_roundtrip(precision, scale);
            assert(spec_type_of_chars(spec_type_json(ty)) == Some(ty));
        },
        PrimitiveType::Boolean => {
            assert(spec_type_of_chars(spec_type_json(ty)) == Some(ty));
        },
        PrimitiveType::Int => {
            assert(spec_type_of_chars(spec_type_json(ty)) == Some(ty));
        },
        PrimitiveType::Long => {
            assert(spec_type_of_chars(spec_type_json(ty)) == Some(ty));
        },
        PrimitiveType::Float => {
            assert(spec_type_of_chars(spec_type_json(ty)) == Some(ty));
        },
        PrimitiveType::Double => {
            assert(spec_type_of_chars(spec_type_json(ty)) == Some(ty));
        },
        PrimitiveType::Date => {
            assert("date"@ != "long"@) by {
                assert("date"@[0] == 'd');
                assert("long"@[0] == 'l');
            }
            assert(spec_type_of_chars(spec_type_json(ty)) == Some(ty));
        },
        PrimitiveType::Time => {
            assert("time"@ != "long"@) by {
                assert("time"@[0] == 't');
                assert("long"@[0] == 'l');
            }
            assert("time"@ != "date"@) by {
                assert("time"@[0] == 't');
                assert("date"@[0] == 'd');
            }
            assert(spec_type_of_chars(spec_type_json(ty)) == Some(ty));
        },
        PrimitiveType::Timestamp => {
            assert(spec_type_of_chars(spec_type_json(ty)) == Some(ty));
        },
        PrimitiveType::Timestamptz => {
            assert(spec_type_of_chars(spec_type_json(ty)) == Some(ty));
        },
        PrimitiveType::TimestampNs => {
            assert(spec_type_of_chars(spec_type_json(ty)) == Some(ty));
        },
        PrimitiveType::TimestamptzNs => {
            assert(spec_type_of_chars(spec_type_json(ty)) == Some(ty));
        },
        PrimitiveType::String => {
            assert("string"@ != "double"@) by {
                assert("string"@[0] == 's');
                assert("double"@[0] == 'd');
            }
            assert(spec_type_of_chars(spec_type_json(ty)) == Some(ty));
        },
        PrimitiveType::Uuid => {
            assert("uuid"@ != "long"@) by {
                assert("uuid"@[0] == 'u');
                assert("long"@[0] == 'l');
            }
            assert("uuid"@ != "date"@) by {
                assert("uuid"@[0] == 'u');
                assert("date"@[0] == 'd');
            }
            assert("uuid"@ != "time"@) by {
                assert("uuid"@[0] == 'u');
                assert("time"@[0] == 't');
            }
            assert(spec_type_of_chars(spec_type_json(ty)) == Some(ty));
        },
        PrimitiveType::Binary => {
            assert("binary"@ != "double"@) by {
                assert("binary"@[0] == 'b');
                assert("double"@[0] == 'd');
            }
            assert("binary"@ != "string"@) by {
                assert("binary"@[0] == 'b');
                assert("string"@[0] == 's');
            }
            assert(spec_type_of_chars(spec_type_json(ty)) == Some(ty));
        },
    }
}

} // verus!
