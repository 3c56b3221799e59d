//! The container boundary: manifest records are built as and read from
//! apache_avro values through small trusted constructors and accessors, and
//! the object-container file itself is written and opened by apache_avro. The
//! record schemas handed to the container are rendered here as Avro schema
//! JSON, with the stable field ids the format requires.
use vstd::prelude::*;

use crate::error::Error;
use crate::json::{append_json_escaped, render_i32, spec_json_escape, spec_render_i32};
use crate::schema::{StructField, StructType};
use crate::values::{PrimitiveLiteral, PrimitiveType};
use crate::wire::{WireDataFile, WireEntryV1, WireEntryV2};
use apache_avro::types::Value as AvroValue;
use vstd::string::StrSliceExecFns;
use vstd::string::StringExecFns;

verus! {

#[verifier::external_type_specification]
#[verifier::external_body]
/// The record value type of apache_avro, carried opaquely.
pub struct ExAvroValue(AvroValue);

/// Relies on apache_avro::types::Value::Boolean.
#[verifier::external_body]
fn av_boolean(v: bool) -> AvroValue {
    AvroValue::Boolean(v)
}

/// Relies on apache_avro::types::Value::Int.
#[verifier::external_body]
fn av_int(v: i32) -> AvroValue {
    AvroValue::Int(v)
}

/// Relies on apache_avro::types::Value::Long.
#[verifier::external_body]
fn av_long(v: i64) -> AvroValue {
    AvroValue::Long(v)
}

/// Relies on apache_avro::types::Value::Float and bytemuck::cast, which
/// reinterprets the 32-bit pattern as the float it spells.
#[verifier::external_body]
fn av_float_bits(bits: u32) -> AvroValue {
    AvroValue::Float(bytemuck::cast(bits))
}

/// Relies on apache_avro::types::Value::Double and bytemuck::cast, which
/// reinterprets the 64-bit pattern as the double it spells.
#[verifier::external_body]
fn av_double_bits(bits: u64) -> AvroValue {
    AvroValue::Double(bytemuck::cast(bits))
}

/// Relies on apache_avro::types::Value::String.
#[verifier::external_body]
fn av_string(v: String) -> AvroValue {
    AvroValue::String(v)
}

/// Relies on apache_avro::types::Value::Bytes.
#[verifier::external_body]
fn av_bytes(v: Vec<u8>) -> AvroValue {
    AvroValue::Bytes(v)
}

/// Relies on apache_avro::types::Value::Record.
#[verifier::external_body]
fn av_record(fields: Vec<(String, AvroValue)>) -> AvroValue {
    AvroValue::Record(fields)
}

/// Relies on apache_avro::types::Value::Array.
#[verifier::external_body]
fn av_array(items: Vec<AvroValue>) -> AvroValue {
    AvroValue::Array(items)
}

/// Relies on apache_avro::types::Value::Union: the null branch of a
/// null-first union.
#[verifier::external_body]
fn av_union_null() -> AvroValue {
    AvroValue::Union(0, Box::new(AvroValue::Null))
}

/// Relies on apache_avro::types::Value::Union: the value branch of a
/// null-first union.
#[verifier::external_body]
fn av_union_some(v: AvroValue) -> AvroValue {
    AvroValue::Union(1, Box::new(v))
}

/// Relies on apache_avro::types::Value::Record: the field values of a record,
/// in schema order.
#[verifier::external_body]
fn avr_record_fields(v: &AvroValue) -> (r: Option<Vec<AvroValue>>) {
    match v {
        AvroValue::Record(fields) => Some(fields.iter().map(|(_, fv)| fv.clone()).collect()),
        _ => None,
    }
}

/// Relies on apache_avro::types::Value::Union: the value inside a union.
#[verifier::external_body]
fn avr_union(v: &AvroValue) -> (r: Option<AvroValue>) {
    match v {
        AvroValue::Union(_, inner) => Some((**inner).clone()),
        _ => None,
    }
}

/// Relies on apache_avro::types::Value::Null.
#[verifier::external_body]
fn avr_is_null(v: &AvroValue) -> (r: bool) {
    matches!(v, AvroValue::Null)
}

/// Relies on apache_avro::types::Value: the 32-bit integer carried by an int
/// or date value.
#[verifier::external_body]
fn avr_i32(v: &AvroValue) -> (r: Option<i32>) {
    match v {
        AvroValue::Int(x) => Some(*x),
        AvroValue::Date(x) => Some(*x),
        AvroValue::TimeMillis(x) => Some(*x),
        _ => None,
    }
}

/// Relies on apache_avro::types::Value: the 64-bit integer carried by a long,
/// time or timestamp value.
#[verifier::external_body]
fn avr_i64(v: &AvroValue) -> (r: Option<i64>) {
    match v {
        AvroValue::Long(x) => Some(*x),
        AvroValue::TimeMicros(x) => Some(*x),
        AvroValue::TimestampMillis(x) => Some(*x),
        AvroValue::TimestampMicros(x) => Some(*x),
        AvroValue::TimestampNanos(x) => Some(*x),
        AvroValue::LocalTimestampMillis(x) => Some(*x),
        AvroValue::LocalTimestampMicros(x) => Some(*x),
        AvroValue::LocalTimestampNanos(x) => Some(*x),
        _ => None,
    }
}

/// Relies on apache_avro::types::Value::Boolean.
#[verifier::external_body]
fn avr_boolean(v: &AvroValue) -> (r: Option<bool>) {
    match v {
        AvroValue::Boolean(b) => Some(*b),
        _ => None,
    }
}

/// Relies on apache_avro::types::Value::Float and f32::to_bits.
#[verifier::external_body]
fn avr_f32_bits(v: &AvroValue) -> (r: Option<u32>) {
    match v {
        AvroValue::Float(x) => Some(x.to_bits()),
        _ => None,
    }
}

/// Relies on apache_avro::types::Value::Double and f64::to_bits.
#[verifier::external_body]
fn avr_f64_bits(v: &AvroValue) -> (r: Option<u64>) {
    match v {
        AvroValue::Double(x) => Some(x.to_bits()),
        _ => None,
    }
}

/// Relies on apache_avro::types::Value::String.
#[verifier::external_body]
fn avr_string(v: &AvroValue) -> (r: Option<String>) {
    match v {
        AvroValue::String(s) => Some(s.clone()),
        _ => None,
    }
}

/// Relies on apache_avro::types::Value: the bytes of a bytes or fixed value.
#[verifier::external_body]
fn avr_bytes(v: &AvroValue) -> (r: Option<Vec<u8>>) {
    match v {
        AvroValue::Bytes(b) => Some(b.clone()),
        AvroValue::Fixed(_, b) => Some(b.clone()),
        _ => None,
    }
}

/// Relies on apache_avro::types::Value::Array.
#[verifier::external_body]
fn avr_array(v: &AvroValue) -> (r: Option<Vec<AvroValue>>) {
    match v {
        AvroValue::Array(items) => Some(items.clone()),
        _ => None,
    }
}

/// Relies on apache_avro::Schema::parse_str and apache_avro::Writer: parse the
/// record schema, open an object-container writer, add each user-metadata
/// pair, validate and append every record, and hand the container bytes back.
/// The writer stores the pairs in the header's metadata map, refusing keys in
/// the reserved avro namespace, and the reader returns that map with the
/// reserved keys removed, so a produced container carries exactly the given
/// pairs and no others; the keys must be distinct, as a repeated key would
/// overwrite its earlier pair in the map.
#[verifier::external_body]
pub(crate) fn ocf_write(
    schema_json: &str,
    meta: Vec<(String, Vec<u8>)>,
    records: Vec<AvroValue>,
) -> (r: Result<Vec<u8>, String>)
    requires
        forall|i: int, j: int|
            0 <= i < j < meta@.len() ==> (#[trigger] meta@[i]).0@ != (#[trigger] meta@[j]).0@,
    ensures
        r matches Ok(bytes) ==> ocf_meta_of(bytes@) is Some && forall|i: int|
            0 <= i < meta@.len() ==> ocf_meta_of(bytes@).unwrap().contains_key(
                (#[trigger] meta@[i]).0@,
            ) && ocf_meta_of(bytes@).unwrap()[meta@[i].0@] == meta@[i].1@,
        r matches Ok(bytes) ==> forall|k: Seq<char>|
            #[trigger] ocf_meta_of(bytes@).unwrap().contains_key(k) ==> exists|i: int|
                0 <= i < meta@.len() && (#[trigger] meta@[i]).0@ == k,
{
    let schema = apache_avro::Schema::parse_str(schema_json).map_err(|e| e.to_string())?;
    let mut w = apache_avro::Writer::new(&schema, Vec::new()).map_err(|e| e.to_string())?;
    for (k, v) in meta {
        w.add_user_metadata(k, v).map_err(|e| e.to_string())?;
    }
    w.extend_from_slice(&records).map_err(|e| e.to_string())?;
    w.into_inner().map_err(|e| e.to_string())
}

/// The views of user-metadata pairs.
pub open spec fn spec_meta_view(s: Seq<(String, Vec<u8>)>) -> Seq<(Seq<char>, Seq<u8>)> {
    s.map(|i: int, p: (String, Vec<u8>)| (p.0@, p.1@))
}

/// The value of the first user-metadata pair under a key, if any.
pub open spec fn spec_meta_get(s: Seq<(Seq<char>, Seq<u8>)>, key: Seq<char>) -> Option<Seq<u8>>
    decreases s.len(),
{
    if s.len() == 0 {
        None
    } else if s[0].0 == key {
        Some(s[0].1)
    } else {
        spec_meta_get(s.drop_first(), key)
    }
}

/// The user-metadata map a container spells, or nothing when the container
/// cannot be opened. The map is determined by the bytes; only the order in
/// which an opened container hands its pairs out is not.
pub uninterp spec fn ocf_meta_of(bytes: Seq<u8>) -> Option<Map<Seq<char>, Seq<u8>>>;

/// Relies on apache_avro::Reader: open the container and hand its user
/// metadata out as key/value pairs. The reader keeps the metadata as a map
/// with unique keys, so looking a key up among the pairs agrees with the map,
/// whatever order the pairs come out in.
#[verifier::external_body]
pub(crate) fn ocf_user_metadata(bytes: &Vec<u8>) -> (r: Result<Vec<(String, Vec<u8>)>, String>)
    ensures
        r is Ok <==> ocf_meta_of(bytes@) is Some,
        r matches Ok(v) ==> forall|k: Seq<char>|
            #[trigger] spec_meta_get(spec_meta_view(v@), k) == (if ocf_meta_of(
                bytes@,
            ).unwrap().contains_key(k) {
                Some(ocf_meta_of(bytes@).unwrap()[k])
            } else {
                None
            }),
{
    let reader = apache_avro::Reader::new(&bytes[..]).map_err(|e| e.to_string())?;
    Ok(reader.user_metadata().iter().map(|(k, v)| (k.clone(), v.clone())).collect())
}

/// Relies on apache_avro::Schema::parse_str and apache_avro::Reader: open the
/// container, resolve its records against the given reader schema, and hand
/// them out in file order.
#[verifier::external_body]
pub(crate) fn ocf_records(schema_json: &str, bytes: &Vec<u8>) -> (r: Result<Vec<AvroValue>, String>) {
    let schema = apache_avro::Schema::parse_str(schema_json).map_err(|e| e.to_string())?;
    let reader = apache_avro::Reader::builder(&bytes[..]).reader_schema(&schema).build().map_err(
        |e| e.to_string(),
    )?;
    reader.into_iter().map(|v| v.map_err(|e| e.to_string())).collect()
}

/// Whether a primitive type can stand as a partition column in the container
/// record schema this codec renders. Decimal, UUID and fixed partition
/// columns are not written by this codec; bounds of those types are.
pub open spec fn spec_avro_type_supported(ty: PrimitiveType) -> bool {
    match ty {
        PrimitiveType::Decimal { .. } | PrimitiveType::Uuid | PrimitiveType::Fixed(_) => false,
        _ => true,
    }
}

/// The Avro schema JSON of a supported partition-column type.
pub open spec fn spec_avro_type_json(ty: PrimitiveType) -> Seq<char> {
    match ty {
        PrimitiveType::Boolean => "\"boolean\""@,
        PrimitiveType::Int => "\"int\""@,
        PrimitiveType::Long => "\"long\""@,
        PrimitiveType::Float => "\"float\""@,
        PrimitiveType::Double => "\"double\""@,
        PrimitiveType::Date => "{\"type\":\"int\",\"logicalType\":\"date\"}"@,
        PrimitiveType::Time => "{\"type\":\"long\",\"logicalType\":\"time-micros\"}"@,
        PrimitiveType::Timestamp => "{\"type\":\"long\",\"logicalType\":\"timestamp-micros\",\"adjust-to-utc\":false}"@,
        PrimitiveType::Timestamptz => "{\"type\":\"long\",\"logicalType\":\"timestamp-micros\",\"adjust-to-utc\":true}"@,
        PrimitiveType::TimestampNs => "{\"type\":\"long\",\"logicalType\":\"timestamp-nanos\",\"adjust-to-utc\":false}"@,
        PrimitiveType::TimestamptzNs => "{\"type\":\"long\",\"logicalType\":\"timestamp-nanos\",\"adjust-to-utc\":true}"@,
        PrimitiveType::String => "\"string\""@,
        PrimitiveType::Binary => "\"bytes\""@,
        PrimitiveType::Decimal { .. } | PrimitiveType::Uuid | PrimitiveType::Fixed(_) => Seq::empty(),
    }
}

/// The Avro schema JSON of one partition field: optional, named, carrying its
/// partition field id.
pub open spec fn spec_partition_field_avro_json(f: StructField) -> Seq<char> {
    "{\"name\":\""@ + spec_json_escape(f.name@) + "\",\"type\":[\"null\","@ + spec_avro_type_json(
        f.ty,
    ) + "],\"default\":null,\"field-id\":"@ + spec_render_i32(f.field_id) + "}"@
}

/// The Avro schema JSONs of a list of partition fields, comma-joined.
pub open spec fn spec_partition_fields_avro_items(fields: Seq<StructField>) -> Seq<char>
    decreases fields.len(),
{
    if fields.len() == 0 {
        Seq::empty()
    } else if fields.len() == 1 {
        spec_partition_field_avro_json(fields[0])
    } else {
        spec_partition_fields_avro_items(fields.drop_last()) + seq![',']
            + spec_partition_field_avro_json(fields.last())
    }
}

/// The Avro schema JSON of the partition struct: a record named after the
/// `partition` field id, one optional field per partition column.
pub open spec fn spec_partition_avro_json(fields: Seq<StructField>) -> Seq<char> {
    "{\"type\":\"record\",\"name\":\"r102\",\"fields\":["@ + spec_partition_fields_avro_items(fields) + "]}"@
}

/// The Avro schema JSON of the data-file field list: in version 2 the content
/// field (id 134) leads and the equality-id field (id 135) stands before the
/// sort order; version 1 instead carries the deprecated required block-size
/// field (id 105) directly after the file size (id 104). Partition field 102
/// is typed by the resolved partition struct; the map fields keep their fixed
/// key and value ids.
pub open spec fn spec_data_file_fields_json(fields: Seq<StructField>, v1: bool) -> Seq<char> {
    (if v1 {
        Seq::empty()
    } else {
        "{\"name\":\"content\",\"type\":\"int\",\"field-id\":134},"@
    }) + "{\"name\":\"file_path\",\"type\":\"string\",\"field-id\":100},{\"name\":\"file_format\",\"type\":\"string\",\"field-id\":101},{\"name\":\"partition\",\"type\":"@ + spec_partition_avro_json(fields) + ",\"field-id\":102},{\"name\":\"record_count\",\"type\":\"long\",\"field-id\":103},{\"name\":\"file_size_in_bytes\",\"type\":\"long\",\"field-id\":104},"@ + (if v1 {
        "{\"name\":\"block_size_in_bytes\",\"type\":\"long\",\"field-id\":105},"@
    } else {
        Seq::empty()
    }) + "{\"name\":\"column_sizes\",\"type\":[\"null\",{\"type\":\"array\",\"items\":{\"type\":\"record\",\"name\":\"k117_v118\",\"fields\":[{\"name\":\"key\",\"type\":\"int\",\"field-id\":117},{\"name\":\"value\",\"type\":\"long\",\"field-id\":118}]},\"logicalType\":\"map\"}],\"default\":null,\"field-id\":108},{\"name\":\"value_counts\",\"type\":[\"null\",{\"type\":\"array\",\"items\":{\"type\":\"record\",\"name\":\"k119_v120\",\"fields\":[{\"name\":\"key\",\"type\":\"int\",\"field-id\":119},{\"name\":\"value\",\"type\":\"long\",\"field-id\":120}]},\"logicalType\":\"map\"}],\"default\":null,\"field-id\":109},{\"name\":\"null_value_counts\",\"type\":[\"null\",{\"type\":\"array\",\"items\":{\"type\":\"record\",\"name\":\"k121_v122\",\"fields\":[{\"name\":\"key\",\"type\":\"int\",\"field-id\":121},{\"name\":\"value\",\"type\":\"long\",\"field-id\":122}]},\"logicalType\":\"map\"}],\"default\":null,\"field-id\":110},{\"name\":\"nan_value_counts\",\"type\":[\"null\",{\"type\":\"array\",\"items\":{\"type\":\"record\",\"name\":\"k138_v139\",\"fields\":[{\"name\":\"key\",\"type\":\"int\",\"field-id\":138},{\"name\":\"value\",\"type\":\"long\",\"field-id\":139}]},\"logicalType\":\"map\"}],\"default\":null,\"field-id\":137},{\"name\":\"lower_bounds\",\"type\":[\"null\",{\"type\":\"array\",\"items\":{\"type\":\"record\",\"name\":\"k126_v127\",\"fields\":[{\"name\":\"key\",\"type\":\"int\",\"field-id\":126},{\"name\":\"value\",\"type\":\"bytes\",\"field-id\":127}]},\"logicalType\":\"map\"}],\"default\":null,\"field-id\":125},{\"name\":\"upper_bounds\",\"type\":[\"null\",{\"type\":\"array\",\"items\":{\"type\":\"record\",\"name\":\"k129_v130\",\"fields\":[{\"name\":\"key\",\"type\":\"int\",\"field-id\":129},{\"name\":\"value\",\"type\":\"bytes\",\"field-id\":130}]},\"logicalType\":\"map\"}],\"default\":null,\"field-id\":128},{\"name\":\"key_metadata\",\"type\":[\"null\",\"bytes\"],\"default\":null,\"field-id\":131},{\"name\":\"split_offsets\",\"type\":[\"null\",{\"type\":\"array\",\"items\":\"long\",\"element-id\":133}],\"default\":null,\"field-id\":132},"@ + (if v1 {
        Seq::empty()
    } else {
        "{\"name\":\"equality_ids\",\"type\":[\"null\",{\"type\":\"array\",\"items\":\"int\",\"element-id\":136}],\"default\":null,\"field-id\":135},"@
    }) + "{\"name\":\"sort_order_id\",\"type\":[\"null\",\"int\"],\"default\":null,\"field-id\":140}"@
}

/// The Avro schema JSON of a version 2 manifest entry.
pub open spec fn spec_manifest_schema_v2_json(fields: Seq<StructField>) -> Seq<char> {
    "{\"type\":\"record\",\"name\":\"manifest_entry\",\"fields\":[{\"name\":\"status\",\"type\":\"int\",\"field-id\":0},{\"name\":\"snapshot_id\",\"type\":[\"null\",\"long\"],\"default\":null,\"field-id\":1},{\"name\":\"sequence_number\",\"type\":[\"null\",\"long\"],\"default\":null,\"field-id\":3},{\"name\":\"file_sequence_number\",\"type\":[\"null\",\"long\"],\"default\":null,\"field-id\":4},{\"name\":\"data_file\",\"type\":{\"type\":\"record\",\"name\":\"r2\",\"fields\":["@ + spec_data_file_fields_json(fields, false) + "]},\"field-id\":2}]}"@
}

/// The Avro schema JSON of a version 1 manifest entry.
pub open spec fn spec_manifest_schema_v1_json(fields: Seq<StructField>) -> Seq<char> {
    "{\"type\":\"record\",\"name\":\"manifest_entry\",\"fields\":[{\"name\":\"status\",\"type\":\"int\",\"field-id\":0},{\"name\":\"snapshot_id\",\"type\":\"long\",\"field-id\":1},{\"name\":\"data_file\",\"type\":{\"type\":\"record\",\"name\":\"r2\",\"fields\":["@ + spec_data_file_fields_json(fields, true) + "]},\"field-id\":2}]}"@
}

/// The Avro schema JSON of a standalone data-file record.
pub open spec fn spec_data_file_schema_json(fields: Seq<StructField>, v1: bool) -> Seq<char> {
    "{\"type\":\"record\",\"name\":\"data_file\",\"fields\":["@ + spec_data_file_fields_json(fields, v1) + "]}"@
}

/// Render the Avro schema JSON of a partition-column type. Fails exactly on
/// the unsupported column types: decimal, UUID and fixed.
fn avro_type_json(ty: &PrimitiveType) -> (r: Result<String, Error>)
    ensures
        r is Ok <==> spec_avro_type_supported(*ty),
        r matches Ok(s) ==> s@ == spec_avro_type_json(*ty),
{
    match ty {
        PrimitiveType::Boolean => Ok("\"boolean\"".to_owned()),
        PrimitiveType::Int => Ok("\"int\"".to_owned()),
        PrimitiveType::Long => Ok("\"long\"".to_owned()),
        PrimitiveType::Float => Ok("\"float\"".to_owned()),
        PrimitiveType::Double => Ok("\"double\"".to_owned()),
        PrimitiveType::Date => Ok("{\"type\":\"int\",\"logicalType\":\"date\"}".to_owned()),
        PrimitiveType::Time => Ok(
            "{\"type\":\"long\",\"logicalType\":\"time-micros\"}".to_owned(),
        ),
        PrimitiveType::Timestamp => Ok(
            "{\"type\":\"long\",\"logicalType\":\"timestamp-micros\",\"adjust-to-utc\":false}"
                .to_owned(),
        ),
        PrimitiveType::Timestamptz => Ok(
            "{\"type\":\"long\",\"logicalType\":\"timestamp-micros\",\"adjust-to-utc\":true}"
                .to_owned(),
        ),
        PrimitiveType::TimestampNs => Ok(
            "{\"type\":\"long\",\"logicalType\":\"timestamp-nanos\",\"adjust-to-utc\":false}"
                .to_owned(),
        ),
        PrimitiveType::TimestamptzNs => Ok(
            "{\"type\":\"long\",\"logicalType\":\"timestamp-nanos\",\"adjust-to-utc\":true}"
                .to_owned(),
        ),
        PrimitiveType::String => Ok("\"string\"".to_owned()),
        PrimitiveType::Binary => Ok("\"bytes\"".to_owned()),
        PrimitiveType::Decimal { .. } | PrimitiveType::Uuid | PrimitiveType::Fixed(_) => Err(
            Error::data_invalid(
                "decimal, UUID and fixed partition columns are not supported".to_owned(),
            ),
        ),
    }
}

/// Render the Avro schema JSON of the partition struct. Fails exactly when a
/// column type is unsupported.
#[verifier::rlimit(100)]
#[verifier::spinoff_prover]
fn partition_avro_json(ptype: &StructType) -> (r: Result<String, Error>)
    ensures
        r is Ok <==> (forall|c: int|
            0 <= c < ptype.fields@.len() ==> spec_avro_type_supported(
                (#[trigger] ptype.fields@[c]).ty,
            )),
        r matches Ok(s) ==> s@ == spec_partition_avro_json(ptype.fields@),
{
    let mut out: String = "{\"type\":\"record\",\"name\":\"r102\",\"fields\":[".to_owned();
    let n = ptype.fields.len();
    let mut i: usize = 0;
    while i < n
        invariant
            i <= n,
            n == ptype.fields@.len(),
            out@ == "{\"type\":\"record\",\"name\":\"r102\",\"fields\":["@ + spec_partition_fields_avro_items(ptype.fields@.take(i as int)),
            forall|c: int|
                0 <= c < i ==> spec_avro_type_supported((#[trigger] ptype.fields@[c]).ty),
        decreases n - i,
    {
        let f = &ptype.fields[i];
        let t = match avro_type_json(&f.ty) {
            Ok(t) => t,
            Err(e) => {
                return Err(e);
            },
        };
        if i > 0 {
            out.append(",");
        }
        out.append("{\"name\":\"");
        append_json_escaped(&mut out, f.name.as_str());
        out.append("\",\"type\":[\"null\",");
        out.append(t.as_str());
        out.append("],\"default\":null,\"field-id\":");
        let fid = render_i32(f.field_id);
        out.append(fid.as_str());
        out.append("}");
        proof {
            reveal_strlit(",");
            assert(","@ =~= seq![',']);
            assert(ptype.fields@.take(i + 1).drop_last() =~= ptype.fields@.take(i as int));
            assert(ptype.fields@.take(i + 1).last() == ptype.fields@[i as int]);
            assert(out@ =~= "{\"type\":\"record\",\"name\":\"r102\",\"fields\":["@ + spec_partition_fields_avro_items(
                ptype.fields@.take(i + 1),
            ));
        }
        i = i + 1;
    }
    out.append("]}");
    proof {
        assert(ptype.fields@.take(n as int) =~= ptype.fields@);
        assert(out@ =~= spec_partition_avro_json(ptype.fields@));
    }
    Ok(out)
}

/// Render the Avro schema JSON of the data-file field list, shared by the
/// entry schemas and the standalone data-file schema. Fails exactly when a
/// partition column type is unsupported.
fn data_file_fields_avro_json(ptype: &StructType, v1: bool) -> (r: Result<String, Error>)
    ensures
        r is Ok <==> (forall|c: int|
            0 <= c < ptype.fields@.len() ==> spec_avro_type_supported(
                (#[trigger] ptype.fields@[c]).ty,
            )),
        r matches Ok(s) ==> s@ == spec_data_file_fields_json(ptype.fields@, v1),
{
    let partition = match partition_avro_json(ptype) {
        Ok(p) => p,
        Err(e) => {
            return Err(e);
        },
    };
    let mut out: String = String::new();
    if !v1 {
        out.append("{\"name\":\"content\",\"type\":\"int\",\"field-id\":134},");
    }
    out.append("{\"name\":\"file_path\",\"type\":\"string\",\"field-id\":100},{\"name\":\"file_format\",\"type\":\"string\",\"field-id\":101},{\"name\":\"partition\",\"type\":");
    out.append(partition.as_str());
    out.append(",\"field-id\":102},{\"name\":\"record_count\",\"type\":\"long\",\"field-id\":103},{\"name\":\"file_size_in_bytes\",\"type\":\"long\",\"field-id\":104},");
    if v1 {
        out.append("{\"name\":\"block_size_in_bytes\",\"type\":\"long\",\"field-id\":105},");
    }
    out.append("{\"name\":\"column_sizes\",\"type\":[\"null\",{\"type\":\"array\",\"items\":{\"type\":\"record\",\"name\":\"k117_v118\",\"fields\":[{\"name\":\"key\",\"type\":\"int\",\"field-id\":117},{\"name\":\"value\",\"type\":\"long\",\"field-id\":118}]},\"logicalType\":\"map\"}],\"default\":null,\"field-id\":108},{\"name\":\"value_counts\",\"type\":[\"null\",{\"type\":\"array\",\"items\":{\"type\":\"record\",\"name\":\"k119_v120\",\"fields\":[{\"name\":\"key\",\"type\":\"int\",\"field-id\":119},{\"name\":\"value\",\"type\":\"long\",\"field-id\":120}]},\"logicalType\":\"map\"}],\"default\":null,\"field-id\":109},{\"name\":\"null_value_counts\",\"type\":[\"null\",{\"type\":\"array\",\"items\":{\"type\":\"record\",\"name\":\"k121_v122\",\"fields\":[{\"name\":\"key\",\"type\":\"int\",\"field-id\":121},{\"name\":\"value\",\"type\":\"long\",\"field-id\":122}]},\"logicalType\":\"map\"}],\"default\":null,\"field-id\":110},{\"name\":\"nan_value_counts\",\"type\":[\"null\",{\"type\":\"array\",\"items\":{\"type\":\"record\",\"name\":\"k138_v139\",\"fields\":[{\"name\":\"key\",\"type\":\"int\",\"field-id\":138},{\"name\":\"value\",\"type\":\"long\",\"field-id\":139}]},\"logicalType\":\"map\"}],\"default\":null,\"field-id\":137},{\"name\":\"lower_bounds\",\"type\":[\"null\",{\"type\":\"array\",\"items\":{\"type\":\"record\",\"name\":\"k126_v127\",\"fields\":[{\"name\":\"key\",\"type\":\"int\",\"field-id\":126},{\"name\":\"value\",\"type\":\"bytes\",\"field-id\":127}]},\"logicalType\":\"map\"}],\"default\":null,\"field-id\":125},{\"name\":\"upper_bounds\",\"type\":[\"null\",{\"type\":\"array\",\"items\":{\"type\":\"record\",\"name\":\"k129_v130\",\"fields\":[{\"name\":\"key\",\"type\":\"int\",\"field-id\":129},{\"name\":\"value\",\"type\":\"bytes\",\"field-id\":130}]},\"logicalType\":\"map\"}],\"default\":null,\"field-id\":128},{\"name\":\"key_metadata\",\"type\":[\"null\",\"bytes\"],\"default\":null,\"field-id\":131},{\"name\":\"split_offsets\",\"type\":[\"null\",{\"type\":\"array\",\"items\":\"long\",\"element-id\":133}],\"default\":null,\"field-id\":132},");
    if !v1 {
        out.append("{\"name\":\"equality_ids\",\"type\":[\"null\",{\"type\":\"array\",\"items\":\"int\",\"element-id\":136}],\"default\":null,\"field-id\":135},");
    }
    out.append("{\"name\":\"sort_order_id\",\"type\":[\"null\",\"int\"],\"default\":null,\"field-id\":140}");
    proof {
        assert(out@ =~= spec_data_file_fields_json(ptype.fields@, v1));
    }
    Ok(out)
}

/// Render the Avro schema JSON of a version 2 manifest entry. Fails exactly
/// when a partition column type is unsupported.
pub fn manifest_schema_v2_json(ptype: &StructType) -> (r: Result<String, Error>)
    ensures
        r is Ok <==> (forall|c: int|
            0 <= c < ptype.fields@.len() ==> spec_avro_type_supported(
                (#[trigger] ptype.fields@[c]).ty,
            )),
        r matches Ok(s) ==> s@ == spec_manifest_schema_v2_json(ptype.fields@),
{
    let df = match data_file_fields_avro_json(ptype, false) {
        Ok(s) => s,
        Err(e) => {
            return Err(e);
        },
    };
    let mut out: String = "{\"type\":\"record\",\"name\":\"manifest_entry\",\"fields\":[{\"name\":\"status\",\"type\":\"int\",\"field-id\":0},{\"name\":\"snapshot_id\",\"type\":[\"null\",\"long\"],\"default\":null,\"field-id\":1},{\"name\":\"sequence_number\",\"type\":[\"null\",\"long\"],\"default\":null,\"field-id\":3},{\"name\":\"file_sequence_number\",\"type\":[\"null\",\"long\"],\"default\":null,\"field-id\":4},{\"name\":\"data_file\",\"type\":{\"type\":\"record\",\"name\":\"r2\",\"fields\":[".to_owned();
    out.append(df.as_str());
    out.append("]},\"field-id\":2}]}");
    proof {
        assert(out@ =~= spec_manifest_schema_v2_json(ptype.fields@));
    }
    Ok(out)
}

/// Render the Avro schema JSON of a version 1 manifest entry. Fails exactly
/// when a partition column type is unsupported.
pub fn manifest_schema_v1_json(ptype: &StructType) -> (r: Result<String, Error>)
    ensures
        r is Ok <==> (forall|c: int|
            0 <= c < ptype.fields@.len() ==> spec_avro_type_supported(
                (#[trigger] ptype.fields@[c]).ty,
            )),
        r matches Ok(s) ==> s@ == spec_manifest_schema_v1_json(ptype.fields@),
{
    let df = match data_file_fields_avro_json(ptype, true) {
        Ok(s) => s,
        Err(e) => {
            return Err(e);
        },
    };
    let mut out: String = "{\"type\":\"record\",\"name\":\"manifest_entry\",\"fields\":[{\"name\":\"status\",\"type\":\"int\",\"field-id\":0},{\"name\":\"snapshot_id\",\"type\":\"long\",\"field-id\":1},{\"name\":\"data_file\",\"type\":{\"type\":\"record\",\"name\":\"r2\",\"fields\":[".to_owned();
    out.append(df.as_str());
    out.append("]},\"field-id\":2}]}");
    proof {
        assert(out@ =~= spec_manifest_schema_v1_json(ptype.fields@));
    }
    Ok(out)
}

/// Render the Avro schema JSON of a standalone data-file record. Fails exactly
/// when a partition column type is unsupported.
pub fn data_file_schema_json(ptype: &StructType, v1: bool) -> (r: Result<String, Error>)
    ensures
        r is Ok <==> (forall|c: int|
            0 <= c < ptype.fields@.len() ==> spec_avro_type_supported(
                (#[trigger] ptype.fields@[c]).ty,
            )),
        r matches Ok(s) ==> s@ == spec_data_file_schema_json(ptype.fields@, v1),
{
    let df = match data_file_fields_avro_json(ptype, v1) {
        Ok(s) => s,
        Err(e) => {
            return Err(e);
        },
    };
    let mut out: String = "{\"type\":\"record\",\"name\":\"data_file\",\"fields\":[".to_owned();
    out.append(df.as_str());
    out.append("]}");
    proof {
        assert(out@ =~= spec_data_file_schema_json(ptype.fields@, v1));
    }
    Ok(out)
}

/// Build the container value of one partition literal of a given type.
fn lit_to_value(lit: &PrimitiveLiteral, ty: &PrimitiveType) -> Result<AvroValue, Error> {
    match lit {
        PrimitiveLiteral::Boolean(b) => Ok(av_boolean(*b)),
        PrimitiveLiteral::Int(v) => Ok(av_int(*v)),
        PrimitiveLiteral::Long(v) => Ok(av_long(*v)),
        PrimitiveLiteral::Float(bits) => Ok(av_float_bits(*bits)),
        PrimitiveLiteral::Double(bits) => Ok(av_double_bits(*bits)),
        PrimitiveLiteral::String(s) => Ok(av_string(s.clone())),
        PrimitiveLiteral::Binary(b) => Ok(av_bytes(b.clone())),
        PrimitiveLiteral::Int128(_) | PrimitiveLiteral::UInt128(_) => Err(
            Error::data_invalid(
                "decimal and UUID partition values are not supported".to_owned(),
            ),
        ),
    }
}

/// Build the container value of a partition tuple against its struct type.
fn partition_to_value(
    partition: &Vec<Option<PrimitiveLiteral>>,
    ptype: &StructType,
) -> Result<AvroValue, Error> {
    if partition.len() != ptype.fields.len() {
        return Err(
            Error::data_invalid("the partition tuple does not fit the partition type".to_owned()),
        );
    }
    let n = partition.len();
    let mut fields: Vec<(String, AvroValue)> = Vec::new();
    let mut i: usize = 0;
    while i < n
        invariant
            i <= n,
            n == partition@.len(),
            n == ptype.fields@.len(),
        decreases n - i,
    {
        let value = match &partition[i] {
            Some(lit) => {
                let inner = match lit_to_value(lit, &ptype.fields[i].ty) {
                    Ok(v) => v,
                    Err(e) => {
                        return Err(e);
                    },
                };
                av_union_some(inner)
            },
            None => av_union_null(),
        };
        fields.push((ptype.fields[i].name.clone(), value));
        i = i + 1;
    }
    Ok(av_record(fields))
}

/// Build the container value of an optional id/long map.
fn counts_to_value(counts: &Option<Vec<(i32, i64)>>) -> AvroValue {
    match counts {
        Some(entries) => {
            let n = entries.len();
            let mut items: Vec<AvroValue> = Vec::new();
            let mut i: usize = 0;
            while i < n
                invariant
                    i <= n,
                    n == entries@.len(),
                decreases n - i,
            {
                let mut kv: Vec<(String, AvroValue)> = Vec::new();
                kv.push(("key".to_owned(), av_int(entries[i].0)));
                kv.push(("value".to_owned(), av_long(entries[i].1)));
                items.push(av_record(kv));
                i = i + 1;
            }
            av_union_some(av_array(items))
        },
        None => av_union_null(),
    }
}

/// Build the container value of an optional id/bytes map.
fn bounds_to_value(bounds: Option<Vec<(i32, Vec<u8>)>>) -> AvroValue {
    match bounds {
        Some(entries) => {
            let mut items: Vec<AvroValue> = Vec::new();
            for entry in entries
            {
                let mut kv: Vec<(String, AvroValue)> = Vec::new();
                kv.push(("key".to_owned(), av_int(entry.0)));
                kv.push(("value".to_owned(), av_bytes(entry.1)));
                items.push(av_record(kv));
            }
            av_union_some(av_array(items))
        },
        None => av_union_null(),
    }
}

/// Build the container value of a wire data file against its partition type.
pub(crate) fn wire_df_to_value(df: WireDataFile, ptype: &StructType, v1: bool) -> Result<AvroValue, Error> {
    let partition = match partition_to_value(&df.partition, ptype) {
        Ok(p) => p,
        Err(e) => {
            return Err(e);
        },
    };
    let mut fields: Vec<(String, AvroValue)> = Vec::new();
    if !v1 {
        fields.push(("content".to_owned(), av_int(df.content)));
    }
    fields.push(("file_path".to_owned(), av_string(df.file_path)));
    fields.push(("file_format".to_owned(), av_string(df.file_format)));
    fields.push(("partition".to_owned(), partition));
    fields.push(("record_count".to_owned(), av_long(df.record_count)));
    fields.push(("file_size_in_bytes".to_owned(), av_long(df.file_size_in_bytes)));
    if v1 {
        fields.push(("block_size_in_bytes".to_owned(), av_long(0)));
    }
    fields.push(("column_sizes".to_owned(), counts_to_value(&df.column_sizes)));
    fields.push(("value_counts".to_owned(), counts_to_value(&df.value_counts)));
    fields.push(("null_value_counts".to_owned(), counts_to_value(&df.null_value_counts)));
    fields.push(("nan_value_counts".to_owned(), counts_to_value(&df.nan_value_counts)));
    fields.push(("lower_bounds".to_owned(), bounds_to_value(df.lower_bounds)));
    fields.push(("upper_bounds".to_owned(), bounds_to_value(df.upper_bounds)));
    fields.push((
        "key_metadata".to_owned(),
        match df.key_metadata {
            Some(v) => av_union_some(av_bytes(v)),
            None => av_union_null(),
        },
    ));
    fields.push((
        "split_offsets".to_owned(),
        match df.split_offsets {
            Some(offsets) => {
                let mut items: Vec<AvroValue> = Vec::new();
                for o in offsets
                {
                    items.push(av_long(o));
                }
                av_union_some(av_array(items))
            },
            None => av_union_null(),
        },
    ));
    if !v1 {
        fields.push((
            "equality_ids".to_owned(),
            match df.equality_ids {
                Some(ids) => {
                    let mut items: Vec<AvroValue> = Vec::new();
                    for id in ids
                    {
                        items.push(av_int(id));
                    }
                    av_union_some(av_array(items))
                },
                None => av_union_null(),
            },
        ));
    }
    fields.push((
        "sort_order_id".to_owned(),
        match df.sort_order_id {
            Some(v) => av_union_some(av_int(v)),
            None => av_union_null(),
        },
    ));
    Ok(av_record(fields))
}

/// Build the container value of a version 2 wire entry.
pub fn wire_entry_v2_to_value(e: WireEntryV2, ptype: &StructType) -> Result<AvroValue, Error> {
    let df = match wire_df_to_value(e.data_file, ptype, false) {
        Ok(v) => v,
        Err(err) => {
            return Err(err);
        },
    };
    let mut fields: Vec<(String, AvroValue)> = Vec::new();
    fields.push(("status".to_owned(), av_int(e.status)));
    fields.push((
        "snapshot_id".to_owned(),
        match e.snapshot_id {
            Some(v) => av_union_some(av_long(v)),
            None => av_union_null(),
        },
    ));
    fields.push((
        "sequence_number".to_owned(),
        match e.sequence_number {
            Some(v) => av_union_some(av_long(v)),
            None => av_union_null(),
        },
    ));
    fields.push((
        "file_sequence_number".to_owned(),
        match e.file_sequence_number {
            Some(v) => av_union_some(av_long(v)),
            None => av_union_null(),
        },
    ));
    fields.push(("data_file".to_owned(), df));
    Ok(av_record(fields))
}

/// Build the container value of a version 1 wire entry.
pub fn wire_entry_v1_to_value(e: WireEntryV1, ptype: &StructType) -> Result<AvroValue, Error> {
    let df = match wire_df_to_value(e.data_file, ptype, true) {
        Ok(v) => v,
        Err(err) => {
            return Err(err);
        },
    };
    let mut fields: Vec<(String, AvroValue)> = Vec::new();
    fields.push(("status".to_owned(), av_int(e.status)));
    fields.push(("snapshot_id".to_owned(), av_long(e.snapshot_id)));
    fields.push(("data_file".to_owned(), df));
    Ok(av_record(fields))
}

/// Read an optional 64-bit integer from a nullable container value.
fn value_opt_i64(v: &AvroValue) -> Result<Option<i64>, Error> {
    let inner = match avr_union(v) {
        Some(inner) => inner,
        None => {
            if avr_is_null(v) {
                return Ok(None);
            }
            match avr_i64(v) {
                Some(x) => {
                    return Ok(Some(x));
                },
                None => {
                    return Err(Error::data_invalid("expected a nullable long".to_owned()));
                },
            }
        },
    };
    if avr_is_null(&inner) {
        return Ok(None);
    }
    match avr_i64(&inner) {
        Some(x) => Ok(Some(x)),
        None => Err(Error::data_invalid("expected a nullable long".to_owned())),
    }
}

/// Unwrap a nullable container value: the inner value, or nothing for null.
fn value_unwrap_option(v: &AvroValue) -> Option<AvroValue> {
    match avr_union(v) {
        Some(inner) => {
            if avr_is_null(&inner) {
                None
            } else {
                Some(inner)
            }
        },
        None => {
            if avr_is_null(v) {
                None
            } else {
                avr_union(v)
            }
        },
    }
}

/// Read a partition literal of a given type from a container value.
fn value_to_lit(v: &AvroValue, ty: &PrimitiveType) -> Result<PrimitiveLiteral, Error> {
    match ty {
        PrimitiveType::Boolean => match avr_boolean(v) {
            Some(b) => Ok(PrimitiveLiteral::Boolean(b)),
            None => Err(Error::data_invalid("expected a boolean partition value".to_owned())),
        },
        PrimitiveType::Int | PrimitiveType::Date => match avr_i32(v) {
            Some(x) => Ok(PrimitiveLiteral::Int(x)),
            None => Err(Error::data_invalid("expected an int partition value".to_owned())),
        },
        PrimitiveType::Long | PrimitiveType::Time | PrimitiveType::Timestamp
            | PrimitiveType::Timestamptz | PrimitiveType::TimestampNs
            | PrimitiveType::TimestamptzNs => match avr_i64(v) {
            Some(x) => Ok(PrimitiveLiteral::Long(x)),
            None => Err(Error::data_invalid("expected a long partition value".to_owned())),
        },
        PrimitiveType::Float => match avr_f32_bits(v) {
            Some(bits) => Ok(PrimitiveLiteral::Float(bits)),
            None => Err(Error::data_invalid("expected a float partition value".to_owned())),
        },
        PrimitiveType::Double => match avr_f64_bits(v) {
            Some(bits) => Ok(PrimitiveLiteral::Double(bits)),
            None => Err(Error::data_invalid("expected a double partition value".to_owned())),
        },
        PrimitiveType::String => match avr_string(v) {
            Some(s) => Ok(PrimitiveLiteral::String(s)),
            None => Err(Error::data_invalid("expected a string partition value".to_owned())),
        },
        PrimitiveType::Binary => match avr_bytes(v) {
            Some(b) => Ok(PrimitiveLiteral::Binary(b)),
            None => Err(Error::data_invalid("expected a binary partition value".to_owned())),
        },
        PrimitiveType::Decimal { .. } | PrimitiveType::Uuid | PrimitiveType::Fixed(_) => Err(
            Error::data_invalid(
                "decimal, UUID and fixed partition columns are not supported".to_owned(),
            ),
        ),
    }
}

/// Read a partition tuple from a container value against its struct type.
fn value_to_partition(
    v: &AvroValue,
    ptype: &StructType,
) -> Result<Vec<Option<PrimitiveLiteral>>, Error> {
    let fields = match avr_record_fields(v) {
        Some(f) => f,
        None => {
            return Err(Error::data_invalid("the partition value must be a record".to_owned()));
        },
    };
    if fields.len() != ptype.fields.len() {
        return Err(
            Error::data_invalid("the partition tuple does not fit the partition type".to_owned()),
        );
    }
    let n = fields.len();
    let mut out: Vec<Option<PrimitiveLiteral>> = Vec::new();
    let mut i: usize = 0;
    while i < n
        invariant
            i <= n,
            n == fields@.len(),
            n == ptype.fields@.len(),
        decreases n - i,
    {
        let fv = &fields[i];
        let element = match value_unwrap_option(fv) {
            Some(inner) => {
                match value_to_lit(&inner, &ptype.fields[i].ty) {
                    Ok(lit) => Some(lit),
                    Err(e) => {
                        return Err(e);
                    },
                }
            },
            None => {
                if avr_is_null(fv) || avr_union(fv).is_some() {
                    None
                } else {
                    match value_to_lit(fv, &ptype.fields[i].ty) {
                        Ok(lit) => Some(lit),
                        Err(e) => {
                            return Err(e);
                        },
                    }
                }
            },
        };
        out.push(element);
        i = i + 1;
    }
    Ok(out)
}

/// Read an optional id/long map from a container value.
fn value_to_counts(v: &AvroValue) -> Result<Option<Vec<(i32, i64)>>, Error> {
    let inner = match value_unwrap_option(v) {
        Some(inner) => inner,
        None => {
            return Ok(None);
        },
    };
    let items = match avr_array(&inner) {
        Some(a) => a,
        None => {
            return Err(Error::data_invalid("expected a list of count entries".to_owned()));
        },
    };
    let n = items.len();
    let mut out: Vec<(i32, i64)> = Vec::new();
    let mut i: usize = 0;
    while i < n
        invariant
            i <= n,
            n == items@.len(),
        decreases n - i,
    {
        let kv = match avr_record_fields(&items[i]) {
            Some(kv) => kv,
            None => {
                return Err(Error::data_invalid("a count entry must be a record".to_owned()));
            },
        };
        if kv.len() != 2 {
            return Err(Error::data_invalid("a count entry holds a key and a value".to_owned()));
        }
        let k = match avr_i32(&kv[0]) {
            Some(k) => k,
            None => {
                return Err(Error::data_invalid("a count key must be an int".to_owned()));
            },
        };
        let val = match avr_i64(&kv[1]) {
            Some(x) => x,
            None => {
                return Err(Error::data_invalid("a count value must be a long".to_owned()));
            },
        };
        out.push((k, val));
        i = i + 1;
    }
    Ok(Some(out))
}

/// Read an optional id/bytes map from a container value.
fn value_to_bounds(v: &AvroValue) -> Result<Option<Vec<(i32, Vec<u8>)>>, Error> {
    let inner = match value_unwrap_option(v) {
        Some(inner) => inner,
        None => {
            return Ok(None);
        },
    };
    let items = match avr_array(&inner) {
        Some(a) => a,
        None => {
            return Err(Error::data_invalid("expected a list of bound entries".to_owned()));
        },
    };
    let n = items.len();
    let mut out: Vec<(i32, Vec<u8>)> = Vec::new();
    let mut i: usize = 0;
    while i < n
        invariant
            i <= n,
            n == items@.len(),
        decreases n - i,
    {
        let kv = match avr_record_fields(&items[i]) {
            Some(kv) => kv,
            None => {
                return Err(Error::data_invalid("a bound entry must be a record".to_owned()));
            },
        };
        if kv.len() != 2 {
            return Err(Error::data_invalid("a bound entry holds a key and a value".to_owned()));
        }
        let k = match avr_i32(&kv[0]) {
            Some(k) => k,
            None => {
                return Err(Error::data_invalid("a bound key must be an int".to_owned()));
            },
        };
        let val = match avr_bytes(&kv[1]) {
            Some(b) => b,
            None => {
                return Err(Error::data_invalid("a bound value must be bytes".to_owned()));
            },
        };
        out.push((k, val));
        i = i + 1;
    }
    Ok(Some(out))
}

/// Read an optional list of longs from a container value.
fn value_to_longs(v: &AvroValue) -> Result<Option<Vec<i64>>, Error> {
    let inner = match value_unwrap_option(v) {
        Some(inner) => inner,
        None => {
            return Ok(None);
        },
    };
    let items = match avr_array(&inner) {
        Some(a) => a,
        None => {
            return Err(Error::data_invalid("expected a list of longs".to_owned()));
        },
    };
    let n = items.len();
    let mut out: Vec<i64> = Vec::new();
    let mut i: usize = 0;
    while i < n
        invariant
            i <= n,
            n == items@.len(),
        decreases n - i,
    {
        match avr_i64(&items[i]) {
            Some(x) => out.push(x),
            None => {
                return Err(Error::data_invalid("expected a long element".to_owned()));
            },
        }
        i = i + 1;
    }
    Ok(Some(out))
}

/// Read an optional list of ints from a container value.
fn value_to_ints(v: &AvroValue) -> Result<Option<Vec<i32>>, Error> {
    let inner = match value_unwrap_option(v) {
        Some(inner) => inner,
        None => {
            return Ok(None);
        },
    };
    let items = match avr_array(&inner) {
        Some(a) => a,
        None => {
            return Err(Error::data_invalid("expected a list of ints".to_owned()));
        },
    };
    let n = items.len();
    let mut out: Vec<i32> = Vec::new();
    let mut i: usize = 0;
    while i < n
        invariant
            i <= n,
            n == items@.len(),
        decreases n - i,
    {
        match avr_i32(&items[i]) {
            Some(x) => out.push(x),
            None => {
                return Err(Error::data_invalid("expected an int element".to_owned()));
            },
        }
        i = i + 1;
    }
    Ok(Some(out))
}

/// Read an optional 32-bit integer from a nullable container value.
fn value_opt_i32(v: &AvroValue) -> Result<Option<i32>, Error> {
    let inner = match value_unwrap_option(v) {
        Some(inner) => inner,
        None => {
            return Ok(None);
        },
    };
    match avr_i32(&inner) {
        Some(x) => Ok(Some(x)),
        None => Err(Error::data_invalid("expected a nullable int".to_owned())),
    }
}

/// Read an optional byte buffer from a nullable container value.
fn value_opt_bytes(v: &AvroValue) -> Result<Option<Vec<u8>>, Error> {
    let inner = match value_unwrap_option(v) {
        Some(inner) => inner,
        None => {
            return Ok(None);
        },
    };
    match avr_bytes(&inner) {
        Some(b) => Ok(Some(b)),
        None => Err(Error::data_invalid("expected nullable bytes".to_owned())),
    }
}

/// Read a wire data file from a container record against its partition type.
pub(crate) fn value_to_wire_df(v: &AvroValue, ptype: &StructType, v1: bool) -> Result<WireDataFile, Error> {
    let fields = match avr_record_fields(v) {
        Some(f) => f,
        None => {
            return Err(Error::data_invalid("a data file must be a record".to_owned()));
        },
    };
    let expected: usize = if v1 {
        15
    } else {
        16
    };
    if fields.len() != expected {
        return Err(Error::data_invalid("unexpected data-file record shape".to_owned()));
    }
    let base: usize = if v1 {
        0
    } else {
        1
    };
    let content: i32 = if v1 {
        0
    } else {
        match avr_i32(&fields[0]) {
            Some(c) => c,
            None => {
                return Err(Error::data_invalid("the content kind must be an int".to_owned()));
            },
        }
    };
    let file_path = match avr_string(&fields[base]) {
        Some(s) => s,
        None => {
            return Err(Error::data_invalid("the file path must be a string".to_owned()));
        },
    };
    let file_format = match avr_string(&fields[base + 1]) {
        Some(s) => s,
        None => {
            return Err(Error::data_invalid("the file format must be a string".to_owned()));
        },
    };
    let partition = match value_to_partition(&fields[base + 2], ptype) {
        Ok(p) => p,
        Err(e) => {
            return Err(e);
        },
    };
    let record_count = match avr_i64(&fields[base + 3]) {
        Some(x) => x,
        None => {
            return Err(Error::data_invalid("the record count must be a long".to_owned()));
        },
    };
    let file_size_in_bytes = match avr_i64(&fields[base + 4]) {
        Some(x) => x,
        None => {
            return Err(Error::data_invalid("the file size must be a long".to_owned()));
        },
    };
    // Version 1 carries the deprecated block size here; its value is ignored.
    let maps: usize = if v1 {
        6
    } else {
        5
    };
    let column_sizes = match value_to_counts(&fields[base + maps]) {
        Ok(c) => c,
        Err(e) => {
            return Err(e);
        },
    };
    let value_counts = match value_to_counts(&fields[base + maps + 1]) {
        Ok(c) => c,
        Err(e) => {
            return Err(e);
        },
    };
    let null_value_counts = match value_to_counts(&fields[base + maps + 2]) {
        Ok(c) => c,
        Err(e) => {
            return Err(e);
        },
    };
    let nan_value_counts = match value_to_counts(&fields[base + maps + 3]) {
        Ok(c) => c,
        Err(e) => {
            return Err(e);
        },
    };
    let lower_bounds = match value_to_bounds(&fields[base + maps + 4]) {
        Ok(b) => b,
        Err(e) => {
            return Err(e);
        },
    };
    let upper_bounds = match value_to_bounds(&fields[base + maps + 5]) {
        Ok(b) => b,
        Err(e) => {
            return Err(e);
        },
    };
    let key_metadata = match value_opt_bytes(&fields[base + maps + 6]) {
        Ok(b) => b,
        Err(e) => {
            return Err(e);
        },
    };
    let split_offsets = match value_to_longs(&fields[base + maps + 7]) {
        Ok(o) => o,
        Err(e) => {
            return Err(e);
        },
    };
    let equality_ids = if v1 {
        None
    } else {
        match value_to_ints(&fields[base + maps + 8]) {
            Ok(ids) => ids,
            Err(e) => {
                return Err(e);
            },
        }
    };
    let sort_idx: usize = if v1 {
        base + maps + 8
    } else {
        base + maps + 9
    };
    let sort_order_id = match value_opt_i32(&fields[sort_idx]) {
        Ok(s) => s,
        Err(e) => {
            return Err(e);
        },
    };
    Ok(
        WireDataFile {
            content,
            file_path,
            file_format,
            partition,
            record_count,
            file_size_in_bytes,
            column_sizes,
            value_counts,
            null_value_counts,
            nan_value_counts,
            lower_bounds,
            upper_bounds,
            key_metadata,
            split_offsets,
            equality_ids,
            sort_order_id,
        },
    )
}

/// Read a version 2 wire entry from a container record.
pub fn value_to_wire_entry_v2(v: &AvroValue, ptype: &StructType) -> Result<WireEntryV2, Error> {
    let fields = match avr_record_fields(v) {
        Some(f) => f,
        None => {
            return Err(Error::data_invalid("a manifest entry must be a record".to_owned()));
        },
    };
    if fields.len() != 5 {
        return Err(Error::data_invalid("unexpected manifest-entry record shape".to_owned()));
    }
    let status = match avr_i32(&fields[0]) {
        Some(s) => s,
        None => {
            return Err(Error::data_invalid("the status must be an int".to_owned()));
        },
    };
    let snapshot_id = match value_opt_i64(&fields[1]) {
        Ok(s) => s,
        Err(e) => {
            return Err(e);
        },
    };
    let sequence_number = match value_opt_i64(&fields[2]) {
        Ok(s) => s,
        Err(e) => {
            return Err(e);
        },
    };
    let file_sequence_number = match value_opt_i64(&fields[3]) {
        Ok(s) => s,
        Err(e) => {
            return Err(e);
        },
    };
    let data_file = match value_to_wire_df(&fields[4], ptype, false) {
        Ok(df) => df,
        Err(e) => {
            return Err(e);
        },
    };
    Ok(WireEntryV2 { status, snapshot_id, sequence_number, file_sequence_number, data_file })
}

/// Read a version 1 wire entry from a container record.
pub fn value_to_wire_entry_v1(v: &AvroValue, ptype: &StructType) -> Result<WireEntryV1, Error> {
    let fields = match avr_record_fields(v) {
        Some(f) => f,
        None => {
            return Err(Error::data_invalid("a manifest entry must be a record".to_owned()));
        },
    };
    if fields.len() != 3 {
        return Err(Error::data_invalid("unexpected manifest-entry record shape".to_owned()));
    }
    let status = match avr_i32(&fields[0]) {
        Some(s) => s,
        None => {
            return Err(Error::data_invalid("the status must be an int".to_owned()));
        },
    };
    let snapshot_id = match avr_i64(&fields[1]) {
        Some(s) => s,
        None => {
            return Err(Error::data_invalid("the snapshot id must be a long".to_owned()));
        },
    };
    let data_file = match value_to_wire_df(&fields[2], ptype, true) {
        Ok(df) => df,
        Err(e) => {
            return Err(e);
        },
    };
    Ok(WireEntryV1 { status, snapshot_id, data_file })
}

} // verus!
