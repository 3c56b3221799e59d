//! The table-schema and partition-spec model the codec reads: fields looked up
//! by stable numeric id, and the resolution of a partition spec against a
//! schema into the struct type of the `partition` field.
use vstd::prelude::*;

use crate::error::Error;
use crate::strutil::{spec_all_digits, str_eq};
use crate::values::PrimitiveType;
use vstd::string::StrSliceExecFns;

verus! {

/// The type of a schema field. The manifest codec reads primitive fields
/// (bounds and partition sources); a nested type is carried opaquely as the
/// JSON text that described it.
#[derive(Debug, Clone, PartialEq, Eq)]
pub enum FieldType {
    /// A primitive type.
    Primitive(PrimitiveType),
    /// A nested struct, list or map type, kept as its JSON description.
    Other(String),
}

/// A named field of a table schema with its stable numeric id.
#[derive(Debug, Clone, PartialEq, Eq)]
pub struct NestedField {
    /// The stable field id.
    pub id: i32,
    /// The field name.
    pub name: String,
    /// Whether a value is required.
    pub required: bool,
    /// The field type.
    pub field_type: FieldType,
}

/// A table schema: fields addressed by stable id, plus the schema id.
#[derive(Debug, Clone, PartialEq, Eq)]
pub struct Schema {
    /// The id of this schema version.
    pub schema_id: i32,
    /// The fields, in declaration order.
    pub fields: Vec<NestedField>,
}

/// The first field with the given id, if any.
pub open spec fn spec_field_by_id(fields: Seq<NestedField>, id: i32) -> Option<NestedField>
    decreases fields.len(),
{
    if fields.len() == 0 {
        None
    } else if fields[0].id == id {
        Some(fields[0])
    } else {
        spec_field_by_id(fields.drop_first(), id)
    }
}

impl Schema {
    /// Build a schema from its id and fields.
    pub fn new(schema_id: i32, fields: Vec<NestedField>) -> (r: Schema)
        ensures
            r.schema_id == schema_id,
            r.fields@ == fields@,
    {
        Schema { schema_id, fields }
    }

    /// The id of this schema version.
    pub fn schema_id(&self) -> (r: i32)
        ensures
            r == self.schema_id,
    {
        self.schema_id
    }

    /// Look a field up by its stable id; the first match is returned.
    pub fn field_by_id(&self, id: i32) -> (r: Option<&NestedField>)
        ensures
            match r {
                Some(f) => spec_field_by_id(self.fields@, id) == Some(*f),
                None => spec_field_by_id(self.fields@, id) is None,
            },
    {
        let n = self.fields.len();
        let mut i: usize = 0;
        proof {
            assert(self.fields@.skip(0) =~= self.fields@);
        }
        while i < n
            invariant
                i <= n,
                n == self.fields@.len(),
                spec_field_by_id(self.fields@, id) == spec_field_by_id(
                    self.fields@.skip(i as int),
                    id,
                ),
            decreases n - i,
        {
            proof {
                assert(self.fields@.skip(i as int)[0] == self.fields@[i as int]);
                assert(self.fields@.skip(i as int).drop_first() =~= self.fields@.skip(i + 1));
            }
            if self.fields[i].id == id {
                return Some(&self.fields[i]);
            }
            i = i + 1;
        }
        proof {
            assert(self.fields@.skip(n as int).len() == 0);
        }
        None
    }
}

/// One field of a partition spec: a transform applied to a source column,
/// producing the partition value under the given output field id. The
/// transform is kept in its textual form, as the spec spells it.
#[derive(Debug, Clone, PartialEq, Eq)]
pub struct PartitionField {
    /// The id of the source column in the table schema.
    pub source_id: i32,
    /// The id of the partition field in the partition struct.
    pub field_id: i32,
    /// The name of the partition field.
    pub name: String,
    /// The transform, e.g. `identity`, `year`, `bucket[16]`.
    pub transform: String,
}

/// An ordered list of partition fields with the id of the spec.
#[derive(Debug, Clone, PartialEq, Eq)]
pub struct PartitionSpec {
    /// The id of this partition spec.
    pub spec_id: i32,
    /// The partition fields, in order.
    pub fields: Vec<PartitionField>,
}

/// One field of the resolved partition struct type: the partition output id,
/// the field name, and the primitive type partition values carry.
#[derive(Debug, Clone, PartialEq, Eq)]
pub struct StructField {
    /// The partition field id.
    pub field_id: i32,
    /// The partition field name.
    pub name: String,
    /// The primitive type of the partition values.
    pub ty: PrimitiveType,
}

/// The struct type of the `partition` field: one optional field per partition
/// column.
#[derive(Debug, Clone, PartialEq, Eq)]
pub struct StructType {
    /// The fields, one per partition column, in spec order.
    pub fields: Vec<StructField>,
}

/// Whether a source type is a date or timestamp, the inputs of the calendar
/// transforms.
pub open spec fn spec_is_temporal(ty: PrimitiveType) -> bool {
    ty == PrimitiveType::Date || ty == PrimitiveType::Timestamp || ty == PrimitiveType::Timestamptz
        || ty == PrimitiveType::TimestampNs || ty == PrimitiveType::TimestamptzNs
}

/// Whether a source type can be bucketed.
pub open spec fn spec_is_bucketable(ty: PrimitiveType) -> bool {
    match ty {
        PrimitiveType::Int | PrimitiveType::Long | PrimitiveType::Decimal { .. }
            | PrimitiveType::Date | PrimitiveType::Time | PrimitiveType::Timestamp
            | PrimitiveType::Timestamptz | PrimitiveType::TimestampNs
            | PrimitiveType::TimestamptzNs | PrimitiveType::String | PrimitiveType::Uuid
            | PrimitiveType::Fixed(_) | PrimitiveType::Binary => true,
        _ => false,
    }
}

/// Whether a source type can be truncated.
pub open spec fn spec_is_truncatable(ty: PrimitiveType) -> bool {
    match ty {
        PrimitiveType::Int | PrimitiveType::Long | PrimitiveType::Decimal { .. }
            | PrimitiveType::String | PrimitiveType::Binary => true,
        _ => false,
    }
}

/// Whether a transform string has the shape `name[digits]`.
pub open spec fn spec_is_bracket_form(t: Seq<char>, name: Seq<char>) -> bool {
    t.len() > name.len() + 1 && t.take(name.len() as int) == name && t.last() == ']'
        && spec_all_digits(t.subrange(name.len() as int, t.len() - 1)) && t.len() - 1 - name.len()
        >= 1
}

/// The primitive type a transform produces from a source type, or nothing if
/// the transform does not accept the source or is not recognized.
pub open spec fn spec_transform_result_type(t: Seq<char>, source: PrimitiveType) -> Option<
    PrimitiveType,
> {
    if t == "identity"@ || t == "void"@ {
        Some(source)
    } else if t == "year"@ || t == "month"@ {
        if spec_is_temporal(source) {
            Some(PrimitiveType::Int)
        } else {
            None
        }
    } else if t == "day"@ {
        if spec_is_temporal(source) {
            Some(PrimitiveType::Date)
        } else {
            None
        }
    } else if t == "hour"@ {
        if spec_is_temporal(source) && source != PrimitiveType::Date {
            Some(PrimitiveType::Int)
        } else {
            None
        }
    } else if t == "unknown"@ {
        Some(PrimitiveType::String)
    } else if spec_is_bracket_form(t, "bucket["@) {
        if spec_is_bucketable(source) {
            Some(PrimitiveType::Int)
        } else {
            None
        }
    } else if spec_is_bracket_form(t, "truncate["@) {
        if spec_is_truncatable(source) {
            Some(source)
        } else {
            None
        }
    } else {
        None
    }
}

/// Whether a string has the shape `name[digits]`, executable.
pub fn is_bracket_form(t: &str, name: &str) -> (r: bool)
    ensures
        r == spec_is_bracket_form(t@, name@),
{
    let tn = t.unicode_len();
    let nn = name.unicode_len();
    if nn >= tn || tn - nn <= 1 {
        return false;
    }
    let prefix = t.substring_char(0, nn);
    if !str_eq(prefix, name) {
        return false;
    }
    if t.get_char(tn - 1) != ']' {
        return false;
    }
    let end = tn - 1;
    let mut i: usize = nn;
    while i < end
        invariant
            end == tn - 1,
            nn <= i <= end,
            tn == t@.len(),
            nn == name@.len(),
            tn > nn + 1,
            forall|j: int| nn <= j < i ==> crate::strutil::spec_is_digit(#[trigger] t@[j]),
        decreases tn - i,
    {
        let c = t.get_char(i);
        if c < '0' || c > '9' {
            proof {
                let mid = t@.subrange(nn as int, tn - 1);
                assert(mid[i - nn] == t@[i as int]);
            }
            return false;
        }
        i = i + 1;
    }
    proof {
        let mid = t@.subrange(nn as int, tn - 1);
        assert forall|j: int| 0 <= j < mid.len() implies crate::strutil::spec_is_digit(
            #[trigger] mid[j],
        ) by {
            assert(mid[j] == t@[j + nn]);
        }
    }
    true
}

/// The primitive type a transform produces from a source type.
pub fn transform_result_type(t: &str, source: &PrimitiveType) -> (r: Result<PrimitiveType, Error>)
    ensures
        r matches Ok(ty) ==> spec_transform_result_type(t@, *source) == Some(ty),
        r is Err ==> spec_transform_result_type(t@, *source) is None,
{
    if str_eq(t, "identity") || str_eq(t, "void") {
        Ok(*source)
    } else if str_eq(t, "year") || str_eq(t, "month") {
        if is_temporal(source) {
            Ok(PrimitiveType::Int)
        } else {
            Err(Error::data_invalid("a calendar transform needs a date or timestamp".to_owned()))
        }
    } else if str_eq(t, "day") {
        if is_temporal(source) {
            Ok(PrimitiveType::Date)
        } else {
            Err(Error::data_invalid("a calendar transform needs a date or timestamp".to_owned()))
        }
    } else if str_eq(t, "hour") {
        if is_temporal(source) && !matches!(source, PrimitiveType::Date) {
            Ok(PrimitiveType::Int)
        } else {
            Err(Error::data_invalid("the hour transform needs a timestamp".to_owned()))
        }
    } else if str_eq(t, "unknown") {
        Ok(PrimitiveType::String)
    } else if is_bracket_form(t, "bucket[") {
        if is_bucketable(source) {
            Ok(PrimitiveType::Int)
        } else {
            Err(Error::data_invalid("the source type cannot be bucketed".to_owned()))
        }
    } else if is_bracket_form(t, "truncate[") {
        if is_truncatable(source) {
            Ok(*source)
        } else {
            Err(Error::data_invalid("the source type cannot be truncated".to_owned()))
        }
    } else {
        Err(Error::data_invalid("unsupported partition transform".to_owned()))
    }
}

/// Whether a source type is a date or timestamp.
fn is_temporal(ty: &PrimitiveType) -> (r: bool)
    ensures
        r == spec_is_temporal(*ty),
{
    matches!(
        ty,
        PrimitiveType::Date | PrimitiveType::Timestamp | PrimitiveType::Timestamptz
            | PrimitiveType::TimestampNs | PrimitiveType::TimestamptzNs
    )
}

/// Whether a source type can be bucketed.
fn is_bucketable(ty: &PrimitiveType) -> (r: bool)
    ensures
        r == spec_is_bucketable(*ty),
{
    matches!(
        ty,
        PrimitiveType::Int | PrimitiveType::Long | PrimitiveType::Decimal { .. }
            | PrimitiveType::Date | PrimitiveType::Time | PrimitiveType::Timestamp
            | PrimitiveType::Timestamptz | PrimitiveType::TimestampNs
            | PrimitiveType::TimestamptzNs | PrimitiveType::String | PrimitiveType::Uuid
            | PrimitiveType::Fixed(_) | PrimitiveType::Binary
    )
}

/// Whether a source type can be truncated.
fn is_truncatable(ty: &PrimitiveType) -> (r: bool)
    ensures
        r == spec_is_truncatable(*ty),
{
    matches!(
        ty,
        PrimitiveType::Int | PrimitiveType::Long | PrimitiveType::Decimal { .. }
            | PrimitiveType::String | PrimitiveType::Binary
    )
}

/// The struct field a partition field resolves to against a schema: the source
/// field must exist, be primitive, and accept the transform.
pub open spec fn spec_resolve_partition_field(
    schema_fields: Seq<NestedField>,
    pf: PartitionField,
) -> Option<StructField> {
    match spec_field_by_id(schema_fields, pf.source_id) {
        Some(f) => match f.field_type {
            FieldType::Primitive(src) => match spec_transform_result_type(pf.transform@, src) {
                Some(ty) => Some(StructField { field_id: pf.field_id, name: pf.name, ty }),
                None => None,
            },
            FieldType::Other(_) => None,
        },
        None => None,
    }
}

/// The partition struct type a spec resolves to: each field resolved in order,
/// all of them successfully.
pub open spec fn spec_partition_type(
    schema_fields: Seq<NestedField>,
    spec_fields: Seq<PartitionField>,
) -> Option<Seq<StructField>>
    decreases spec_fields.len(),
{
    if spec_fields.len() == 0 {
        Some(Seq::empty())
    } else {
        match spec_partition_type(schema_fields, spec_fields.drop_last()) {
            Some(init) => match spec_resolve_partition_field(schema_fields, spec_fields.last()) {
                Some(sf) => Some(init.push(sf)),
                None => None,
            },
            None => None,
        }
    }
}

impl PartitionSpec {
    /// Build a partition spec from its id and fields.
    pub fn new(spec_id: i32, fields: Vec<PartitionField>) -> (r: PartitionSpec)
        ensures
            r.spec_id == spec_id,
            r.fields@ == fields@,
    {
        PartitionSpec { spec_id, fields }
    }

    /// The id of this partition spec.
    pub fn spec_id(&self) -> (r: i32)
        ensures
            r == self.spec_id,
    {
        self.spec_id
    }

    /// Resolve the struct type of the `partition` field against a table
    /// schema. Fails when a source column is missing or not primitive, or when
    /// a transform does not accept its source type.
    pub fn partition_type(&self, schema: &Schema) -> (r: Result<StructType, Error>)
        ensures
            r matches Ok(st) ==> spec_partition_type(schema.fields@, self.fields@) == Some(
                st.fields@,
            ),
            r is Err ==> spec_partition_type(schema.fields@, self.fields@) is None,
    {
        let n = self.fields.len();
        let mut out: Vec<StructField> = Vec::new();
        let mut i: usize = 0;
        proof {
            assert(self.fields@.take(0) =~= Seq::<PartitionField>::empty());
        }
        while i < n
            invariant
                i <= n,
                n == self.fields@.len(),
                spec_partition_type(schema.fields@, self.fields@.take(i as int)) == Some(out@),
            decreases n - i,
        {
            let pf = &self.fields[i];
            let source = match schema.field_by_id(pf.source_id) {
                Some(f) => f,
                None => {
                    proof {
                        lemma_partition_type_step(schema.fields@, self.fields@, i as int);
                    }
                    return Err(
                        Error::data_invalid(
                            "a partition field names a source column that the schema lacks"
                                .to_owned(),
                        ),
                    );
                },
            };
            let src_ty = match &source.field_type {
                FieldType::Primitive(p) => p,
                FieldType::Other(_) => {
                    proof {
                        lemma_partition_type_step(schema.fields@, self.fields@, i as int);
                    }
                    return Err(
                        Error::data_invalid(
                            "a partition source column must be primitive".to_owned(),
                        ),
                    );
                },
            };
            let ty = match transform_result_type(pf.transform.as_str(), src_ty) {
                Ok(t) => t,
                Err(e) => {
                    proof {
                        lemma_partition_type_step(schema.fields@, self.fields@, i as int);
                    }
                    return Err(e);
                },
            };
            out.push(StructField { field_id: pf.field_id, name: pf.name.clone(), ty });
            proof {
                lemma_partition_type_step(schema.fields@, self.fields@, i as int);
                assert(self.fields@.take(i + 1).drop_last() =~= self.fields@.take(i as int));
                assert(self.fields@.take(i + 1).last() == self.fields@[i as int]);
            }
            i = i + 1;
        }
        proof {
            assert(self.fields@.take(n as int) =~= self.fields@);
        }
        Ok(StructType { fields: out })
    }
}

/// A resolved partition type has one field per partition field.
pub proof fn lemma_partition_type_len(
    schema_fields: Seq<NestedField>,
    spec_fields: Seq<PartitionField>,
)
    requires
        spec_partition_type(schema_fields, spec_fields) is Some,
    ensures
        spec_partition_type(schema_fields, spec_fields).unwrap().len() == spec_fields.len(),
    decreases spec_fields.len(),
{
    if spec_fields.len() > 0 {
        lemma_partition_type_len(schema_fields, spec_fields.drop_last());
    }
}

/// Unfold one step of partition-type resolution.
proof fn lemma_partition_type_step(
    schema_fields: Seq<NestedField>,
    spec_fields: Seq<PartitionField>,
    i: int,
)
    requires
        0 <= i < spec_fields.len(),
    ensures
        spec_partition_type(schema_fields, spec_fields.take(i + 1)) == (match spec_partition_type(
            schema_fields,
            spec_fields.take(i),
        ) {
            Some(init) => match spec_resolve_partition_field(schema_fields, spec_fields[i]) {
                Some(sf) => Some(init.push(sf)),
                None => None,
            },
            None => None,
        }),
        spec_partition_type(schema_fields, spec_fields) is Some ==> spec_partition_type(
            schema_fields,
            spec_fields.take(i),
        ) is Some && spec_resolve_partition_field(schema_fields, spec_fields[i]) is Some,
{
    assert(spec_fields.take(i + 1).drop_last() =~= spec_fields.take(i));
    assert(spec_fields.take(i + 1).last() == spec_fields[i]);
    lemma_partition_type_prefix(schema_fields, spec_fields, i + 1);
}

/// If the whole spec resolves, every prefix resolves.
proof fn lemma_partition_type_prefix(
    schema_fields: Seq<NestedField>,
    spec_fields: Seq<PartitionField>,
    k: int,
)
    requires
        0 <= k <= spec_fields.len(),
    ensures
        spec_partition_type(schema_fields, spec_fields) is Some ==> spec_partition_type(
            schema_fields,
            spec_fields.take(k),
        ) is Some,
    decreases spec_fields.len() - k,
{
    if k < spec_fields.len() {
        lemma_partition_type_prefix(schema_fields, spec_fields, k + 1);
        assert(spec_fields.take(k + 1).drop_last() =~= spec_fields.take(k));
        if spec_fields.take(spec_fields.len() as int) == spec_fields {
        }
        assert(spec_fields.take(spec_fields.len() as int) =~= spec_fields);
    } else {
        assert(spec_fields.take(k) =~= spec_fields);
    }
}

} // verus!
