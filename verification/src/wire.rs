//! Converters between the in-memory value model and the record-codec
//! representation: count maps as lists of id/long pairs, bound maps as lists
//! of id/bytes pairs decoded through the table schema, and the v1/v2 entry
//! shapes.
use vstd::prelude::*;

use crate::binary::{spec_bytes_decode_ok, spec_datum_bytes, spec_decoded_lit};
use crate::error::Error;
use crate::manifest::{
    spec_ascii_lower_seq, spec_content_code, spec_format_of_chars, DataContentType, DataFile,
    DataFileFormat, DataFileV, EntryV, ManifestEntry, ManifestStatus, Struct,
    spec_status_code,
};
use crate::schema::{spec_field_by_id, FieldType, NestedField, Schema, StructField, StructType};
use crate::values::{
    opt_lit_view, spec_bounds_view, spec_compatible, Datum, DatumV, LitV, PrimitiveLiteral,
    PrimitiveType,
};
use vstd::string::StrSliceExecFns;

verus! {

/// The wire form of a count map: the same pairs with signed values; defined
/// only when every count fits a signed 64-bit value.
pub open spec fn spec_counts_to_wire(s: Seq<(i32, u64)>) -> Option<Seq<(i32, i64)>>
    decreases s.len(),
{
    if s.len() == 0 {
        Some(Seq::empty())
    } else {
        match spec_counts_to_wire(s.drop_last()) {
            Some(init) => if s.last().1 <= 0x7fff_ffff_ffff_ffff {
                Some(init.push((s.last().0, s.last().1 as i64)))
            } else {
                None
            },
            None => None,
        }
    }
}

/// The count map read from its wire form: pairs whose value is negative are
/// silently dropped, everything else is kept in order.
pub open spec fn spec_counts_from_wire(s: Seq<(i32, i64)>) -> Seq<(i32, u64)>
    decreases s.len(),
{
    if s.len() == 0 {
        Seq::empty()
    } else {
        let init = spec_counts_from_wire(s.drop_last());
        if s.last().1 >= 0 {
            init.push((s.last().0, s.last().1 as u64))
        } else {
            init
        }
    }
}

/// Turn a count map into its wire form. Fails exactly when a count does not
/// fit a signed 64-bit value.
pub fn to_i64_entry(entries: &Vec<(i32, u64)>) -> (r: Result<Vec<(i32, i64)>, Error>)
    ensures
        r matches Ok(v) ==> spec_counts_to_wire(entries@) == Some(v@),
        r is Err ==> spec_counts_to_wire(entries@) is None,
{
    let n = entries.len();
    let mut out: Vec<(i32, i64)> = Vec::new();
    let mut i: usize = 0;
    proof {
        assert(entries@.take(0) =~= Seq::<(i32, u64)>::empty());
    }
    while i < n
        invariant
            i <= n,
            n == entries@.len(),
            spec_counts_to_wire(entries@.take(i as int)) == Some(out@),
        decreases n - i,
    {
        let (k, v) = entries[i];
        proof {
            assert(entries@.take(i + 1).drop_last() =~= entries@.take(i as int));
            assert(entries@.take(i + 1).last() == entries@[i as int]);
        }
        if v > 0x7fff_ffff_ffff_ffff {
            proof {
                lemma_counts_to_wire_prefix_none(entries@, i + 1);
            }
            return Err(Error::data_invalid("a count does not fit a signed long".to_owned()));
        }
        out.push((k, v as i64));
        i = i + 1;
    }
    proof {
        assert(entries@.take(n as int) =~= entries@);
    }
    Ok(out)
}

/// Once a prefix fails the wire conversion, the whole sequence fails.
proof fn lemma_counts_to_wire_prefix_none(s: Seq<(i32, u64)>, k: int)
    requires
        0 <= k <= s.len(),
        spec_counts_to_wire(s.take(k)) is None,
    ensures
        spec_counts_to_wire(s) is None,
    decreases s.len() - k,
{
    if k < s.len() {
        assert(s.take(k + 1).drop_last() =~= s.take(k));
        lemma_counts_to_wire_prefix_none(s, k + 1);
    } else {
        assert(s.take(k) =~= s);
    }
}

/// Read a count map from its wire form: pairs with a negative value are
/// silently dropped, because counts are never negative; all other pairs are
/// kept, in wire order. Ids are expected to be unique, as a writer emits them;
/// a foreign manifest that repeats an id keeps both pairs, in order.
pub fn parse_i64_entry(entries: Vec<(i32, i64)>) -> (r: Vec<(i32, u64)>)
    ensures
        r@ == spec_counts_from_wire(entries@),
{
    let n = entries.len();
    let mut out: Vec<(i32, u64)> = Vec::new();
    let mut i: usize = 0;
    proof {
        assert(entries@.take(0) =~= Seq::<(i32, i64)>::empty());
    }
    while i < n
        invariant
            i <= n,
            n == entries@.len(),
            out@ == spec_counts_from_wire(entries@.take(i as int)),
        decreases n - i,
    {
        let (k, v) = entries[i];
        proof {
            assert(entries@.take(i + 1).drop_last() =~= entries@.take(i as int));
            assert(entries@.take(i + 1).last() == entries@[i as int]);
        }
        if v >= 0 {
            out.push((k, v as u64));
        }
        i = i + 1;
    }
    proof {
        assert(entries@.take(n as int) =~= entries@);
    }
    out
}

/// A count map whose counts fit a signed long reads back unchanged: writing
/// never produces negative wire values, so nothing is dropped.
pub proof fn lemma_counts_roundtrip(s: Seq<(i32, u64)>)
    requires
        spec_counts_to_wire(s) is Some,
    ensures
        spec_counts_from_wire(spec_counts_to_wire(s).unwrap()) == s,
    decreases s.len(),
{
    if s.len() == 0 {
        assert(spec_counts_from_wire(spec_counts_to_wire(s).unwrap()) =~= s);
    } else {
        assert(spec_counts_to_wire(s.drop_last()) is Some);
        lemma_counts_roundtrip(s.drop_last());
        let w = spec_counts_to_wire(s).unwrap();
        let wi = spec_counts_to_wire(s.drop_last()).unwrap();
        assert(w == wi.push((s.last().0, s.last().1 as i64)));
        assert(w.drop_last() =~= wi);
        assert(spec_counts_from_wire(w) == spec_counts_from_wire(wi).push(
            (s.last().0, s.last().1 as u64),
        ));
        assert(spec_counts_from_wire(w) =~= s);
    }
}

/// The wire form of a bound list: every datum serialized.
pub open spec fn spec_bounds_to_wire(s: Seq<(i32, DatumV)>) -> Seq<(i32, Seq<u8>)> {
    s.map(|i: int, p: (i32, DatumV)| (p.0, spec_datum_bytes(p.1.lit)))
}

/// The bound list read from its wire form against a schema: a pair whose
/// column id is missing from the schema is silently dropped (the schema
/// evolved); a pair whose column is not primitive or whose bytes do not decode
/// is an error; every other pair decodes at the column's type, in order.
pub open spec fn spec_bounds_from_wire(
    fields: Seq<NestedField>,
    s: Seq<(i32, Seq<u8>)>,
) -> Option<Seq<(i32, DatumV)>>
    decreases s.len(),
{
    if s.len() == 0 {
        Some(Seq::empty())
    } else {
        match spec_bounds_from_wire(fields, s.drop_last()) {
            Some(init) => match spec_field_by_id(fields, s.last().0) {
                None => Some(init),
                Some(f) => match f.field_type {
                    FieldType::Primitive(ty) => if spec_bytes_decode_ok(ty, s.last().1) {
                        Some(
                            init.push(
                                (s.last().0, DatumV { ty, lit: spec_decoded_lit(ty, s.last().1) }),
                            ),
                        )
                    } else {
                        None
                    },
                    FieldType::Other(_) => None,
                },
            },
            None => None,
        }
    }
}

/// Serialize a bound list to its wire form.
pub fn to_bytes_entry(entries: &Vec<(i32, Datum)>) -> (r: Vec<(i32, Vec<u8>)>)
    ensures
        r@.len() == entries@.len(),
        forall|i: int|
            0 <= i < entries@.len() ==> (#[trigger] r@[i]).0 == entries@[i].0 && r@[i].1@
                == spec_datum_bytes(entries@[i].1@.lit),
{
    let n = entries.len();
    let mut out: Vec<(i32, Vec<u8>)> = Vec::new();
    let mut i: usize = 0;
    while i < n
        invariant
            i <= n,
            n == entries@.len(),
            out@.len() == i,
            forall|j: int|
                0 <= j < i ==> (#[trigger] out@[j]).0 == entries@[j].0 && out@[j].1@
                    == spec_datum_bytes(entries@[j].1@.lit),
        decreases n - i,
    {
        let bytes = entries[i].1.to_bytes();
        out.push((entries[i].0, bytes));
        i = i + 1;
    }
    out
}

/// Read a bound list from its wire form against a schema: unknown column ids
/// are dropped (schema evolution), a non-primitive bound column or bytes that
/// do not decode at the column's type are rejected.
pub fn parse_bytes_entry(entries: &Vec<(i32, Vec<u8>)>, schema: &Schema) -> (r: Result<
    Vec<(i32, Datum)>,
    Error,
>)
    ensures
        r matches Ok(v) ==> spec_bounds_from_wire(schema.fields@, spec_wire_bounds_view(entries@))
            == Some(spec_bounds_view(v@)),
        r is Err ==> spec_bounds_from_wire(
            schema.fields@,
            spec_wire_bounds_view(entries@),
        ) is None,
{
    let n = entries.len();
    let mut out: Vec<(i32, Datum)> = Vec::new();
    let mut i: usize = 0;
    proof {
        assert(spec_wire_bounds_view(entries@).take(0) =~= Seq::<(i32, Seq<u8>)>::empty());
        assert(spec_bounds_view(out@) =~= Seq::<(i32, DatumV)>::empty());
    }
    while i < n
        invariant
            i <= n,
            n == entries@.len(),
            spec_bounds_from_wire(
                schema.fields@,
                spec_wire_bounds_view(entries@).take(i as int),
            ) == Some(spec_bounds_view(out@)),
        decreases n - i,
    {
        let ghost wv = spec_wire_bounds_view(entries@);
        proof {
            assert(wv.take(i + 1).drop_last() =~= wv.take(i as int));
            assert(wv.take(i + 1).last() == wv[i as int]);
            assert(wv[i as int].0 == entries@[i as int].0);
            assert(wv[i as int].1 == entries@[i as int].1@);
        }
        let key = entries[i].0;
        match schema.field_by_id(key) {
            None => {},
            Some(field) => {
                let ty = match &field.field_type {
                    FieldType::Primitive(p) => *p,
                    FieldType::Other(_) => {
                        proof {
                            lemma_bounds_from_wire_prefix_none(schema.fields@, wv, i + 1);
                        }
                        return Err(
                            Error::data_invalid(
                                "a bound column must be primitive".to_owned(),
                            ),
                        );
                    },
                };
                match Datum::try_from_bytes(&entries[i].1, ty) {
                    Ok(d) => {
                        out.push((key, d));
                        proof {
                            assert(spec_bounds_view(out@).drop_last() =~= spec_bounds_view(
                                out@.drop_last(),
                            ));
                            assert(spec_bounds_view(out@) =~= spec_bounds_view(
                                out@.drop_last(),
                            ).push((key, out@.last().1@)));
                        }
                    },
                    Err(_) => {
                        proof {
                            lemma_bounds_from_wire_prefix_none(schema.fields@, wv, i + 1);
                        }
                        return Err(
                            Error::data_invalid(
                                "a bound value does not decode at its column type".to_owned(),
                            ),
                        );
                    },
                }
            },
        }
        i = i + 1;
    }
    proof {
        assert(spec_wire_bounds_view(entries@).take(n as int) =~= spec_wire_bounds_view(entries@));
    }
    Ok(out)
}

/// The view of a wire bound list: bytes become sequences.
pub open spec fn spec_wire_bounds_view(s: Seq<(i32, Vec<u8>)>) -> Seq<(i32, Seq<u8>)> {
    s.map(|i: int, p: (i32, Vec<u8>)| (p.0, p.1@))
}

/// Once a prefix of a wire bound list fails to decode, the whole list fails.
proof fn lemma_bounds_from_wire_prefix_none(
    fields: Seq<NestedField>,
    s: Seq<(i32, Seq<u8>)>,
    k: int,
)
    requires
        0 <= k <= s.len(),
        spec_bounds_from_wire(fields, s.take(k)) is None,
    ensures
        spec_bounds_from_wire(fields, s) is None,
    decreases s.len() - k,
{
    if k < s.len() {
        assert(s.take(k + 1).drop_last() =~= s.take(k));
        lemma_bounds_from_wire_prefix_none(fields, s, k + 1);
    } else {
        assert(s.take(k) =~= s);
    }
}

/// Bounds whose column ids the schema knows as primitive columns of the right
/// type round-trip exactly; pairs with unknown ids are dropped; nothing else
/// changes. This is the schema-evolution guarantee at the bound-map level.
pub proof fn lemma_bounds_roundtrip(fields: Seq<NestedField>, s: Seq<(i32, DatumV)>)
    requires
        forall|i: int|
            0 <= i < s.len() ==> match spec_field_by_id(fields, (#[trigger] s[i]).0) {
                Some(f) => f.field_type == FieldType::Primitive(s[i].1.ty)
                    && crate::values::spec_compatible(s[i].1.ty, s[i].1.lit) && (
                s[i].1.ty matches PrimitiveType::Fixed(n) ==> (
                s[i].1.lit matches crate::values::LitV::Bytes(b) && b.len() == n)),
                None => true,
            },
    ensures
        spec_bounds_from_wire(fields, spec_bounds_to_wire(s)) == Some(
            spec_keep_known(fields, s),
        ),
    decreases s.len(),
{
    let w = spec_bounds_to_wire(s);
    if s.len() == 0 {
        assert(w =~= Seq::<(i32, Seq<u8>)>::empty());
    } else {
        assert(spec_bounds_to_wire(s.drop_last()) =~= w.drop_last());
        lemma_bounds_roundtrip(fields, s.drop_last());
        let p = s.last();
        assert(w.last() == (p.0, spec_datum_bytes(p.1.lit)));
        match spec_field_by_id(fields, p.0) {
            None => {},
            Some(f) => {
                crate::binary::lemma_datum_bytes_roundtrip(p.1);
            },
        }
    }
}

/// Every bound pair a decode returns names a schema column of the bound's
/// primitive type.
pub open spec fn spec_bounds_known(fields: Seq<NestedField>, b: Seq<(i32, DatumV)>) -> bool {
    forall|i: int|
        0 <= i < b.len() ==> (match spec_field_by_id(fields, (#[trigger] b[i]).0) {
            Some(f) => f.field_type == FieldType::Primitive(b[i].1.ty),
            None => false,
        })
}

/// What a bound decode returns is known to the schema, column by column.
pub proof fn lemma_bounds_from_wire_known(fields: Seq<NestedField>, s: Seq<(i32, Seq<u8>)>)
    requires
        spec_bounds_from_wire(fields, s) is Some,
    ensures
        spec_bounds_known(fields, spec_bounds_from_wire(fields, s).unwrap()),
    decreases s.len(),
{
    if s.len() == 0 {
    } else {
        lemma_bounds_from_wire_known(fields, s.drop_last());
        let init = spec_bounds_from_wire(fields, s.drop_last()).unwrap();
        let whole = spec_bounds_from_wire(fields, s).unwrap();
        match spec_field_by_id(fields, s.last().0) {
            None => {
                assert(whole == init);
            },
            Some(f) => {
                assert forall|i: int|
                    0 <= i < whole.len() implies (match spec_field_by_id(
                    fields,
                    (#[trigger] whole[i]).0,
                ) {
                    Some(g) => g.field_type == FieldType::Primitive(whole[i].1.ty),
                    None => false,
                }) by {
                    if i < init.len() {
                        assert(whole[i] == init[i]);
                    }
                }
            },
        }
    }
}

/// What a wire record decodes to keeps the shape the metadata promises: the
/// partition tuple has the partition type's arity, the spec id is the one
/// decoded under, and every bound names a primitive schema column of its type.
pub proof fn lemma_df_from_wire_shape(
    w: WireDataFileV,
    spec_id: i32,
    ptype: Seq<StructField>,
    fields: Seq<NestedField>,
)
    requires
        spec_df_from_wire(w, spec_id, ptype, fields) is Some,
    ensures
        ({
            let df = spec_df_from_wire(w, spec_id, ptype, fields).unwrap();
            &&& df.partition.len() == ptype.len()
            &&& df.partition_spec_id == spec_id
            &&& spec_bounds_known(fields, df.lower_bounds)
            &&& spec_bounds_known(fields, df.upper_bounds)
        }),
{
    let df = spec_df_from_wire(w, spec_id, ptype, fields).unwrap();
    match w.lower_bounds {
        Some(v) => {
            lemma_bounds_from_wire_known(fields, v);
        },
        None => {},
    }
    match w.upper_bounds {
        Some(v) => {
            lemma_bounds_from_wire_known(fields, v);
        },
        None => {},
    }
}

/// The bound pairs whose column id the schema knows.
pub open spec fn spec_keep_known(fields: Seq<NestedField>, s: Seq<(i32, DatumV)>) -> Seq<
    (i32, DatumV),
>
    decreases s.len(),
{
    if s.len() == 0 {
        Seq::empty()
    } else {
        let init = spec_keep_known(fields, s.drop_last());
        if spec_field_by_id(fields, s.last().0) is Some {
            init.push(s.last())
        } else {
            init
        }
    }
}

/// The record-codec shape of a data file: plain values only, as the container
/// serializer sees them.
pub struct WireDataFile {
    /// The integer code of the content kind.
    pub content: i32,
    /// The file path.
    pub file_path: String,
    /// The upper-case file format name.
    pub file_format: String,
    /// The partition tuple values.
    pub partition: Vec<Option<PrimitiveLiteral>>,
    /// The record count as a signed long.
    pub record_count: i64,
    /// The file size as a signed long.
    pub file_size_in_bytes: i64,
    /// Column sizes by column id.
    pub column_sizes: Option<Vec<(i32, i64)>>,
    /// Value counts by column id.
    pub value_counts: Option<Vec<(i32, i64)>>,
    /// Null value counts by column id.
    pub null_value_counts: Option<Vec<(i32, i64)>>,
    /// NaN value counts by column id.
    pub nan_value_counts: Option<Vec<(i32, i64)>>,
    /// Serialized lower bounds by column id.
    pub lower_bounds: Option<Vec<(i32, Vec<u8>)>>,
    /// Serialized upper bounds by column id.
    pub upper_bounds: Option<Vec<(i32, Vec<u8>)>>,
    /// Key metadata bytes.
    pub key_metadata: Option<Vec<u8>>,
    /// Split offsets.
    pub split_offsets: Option<Vec<i64>>,
    /// Equality ids.
    pub equality_ids: Option<Vec<i32>>,
    /// Sort order id.
    pub sort_order_id: Option<i32>,
}

/// The mathematical value of a wire data file.
#[verifier::ext_equal]
pub struct WireDataFileV {
    /// The integer code of the content kind.
    pub content: i32,
    /// The file path characters.
    pub file_path: Seq<char>,
    /// The file format name characters.
    pub file_format: Seq<char>,
    /// The partition tuple values.
    pub partition: Seq<Option<LitV>>,
    /// The record count.
    pub record_count: i64,
    /// The file size.
    pub file_size_in_bytes: i64,
    /// Column sizes.
    pub column_sizes: Option<Seq<(i32, i64)>>,
    /// Value counts.
    pub value_counts: Option<Seq<(i32, i64)>>,
    /// Null value counts.
    pub null_value_counts: Option<Seq<(i32, i64)>>,
    /// NaN value counts.
    pub nan_value_counts: Option<Seq<(i32, i64)>>,
    /// Serialized lower bounds.
    pub lower_bounds: Option<Seq<(i32, Seq<u8>)>>,
    /// Serialized upper bounds.
    pub upper_bounds: Option<Seq<(i32, Seq<u8>)>>,
    /// Key metadata bytes.
    pub key_metadata: Option<Seq<u8>>,
    /// Split offsets.
    pub split_offsets: Option<Seq<i64>>,
    /// Equality ids.
    pub equality_ids: Option<Seq<i32>>,
    /// Sort order id.
    pub sort_order_id: Option<i32>,
}

impl View for WireDataFile {
    type V = WireDataFileV;

    open spec fn view(&self) -> WireDataFileV {
        WireDataFileV {
            content: self.content,
            file_path: self.file_path@,
            file_format: self.file_format@,
            partition: Seq::new(self.partition@.len(), |i: int| opt_lit_view(self.partition@[i])),
            record_count: self.record_count,
            file_size_in_bytes: self.file_size_in_bytes,
            column_sizes: match &self.column_sizes {
                Some(v) => Some(v@),
                None => None,
            },
            value_counts: match &self.value_counts {
                Some(v) => Some(v@),
                None => None,
            },
            null_value_counts: match &self.null_value_counts {
                Some(v) => Some(v@),
                None => None,
            },
            nan_value_counts: match &self.nan_value_counts {
                Some(v) => Some(v@),
                None => None,
            },
            lower_bounds: match &self.lower_bounds {
                Some(v) => Some(spec_wire_bounds_view(v@)),
                None => None,
            },
            upper_bounds: match &self.upper_bounds {
                Some(v) => Some(spec_wire_bounds_view(v@)),
                None => None,
            },
            key_metadata: match &self.key_metadata {
                Some(v) => Some(v@),
                None => None,
            },
            split_offsets: match &self.split_offsets {
                Some(v) => Some(v@),
                None => None,
            },
            equality_ids: match &self.equality_ids {
                Some(v) => Some(v@),
                None => None,
            },
            sort_order_id: self.sort_order_id,
        }
    }
}

/// The record-codec shape of a version 2 manifest entry.
pub struct WireEntryV2 {
    /// The integer code of the status.
    pub status: i32,
    /// The snapshot id, nullable.
    pub snapshot_id: Option<i64>,
    /// The data sequence number, nullable.
    pub sequence_number: Option<i64>,
    /// The file sequence number, nullable.
    pub file_sequence_number: Option<i64>,
    /// The tracked file.
    pub data_file: WireDataFile,
}

/// The record-codec shape of a version 1 manifest entry.
pub struct WireEntryV1 {
    /// The integer code of the status.
    pub status: i32,
    /// The snapshot id, required in version 1.
    pub snapshot_id: i64,
    /// The tracked file.
    pub data_file: WireDataFile,
}

/// The upper-case format name a file format is written as.
pub open spec fn spec_format_name(f: DataFileFormat) -> Seq<char> {
    match f {
        DataFileFormat::Avro => "AVRO"@,
        DataFileFormat::Orc => "ORC"@,
        DataFileFormat::Parquet => "PARQUET"@,
    }
}

/// Whether a partition tuple fits a partition struct type: same arity, and
/// every present element compatible with its field's type.
pub open spec fn spec_partition_fits(
    partition: Seq<Option<LitV>>,
    ptype: Seq<StructField>,
) -> bool {
    partition.len() == ptype.len() && forall|i: int|
        0 <= i < partition.len() ==> match #[trigger] partition[i] {
            Some(l) => spec_compatible(ptype[i].ty, l),
            None => true,
        }
}

/// The wire form of a data file: defined when the counts and sizes fit signed
/// longs and the partition tuple fits the partition type.
pub open spec fn spec_df_to_wire(df: DataFileV, ptype: Seq<StructField>) -> Option<WireDataFileV> {
    if df.record_count <= 0x7fff_ffff_ffff_ffff && df.file_size_in_bytes <= 0x7fff_ffff_ffff_ffff
        && spec_partition_fits(df.partition, ptype) && spec_counts_to_wire(
        df.column_sizes,
    ) is Some && spec_counts_to_wire(df.value_counts) is Some && spec_counts_to_wire(
        df.null_value_counts,
    ) is Some && spec_counts_to_wire(df.nan_value_counts) is Some {
        Some(
            WireDataFileV {
                content: spec_content_code(df.content),
                file_path: df.file_path,
                file_format: spec_format_name(df.file_format),
                partition: df.partition,
                record_count: df.record_count as i64,
                file_size_in_bytes: df.file_size_in_bytes as i64,
                column_sizes: Some(spec_counts_to_wire(df.column_sizes).unwrap()),
                value_counts: Some(spec_counts_to_wire(df.value_counts).unwrap()),
                null_value_counts: Some(spec_counts_to_wire(df.null_value_counts).unwrap()),
                nan_value_counts: Some(spec_counts_to_wire(df.nan_value_counts).unwrap()),
                lower_bounds: Some(spec_bounds_to_wire(df.lower_bounds)),
                upper_bounds: Some(spec_bounds_to_wire(df.upper_bounds)),
                key_metadata: df.key_metadata,
                split_offsets: Some(df.split_offsets),
                equality_ids: Some(df.equality_ids),
                sort_order_id: df.sort_order_id,
            },
        )
    } else {
        None
    }
}

/// The data file a wire record decodes to: the content code and format name
/// must be known, the counts nonnegative, the partition tuple must fit the
/// partition type, and the bounds must decode against the schema.
pub open spec fn spec_df_from_wire(
    w: WireDataFileV,
    spec_id: i32,
    ptype: Seq<StructField>,
    fields: Seq<NestedField>,
) -> Option<DataFileV> {
    if 0 <= w.content <= 2 && spec_format_of_chars(w.file_format) is Some && w.record_count >= 0
        && w.file_size_in_bytes >= 0 && spec_partition_fits(w.partition, ptype) && (
    w.lower_bounds is Some ==> spec_bounds_from_wire(fields, w.lower_bounds.unwrap()) is Some) && (
    w.upper_bounds is Some ==> spec_bounds_from_wire(fields, w.upper_bounds.unwrap()) is Some) {
        Some(
            DataFileV {
                content: if w.content == 0 {
                    DataContentType::Data
                } else if w.content == 1 {
                    DataContentType::PositionDeletes
                } else {
                    DataContentType::EqualityDeletes
                },
                file_path: w.file_path,
                file_format: spec_format_of_chars(w.file_format).unwrap(),
                partition: w.partition,
                record_count: w.record_count as u64,
                file_size_in_bytes: w.file_size_in_bytes as u64,
                column_sizes: match w.column_sizes {
                    Some(v) => spec_counts_from_wire(v),
                    None => Seq::empty(),
                },
                value_counts: match w.value_counts {
                    Some(v) => spec_counts_from_wire(v),
                    None => Seq::empty(),
                },
                null_value_counts: match w.null_value_counts {
                    Some(v) => spec_counts_from_wire(v),
                    None => Seq::empty(),
                },
                nan_value_counts: match w.nan_value_counts {
                    Some(v) => spec_counts_from_wire(v),
                    None => Seq::empty(),
                },
                lower_bounds: match w.lower_bounds {
                    Some(v) => spec_bounds_from_wire(fields, v).unwrap(),
                    None => Seq::empty(),
                },
                upper_bounds: match w.upper_bounds {
                    Some(v) => spec_bounds_from_wire(fields, v).unwrap(),
                    None => Seq::empty(),
                },
                key_metadata: w.key_metadata,
                split_offsets: match w.split_offsets {
                    Some(v) => v,
                    None => Seq::empty(),
                },
                equality_ids: match w.equality_ids {
                    Some(v) => v,
                    None => Seq::empty(),
                },
                sort_order_id: w.sort_order_id,
                partition_spec_id: spec_id,
            },
        )
    } else {
        None
    }
}

/// Check a partition tuple against a partition struct type.
fn check_partition(partition: &Vec<Option<PrimitiveLiteral>>, ptype: &StructType) -> (r: bool)
    ensures
        r == spec_partition_fits(
            Seq::new(partition@.len(), |i: int| opt_lit_view(partition@[i])),
            ptype.fields@,
        ),
{
    let ghost pv = Seq::new(partition@.len(), |i: int| opt_lit_view(partition@[i]));
    if partition.len() != ptype.fields.len() {
        return false;
    }
    let n = partition.len();
    let mut i: usize = 0;
    while i < n
        invariant
            i <= n,
            n == partition@.len(),
            n == ptype.fields@.len(),
            pv == Seq::new(partition@.len(), |j: int| opt_lit_view(partition@[j])),
            forall|j: int|
                0 <= j < i ==> match #[trigger] pv[j] {
                    Some(l) => spec_compatible(ptype.fields@[j].ty, l),
                    None => true,
                },
        decreases n - i,
    {
        match &partition[i] {
            Some(l) => {
                if !ptype.fields[i].ty.compatible(l) {
                    proof {
                        assert(pv[i as int] == Some(l@));
                    }
                    return false;
                }
                proof {
                    assert(pv[i as int] == Some(l@));
                }
            },
            None => {
                proof {
                    assert(pv[i as int] is None);
                }
            },
        }
        i = i + 1;
    }
    true
}

/// Turn a data file into its wire shape. Fails when a count or size does not
/// fit a signed long, or when the partition tuple does not fit the partition
/// type.
pub fn datafile_to_wire(df: DataFile, ptype: &StructType) -> (r: Result<WireDataFile, Error>)
    ensures
        r matches Ok(w) ==> spec_df_to_wire(df@, ptype.fields@) == Some(w@),
        r is Err ==> spec_df_to_wire(df@, ptype.fields@) is None,
{
    if df.record_count > 0x7fff_ffff_ffff_ffff {
        return Err(Error::data_invalid("the record count does not fit a signed long".to_owned()));
    }
    if df.file_size_in_bytes > 0x7fff_ffff_ffff_ffff {
        return Err(Error::data_invalid("the file size does not fit a signed long".to_owned()));
    }
    if !check_partition(&df.partition.fields, ptype) {
        return Err(
            Error::data_invalid("the partition tuple does not fit the partition type".to_owned()),
        );
    }
    let column_sizes = match to_i64_entry(&df.column_sizes) {
        Ok(v) => v,
        Err(e) => {
            return Err(e);
        },
    };
    let value_counts = match to_i64_entry(&df.value_counts) {
        Ok(v) => v,
        Err(e) => {
            return Err(e);
        },
    };
    let null_value_counts = match to_i64_entry(&df.null_value_counts) {
        Ok(v) => v,
        Err(e) => {
            return Err(e);
        },
    };
    let nan_value_counts = match to_i64_entry(&df.nan_value_counts) {
        Ok(v) => v,
        Err(e) => {
            return Err(e);
        },
    };
    let lower_bounds = to_bytes_entry(&df.lower_bounds);
    let upper_bounds = to_bytes_entry(&df.upper_bounds);
    let w = WireDataFile {
        content: df.content.code(),
        file_path: df.file_path,
        file_format: df.file_format.to_upper_name(),
        partition: df.partition.fields,
        record_count: df.record_count as i64,
        file_size_in_bytes: df.file_size_in_bytes as i64,
        column_sizes: Some(column_sizes),
        value_counts: Some(value_counts),
        null_value_counts: Some(null_value_counts),
        nan_value_counts: Some(nan_value_counts),
        lower_bounds: Some(lower_bounds),
        upper_bounds: Some(upper_bounds),
        key_metadata: df.key_metadata,
        split_offsets: Some(df.split_offsets),
        equality_ids: Some(df.equality_ids),
        sort_order_id: df.sort_order_id,
    };
    proof {
        assert(spec_wire_bounds_view(w.lower_bounds.unwrap()@) =~= spec_bounds_to_wire(
            df@.lower_bounds,
        ));
        assert(spec_wire_bounds_view(w.upper_bounds.unwrap()@) =~= spec_bounds_to_wire(
            df@.upper_bounds,
        ));
        assert(w@.partition =~= df@.partition);
        assert(spec_df_to_wire(df@, ptype.fields@).unwrap() =~= w@);
    }
    Ok(w)
}

/// Turn a wire record into a data file. Fails on an unknown content code or
/// format name, a negative count or size, a partition tuple that does not fit
/// the partition type, or bounds that do not decode against the schema.
pub fn wire_to_datafile(
    w: WireDataFile,
    partition_spec_id: i32,
    ptype: &StructType,
    schema: &Schema,
) -> (r: Result<DataFile, Error>)
    ensures
        r matches Ok(df) ==> spec_df_from_wire(w@, partition_spec_id, ptype.fields@, schema.fields@)
            == Some(df@),
        r is Err ==> spec_df_from_wire(
            w@,
            partition_spec_id,
            ptype.fields@,
            schema.fields@,
        ) is None,
{
    let content = match DataContentType::try_from_code(w.content) {
        Ok(c) => c,
        Err(e) => {
            return Err(e);
        },
    };
    let file_format = match DataFileFormat::parse(w.file_format.as_str()) {
        Ok(f) => f,
        Err(e) => {
            return Err(e);
        },
    };
    if w.record_count < 0 {
        return Err(Error::data_invalid("the record count is negative".to_owned()));
    }
    if w.file_size_in_bytes < 0 {
        return Err(Error::data_invalid("the file size is negative".to_owned()));
    }
    if !check_partition(&w.partition, ptype) {
        return Err(
            Error::data_invalid("the partition tuple does not fit the partition type".to_owned()),
        );
    }
    let lower_bounds = match &w.lower_bounds {
        Some(v) => match parse_bytes_entry(v, schema) {
            Ok(b) => b,
            Err(e) => {
                return Err(e);
            },
        },
        None => Vec::new(),
    };
    let upper_bounds = match &w.upper_bounds {
        Some(v) => match parse_bytes_entry(v, schema) {
            Ok(b) => b,
            Err(e) => {
                return Err(e);
            },
        },
        None => Vec::new(),
    };
    let df = DataFile {
        content,
        file_path: w.file_path,
        file_format,
        partition: Struct { fields: w.partition },
        record_count: w.record_count as u64,
        file_size_in_bytes: w.file_size_in_bytes as u64,
        column_sizes: match w.column_sizes {
            Some(v) => parse_i64_entry(v),
            None => Vec::new(),
        },
        value_counts: match w.value_counts {
            Some(v) => parse_i64_entry(v),
            None => Vec::new(),
        },
        null_value_counts: match w.null_value_counts {
            Some(v) => parse_i64_entry(v),
            None => Vec::new(),
        },
        nan_value_counts: match w.nan_value_counts {
            Some(v) => parse_i64_entry(v),
            None => Vec::new(),
        },
        lower_bounds,
        upper_bounds,
        key_metadata: w.key_metadata,
        split_offsets: match w.split_offsets {
            Some(v) => v,
            None => Vec::new(),
        },
        equality_ids: match w.equality_ids {
            Some(v) => v,
            None => Vec::new(),
        },
        sort_order_id: w.sort_order_id,
        partition_spec_id,
    };
    proof {
        let expect = spec_df_from_wire(
            w@,
            partition_spec_id,
            ptype.fields@,
            schema.fields@,
        ).unwrap();
        assert(df@.column_sizes =~= expect.column_sizes);
        assert(df@.value_counts =~= expect.value_counts);
        assert(df@.null_value_counts =~= expect.null_value_counts);
        assert(df@.nan_value_counts =~= expect.nan_value_counts);
        assert(df@.split_offsets =~= expect.split_offsets);
        assert(df@.equality_ids =~= expect.equality_ids);
        assert(df@ =~= expect);
    }
    Ok(df)
}

/// The mathematical value of a version 2 wire entry.
#[verifier::ext_equal]
pub struct WireEntryV2V {
    /// The status code.
    pub status: i32,
    /// The snapshot id, nullable.
    pub snapshot_id: Option<i64>,
    /// The data sequence number, nullable.
    pub sequence_number: Option<i64>,
    /// The file sequence number, nullable.
    pub file_sequence_number: Option<i64>,
    /// The tracked file.
    pub data_file: WireDataFileV,
}

impl View for WireEntryV2 {
    type V = WireEntryV2V;

    open spec fn view(&self) -> WireEntryV2V {
        WireEntryV2V {
            status: self.status,
            snapshot_id: self.snapshot_id,
            sequence_number: self.sequence_number,
            file_sequence_number: self.file_sequence_number,
            data_file: self.data_file@,
        }
    }
}

/// The mathematical value of a version 1 wire entry.
#[verifier::ext_equal]
pub struct WireEntryV1V {
    /// The status code.
    pub status: i32,
    /// The snapshot id.
    pub snapshot_id: i64,
    /// The tracked file.
    pub data_file: WireDataFileV,
}

impl View for WireEntryV1 {
    type V = WireEntryV1V;

    open spec fn view(&self) -> WireEntryV1V {
        WireEntryV1V {
            status: self.status,
            snapshot_id: self.snapshot_id,
            data_file: self.data_file@,
        }
    }
}

/// The version 2 wire form of an entry.
pub open spec fn spec_entry_to_wire_v2(e: EntryV, ptype: Seq<StructField>) -> Option<WireEntryV2V> {
    match spec_df_to_wire(e.data_file, ptype) {
        Some(w) => Some(
            WireEntryV2V {
                status: spec_status_code(e.status),
                snapshot_id: e.snapshot_id,
                sequence_number: e.sequence_number,
                file_sequence_number: e.file_sequence_number,
                data_file: w,
            },
        ),
        None => None,
    }
}

/// The entry a version 2 wire record decodes to.
pub open spec fn spec_entry_from_wire_v2(
    w: WireEntryV2V,
    spec_id: i32,
    ptype: Seq<StructField>,
    fields: Seq<NestedField>,
) -> Option<EntryV> {
    if 0 <= w.status <= 2 {
        match spec_df_from_wire(w.data_file, spec_id, ptype, fields) {
            Some(df) => Some(
                EntryV {
                    status: if w.status == 0 {
                        ManifestStatus::Existing
                    } else if w.status == 1 {
                        ManifestStatus::Added
                    } else {
                        ManifestStatus::Deleted
                    },
                    snapshot_id: w.snapshot_id,
                    sequence_number: w.sequence_number,
                    file_sequence_number: w.file_sequence_number,
                    data_file: df,
                },
            ),
            None => None,
        }
    } else {
        None
    }
}

/// The version 1 wire form of an entry: a missing snapshot id becomes zero.
pub open spec fn spec_entry_to_wire_v1(e: EntryV, ptype: Seq<StructField>) -> Option<WireEntryV1V> {
    match spec_df_to_wire(e.data_file, ptype) {
        Some(w) => Some(
            WireEntryV1V {
                status: spec_status_code(e.status),
                snapshot_id: match e.snapshot_id {
                    Some(s) => s,
                    None => 0,
                },
                data_file: w,
            },
        ),
        None => None,
    }
}

/// The entry a version 1 wire record decodes to: the snapshot id is taken from
/// the record and both sequence numbers become zero.
pub open spec fn spec_entry_from_wire_v1(
    w: WireEntryV1V,
    spec_id: i32,
    ptype: Seq<StructField>,
    fields: Seq<NestedField>,
) -> Option<EntryV> {
    if 0 <= w.status <= 2 {
        match spec_df_from_wire(w.data_file, spec_id, ptype, fields) {
            Some(df) => Some(
                EntryV {
                    status: if w.status == 0 {
                        ManifestStatus::Existing
                    } else if w.status == 1 {
                        ManifestStatus::Added
                    } else {
                        ManifestStatus::Deleted
                    },
                    snapshot_id: Some(w.snapshot_id),
                    sequence_number: Some(0),
                    file_sequence_number: Some(0),
                    data_file: df,
                },
            ),
            None => None,
        }
    } else {
        None
    }
}

/// Turn an entry into its version 2 wire shape.
pub fn entry_to_wire_v2(e: ManifestEntry, ptype: &StructType) -> (r: Result<WireEntryV2, Error>)
    ensures
        r matches Ok(w) ==> spec_entry_to_wire_v2(e@, ptype.fields@) == Some(w@),
        r is Err ==> spec_entry_to_wire_v2(e@, ptype.fields@) is None,
{
    let data_file = match datafile_to_wire(e.data_file, ptype) {
        Ok(w) => w,
        Err(err) => {
            return Err(err);
        },
    };
    Ok(
        WireEntryV2 {
            status: e.status.code(),
            snapshot_id: e.snapshot_id,
            sequence_number: e.sequence_number,
            file_sequence_number: e.file_sequence_number,
            data_file,
        },
    )
}

/// Turn a version 2 wire record into an entry.
pub fn wire_to_entry_v2(
    w: WireEntryV2,
    partition_spec_id: i32,
    ptype: &StructType,
    schema: &Schema,
) -> (r: Result<ManifestEntry, Error>)
    ensures
        r matches Ok(e) ==> spec_entry_from_wire_v2(
            w@,
            partition_spec_id,
            ptype.fields@,
            schema.fields@,
        ) == Some(e@),
        r is Err ==> spec_entry_from_wire_v2(
            w@,
            partition_spec_id,
            ptype.fields@,
            schema.fields@,
        ) is None,
{
    let status = match ManifestStatus::try_from_code(w.status) {
        Ok(s) => s,
        Err(e) => {
            return Err(e);
        },
    };
    let data_file = match wire_to_datafile(w.data_file, partition_spec_id, ptype, schema) {
        Ok(df) => df,
        Err(e) => {
            return Err(e);
        },
    };
    Ok(
        ManifestEntry {
            status,
            snapshot_id: w.snapshot_id,
            sequence_number: w.sequence_number,
            file_sequence_number: w.file_sequence_number,
            data_file,
        },
    )
}

/// Turn an entry into its version 1 wire shape.
pub fn entry_to_wire_v1(e: ManifestEntry, ptype: &StructType) -> (r: Result<WireEntryV1, Error>)
    ensures
        r matches Ok(w) ==> spec_entry_to_wire_v1(e@, ptype.fields@) == Some(w@),
        r is Err ==> spec_entry_to_wire_v1(e@, ptype.fields@) is None,
{
    let data_file = match datafile_to_wire(e.data_file, ptype) {
        Ok(w) => w,
        Err(err) => {
            return Err(err);
        },
    };
    Ok(
        WireEntryV1 {
            status: e.status.code(),
            snapshot_id: match e.snapshot_id {
                Some(s) => s,
                None => 0,
            },
            data_file,
        },
    )
}

/// Turn a version 1 wire record into an entry: the sequence numbers become
/// zero, as the version 1 format predates them.
pub fn wire_to_entry_v1(
    w: WireEntryV1,
    partition_spec_id: i32,
    ptype: &StructType,
    schema: &Schema,
) -> (r: Result<ManifestEntry, Error>)
    ensures
        r matches Ok(e) ==> spec_entry_from_wire_v1(
            w@,
            partition_spec_id,
            ptype.fields@,
            schema.fields@,
        ) == Some(e@),
        r is Err ==> spec_entry_from_wire_v1(
            w@,
            partition_spec_id,
            ptype.fields@,
            schema.fields@,
        ) is None,
{
    let status = match ManifestStatus::try_from_code(w.status) {
        Ok(s) => s,
        Err(e) => {
            return Err(e);
        },
    };
    let data_file = match wire_to_datafile(w.data_file, partition_spec_id, ptype, schema) {
        Ok(df) => df,
        Err(e) => {
            return Err(e);
        },
    };
    Ok(
        ManifestEntry {
            status,
            snapshot_id: Some(w.snapshot_id),
            sequence_number: Some(0),
            file_sequence_number: Some(0),
            data_file,
        },
    )
}

/// When every bound id is known to the schema, dropping unknown ids changes
/// nothing.
proof fn lemma_keep_known_id(fields: Seq<NestedField>, s: Seq<(i32, DatumV)>)
    requires
        forall|i: int| 0 <= i < s.len() ==> spec_field_by_id(fields, (#[trigger] s[i]).0) is Some,
    ensures
        spec_keep_known(fields, s) == s,
    decreases s.len(),
{
    if s.len() == 0 {
        assert(spec_keep_known(fields, s) =~= s);
    } else {
        lemma_keep_known_id(fields, s.drop_last());
        assert(spec_keep_known(fields, s) =~= s);
    }
}

/// ASCII-lowercasing the written format names gives the lower-case words the
/// parser compares against.
proof fn lemma_format_name_roundtrip(f: DataFileFormat)
    ensures
        spec_format_of_chars(spec_format_name(f)) == Some(f),
{
    reveal_strlit("AVRO");
    reveal_strlit("avro");
    reveal_strlit("ORC");
    reveal_strlit("orc");
    reveal_strlit("PARQUET");
    reveal_strlit("parquet");
    match f {
        DataFileFormat::Avro => {
            assert(spec_ascii_lower_seq("AVRO"@) =~= "avro"@);
        },
        DataFileFormat::Orc => {
            assert(spec_ascii_lower_seq("ORC"@) =~= "orc"@);
            assert(spec_ascii_lower_seq("ORC"@).len() != "avro"@.len());
        },
        DataFileFormat::Parquet => {
            assert(spec_ascii_lower_seq("PARQUET"@) =~= "parquet"@);
            assert(spec_ascii_lower_seq("PARQUET"@).len() != "avro"@.len());
            assert(spec_ascii_lower_seq("PARQUET"@).len() != "orc"@.len());
        },
    }
}

/// The conditions under which a data file round-trips through its wire form:
/// its counts and sizes fit signed longs, its partition tuple fits the
/// partition type, and every bound column id names a primitive schema column
/// of the bound's type, with the declared length for fixed columns.
pub open spec fn spec_df_roundtrips(
    df: DataFileV,
    ptype: Seq<StructField>,
    fields: Seq<NestedField>,
) -> bool {
    &&& spec_df_to_wire(df, ptype) is Some
    &&& forall|i: int|
        0 <= i < df.lower_bounds.len() ==> {
            let p = #[trigger] df.lower_bounds[i];
            &&& spec_field_by_id(fields, p.0) matches Some(f) && f.field_type
                == FieldType::Primitive(p.1.ty)
            &&& spec_compatible(p.1.ty, p.1.lit)
            &&& (p.1.ty matches PrimitiveType::Fixed(n) ==> (p.1.lit matches LitV::Bytes(b)
                && b.len() == n))
        }
    &&& forall|i: int|
        0 <= i < df.upper_bounds.len() ==> {
            let p = #[trigger] df.upper_bounds[i];
            &&& spec_field_by_id(fields, p.0) matches Some(f) && f.field_type
                == FieldType::Primitive(p.1.ty)
            &&& spec_compatible(p.1.ty, p.1.lit)
            &&& (p.1.ty matches PrimitiveType::Fixed(n) ==> (p.1.lit matches LitV::Bytes(b)
                && b.len() == n))
        }
}

/// A data file that meets [`spec_df_roundtrips`] reads back from its wire form
/// exactly, with the partition spec id it is decoded under.
pub proof fn lemma_df_roundtrip(df: DataFileV, ptype: Seq<StructField>, fields: Seq<NestedField>)
    requires
        spec_df_roundtrips(df, ptype, fields),
    ensures
        spec_df_from_wire(spec_df_to_wire(df, ptype).unwrap(), df.partition_spec_id, ptype, fields)
            == Some(df),
{
    let w = spec_df_to_wire(df, ptype).unwrap();
    lemma_format_name_roundtrip(df.file_format);
    lemma_counts_roundtrip(df.column_sizes);
    lemma_counts_roundtrip(df.value_counts);
    lemma_counts_roundtrip(df.null_value_counts);
    lemma_counts_roundtrip(df.nan_value_counts);
    lemma_bounds_roundtrip(fields, df.lower_bounds);
    lemma_bounds_roundtrip(fields, df.upper_bounds);
    lemma_keep_known_id(fields, df.lower_bounds);
    lemma_keep_known_id(fields, df.upper_bounds);
    let back = spec_df_from_wire(w, df.partition_spec_id, ptype, fields);
    assert(back is Some);
    assert(back.unwrap() =~= df);
}

/// Round-trip of a version 2 entry through its wire form: for every entry
/// whose data file meets [`spec_df_roundtrips`], decoding the encoded record
/// under the same partition type and schema gives the entry back unchanged.
pub proof fn lemma_entry_roundtrip_v2(
    e: EntryV,
    ptype: Seq<StructField>,
    fields: Seq<NestedField>,
)
    requires
        spec_df_roundtrips(e.data_file, ptype, fields),
    ensures
        spec_entry_from_wire_v2(
            spec_entry_to_wire_v2(e, ptype).unwrap(),
            e.data_file.partition_spec_id,
            ptype,
            fields,
        ) == Some(e),
{
    lemma_df_roundtrip(e.data_file, ptype, fields);
    let w = spec_entry_to_wire_v2(e, ptype).unwrap();
    let back = spec_entry_from_wire_v2(w, e.data_file.partition_spec_id, ptype, fields);
    assert(back.unwrap() =~= e);
}

/// Round-trip of a version 1 entry through its wire form: the entry reads back
/// with its snapshot id made explicit (a missing one becomes zero) and both
/// sequence numbers synthesized as zero, exactly the version 1 defaults.
pub proof fn lemma_entry_roundtrip_v1(
    e: EntryV,
    ptype: Seq<StructField>,
    fields: Seq<NestedField>,
)
    requires
        spec_df_roundtrips(e.data_file, ptype, fields),
    ensures
        spec_entry_from_wire_v1(
            spec_entry_to_wire_v1(e, ptype).unwrap(),
            e.data_file.partition_spec_id,
            ptype,
            fields,
        ) == Some(
            EntryV {
                snapshot_id: Some(
                    match e.snapshot_id {
                        Some(s) => s,
                        None => 0,
                    },
                ),
                sequence_number: Some(0),
                file_sequence_number: Some(0),
                ..e
            },
        ),
{
    lemma_df_roundtrip(e.data_file, ptype, fields);
    let w = spec_entry_to_wire_v1(e, ptype).unwrap();
    let back = spec_entry_from_wire_v1(w, e.data_file.partition_spec_id, ptype, fields);
    assert(back.unwrap() =~= EntryV {
        snapshot_id: Some(
            match e.snapshot_id {
                Some(s) => s,
                None => 0,
            },
        ),
        sequence_number: Some(0),
        file_sequence_number: Some(0),
        ..e
    });
}

} // verus!
