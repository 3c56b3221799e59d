//! The manifest value model: entries, data files, statuses, formats, manifest
//! metadata, and the summary record a writer hands to the manifest-list layer.
use vstd::prelude::*;

use crate::error::Error;
use crate::schema::{PartitionSpec, Schema};
use crate::values::{spec_bounds_view, Datum, DatumV, LitV, PrimitiveLiteral};
use vstd::string::StrSliceExecFns;

verus! {

/// A sequence number that the manifest-list layer will assign at commit.
pub const UNASSIGNED_SEQUENCE_NUMBER: i64 = -1;

/// The sequence number of the first snapshot of a table.
pub const INITIAL_SEQUENCE_NUMBER: i64 = 0;

/// A snapshot id that is not assigned yet.
pub const UNASSIGNED_SNAPSHOT_ID: i64 = -1;

/// The on-disk format version of a manifest.
#[derive(Debug, Clone, Copy, PartialEq, Eq, Structural)]
pub enum FormatVersion {
    /// Version 1.
    V1,
    /// Version 2.
    V2,
}

/// What kind of files a manifest tracks: data files or delete files.
#[derive(Debug, Clone, Copy, PartialEq, Eq, Structural)]
pub enum ManifestContentType {
    /// The manifest tracks data files.
    Data,
    /// The manifest tracks delete files.
    Deletes,
}

/// The change a manifest entry records.
#[derive(Debug, Clone, Copy, PartialEq, Eq, Structural)]
pub enum ManifestStatus {
    /// The file existed before the snapshot.
    Existing,
    /// The file was added by the snapshot.
    Added,
    /// The file was removed by the snapshot; informational only.
    Deleted,
}

/// The integer code of a status on disk.
pub open spec fn spec_status_code(s: ManifestStatus) -> i32 {
    match s {
        ManifestStatus::Existing => 0,
        ManifestStatus::Added => 1,
        ManifestStatus::Deleted => 2,
    }
}

impl ManifestStatus {
    /// The integer code of this status on disk.
    pub fn code(&self) -> (r: i32)
        ensures
            r == spec_status_code(*self),
    {
        match self {
            ManifestStatus::Existing => 0,
            ManifestStatus::Added => 1,
            ManifestStatus::Deleted => 2,
        }
    }

    /// The status a code stands for: zero, one and two are valid, anything
    /// else is rejected.
    pub fn try_from_code(v: i32) -> (r: Result<ManifestStatus, Error>)
        ensures
            r matches Ok(s) ==> spec_status_code(s) == v,
            r is Ok <==> 0 <= v <= 2,
    {
        match v {
            0 => Ok(ManifestStatus::Existing),
            1 => Ok(ManifestStatus::Added),
            2 => Ok(ManifestStatus::Deleted),
            _ => Err(Error::data_invalid("manifest status is invalid".to_owned())),
        }
    }
}

/// The kind of content a single file holds.
#[derive(Debug, Clone, Copy, PartialEq, Eq, Structural)]
pub enum DataContentType {
    /// Table rows.
    Data,
    /// Deletes by file and position.
    PositionDeletes,
    /// Deletes by column equality.
    EqualityDeletes,
}

/// The integer code of a content kind on disk.
pub open spec fn spec_content_code(c: DataContentType) -> i32 {
    match c {
        DataContentType::Data => 0,
        DataContentType::PositionDeletes => 1,
        DataContentType::EqualityDeletes => 2,
    }
}

impl DataContentType {
    /// The integer code of this content kind on disk.
    pub fn code(&self) -> (r: i32)
        ensures
            r == spec_content_code(*self),
    {
        match self {
            DataContentType::Data => 0,
            DataContentType::PositionDeletes => 1,
            DataContentType::EqualityDeletes => 2,
        }
    }

    /// The content kind a code stands for: zero, one and two are valid,
    /// anything else is rejected.
    pub fn try_from_code(v: i32) -> (r: Result<DataContentType, Error>)
        ensures
            r matches Ok(c) ==> spec_content_code(c) == v,
            r is Ok <==> 0 <= v <= 2,
    {
        match v {
            0 => Ok(DataContentType::Data),
            1 => Ok(DataContentType::PositionDeletes),
            2 => Ok(DataContentType::EqualityDeletes),
            _ => Err(Error::data_invalid("data content type is invalid".to_owned())),
        }
    }
}

/// The file format of a tracked file.
#[derive(Debug, Clone, Copy, PartialEq, Eq, Structural)]
pub enum DataFileFormat {
    /// Apache Avro.
    Avro,
    /// Apache ORC.
    Orc,
    /// Apache Parquet.
    Parquet,
}

/// ASCII lowercasing of one character.
pub open spec fn spec_ascii_lower(c: char) -> char {
    if 'A' <= c <= 'Z' {
        ((c as u32) + 32) as char
    } else {
        c
    }
}

/// ASCII lowercasing of a character sequence.
pub open spec fn spec_ascii_lower_seq(s: Seq<char>) -> Seq<char> {
    Seq::new(s.len(), |i: int| spec_ascii_lower(s[i]))
}

/// The file format a name stands for, compared without regard to ASCII case.
pub open spec fn spec_format_of_chars(s: Seq<char>) -> Option<DataFileFormat> {
    let l = spec_ascii_lower_seq(s);
    if l == "avro"@ {
        Some(DataFileFormat::Avro)
    } else if l == "orc"@ {
        Some(DataFileFormat::Orc)
    } else if l == "parquet"@ {
        Some(DataFileFormat::Parquet)
    } else {
        None
    }
}

/// Compare a string against an ASCII-lowercase word, folding ASCII case.
fn eq_ignore_ascii_case(s: &str, word: &str) -> (r: bool)
    ensures
        r == (spec_ascii_lower_seq(s@) == word@),
{
    let n = s.unicode_len();
    let m = word.unicode_len();
    if n != m {
        proof {
            assert(spec_ascii_lower_seq(s@).len() == s@.len());
        }
        return false;
    }
    let mut i: usize = 0;
    while i < n
        invariant
            i <= n,
            n == s@.len(),
            n == word@.len(),
            forall|j: int| 0 <= j < i ==> spec_ascii_lower(s@[j]) == word@[j],
        decreases n - i,
    {
        let c = s.get_char(i);
        let cu = c as u32;
        let lcu = if 'A' <= c && c <= 'Z' {
            cu + 32
        } else {
            cu
        };
        if lcu != word.get_char(i) as u32 {
            proof {
                assert(spec_ascii_lower_seq(s@)[i as int] == spec_ascii_lower(s@[i as int]));
            }
            return false;
        }
        i = i + 1;
    }
    proof {
        assert(spec_ascii_lower_seq(s@) =~= word@);
    }
    true
}

impl DataFileFormat {
    /// Parse a file format name without regard to ASCII case.
    pub fn parse(s: &str) -> (r: Result<DataFileFormat, Error>)
        ensures
            r matches Ok(f) ==> spec_format_of_chars(s@) == Some(f),
            r is Err ==> spec_format_of_chars(s@) is None,
    {
        if eq_ignore_ascii_case(s, "avro") {
            Ok(DataFileFormat::Avro)
        } else if eq_ignore_ascii_case(s, "orc") {
            Ok(DataFileFormat::Orc)
        } else if eq_ignore_ascii_case(s, "parquet") {
            Ok(DataFileFormat::Parquet)
        } else {
            Err(Error::data_invalid("unsupported data file format".to_owned()))
        }
    }

    /// The upper-case name written to disk.
    pub fn to_upper_name(&self) -> (r: String)
        ensures
            *self == DataFileFormat::Avro ==> r@ == "AVRO"@,
            *self == DataFileFormat::Orc ==> r@ == "ORC"@,
            *self == DataFileFormat::Parquet ==> r@ == "PARQUET"@,
    {
        match self {
            DataFileFormat::Avro => "AVRO".to_owned(),
            DataFileFormat::Orc => "ORC".to_owned(),
            DataFileFormat::Parquet => "PARQUET".to_owned(),
        }
    }

    /// The lower-case name used in messages.
    pub fn to_lower_name(&self) -> (r: String)
        ensures
            *self == DataFileFormat::Avro ==> r@ == "avro"@,
            *self == DataFileFormat::Orc ==> r@ == "orc"@,
            *self == DataFileFormat::Parquet ==> r@ == "parquet"@,
    {
        match self {
            DataFileFormat::Avro => "avro".to_owned(),
            DataFileFormat::Orc => "orc".to_owned(),
            DataFileFormat::Parquet => "parquet".to_owned(),
        }
    }
}

/// A partition tuple: one optional primitive literal per partition field.
#[derive(Debug, Clone, PartialEq, Eq)]
pub struct Struct {
    /// The elements, in partition-spec order.
    pub fields: Vec<Option<PrimitiveLiteral>>,
}

impl View for Struct {
    type V = Seq<Option<LitV>>;

    open spec fn view(&self) -> Seq<Option<LitV>> {
        Seq::new(self.fields@.len(), |i: int| crate::values::opt_lit_view(self.fields@[i]))
    }
}

impl Struct {
    /// The empty partition tuple of an unpartitioned table.
    pub fn empty() -> (r: Struct)
        ensures
            r.fields@.len() == 0,
    {
        Struct { fields: Vec::new() }
    }

    /// A partition tuple from its elements.
    pub fn from_vec(fields: Vec<Option<PrimitiveLiteral>>) -> (r: Struct)
        ensures
            r.fields@ == fields@,
    {
        Struct { fields }
    }

    /// The elements of the tuple.
    pub fn fields(&self) -> (r: &Vec<Option<PrimitiveLiteral>>)
        ensures
            r == &self.fields,
    {
        &self.fields
    }
}

/// The metrics and location of one tracked file.
#[derive(Debug, Clone, PartialEq, Eq)]
pub struct DataFile {
    /// What the file holds: data, position deletes or equality deletes.
    pub content: DataContentType,
    /// Full URI of the file, with a filesystem scheme.
    pub file_path: String,
    /// The format of the file.
    pub file_format: DataFileFormat,
    /// The partition tuple, one element per partition field.
    pub partition: Struct,
    /// Number of records in the file.
    pub record_count: u64,
    /// Total file size in bytes.
    pub file_size_in_bytes: u64,
    /// Per column id, total stored size of the column on disk. This and the
    /// other per-column maps are lists of id/value pairs in wire order; ids
    /// are expected unique, and pairs a foreign manifest repeats are kept.
    pub column_sizes: Vec<(i32, u64)>,
    /// Per column id, number of values including nulls and NaNs.
    pub value_counts: Vec<(i32, u64)>,
    /// Per column id, number of null values.
    pub null_value_counts: Vec<(i32, u64)>,
    /// Per column id, number of NaN values.
    pub nan_value_counts: Vec<(i32, u64)>,
    /// Per column id, the serialized lower bound of the column.
    pub lower_bounds: Vec<(i32, Datum)>,
    /// Per column id, the serialized upper bound of the column.
    pub upper_bounds: Vec<(i32, Datum)>,
    /// Implementation-specific key metadata for encryption.
    pub key_metadata: Option<Vec<u8>>,
    /// Split offsets, ascending.
    pub split_offsets: Vec<i64>,
    /// Column ids that decide row equality in equality delete files.
    pub equality_ids: Vec<i32>,
    /// The sort order of the file, if any.
    pub sort_order_id: Option<i32>,
    /// The id of the partition spec the tuple was produced by; kept in memory
    /// only, never written.
    pub partition_spec_id: i32,
}

impl DataFile {
    /// What the file holds.
    pub fn content_type(&self) -> (r: DataContentType)
        ensures
            r == self.content,
    {
        self.content
    }

    /// The full URI of the file.
    pub fn file_path(&self) -> (r: &str)
        ensures
            r@ == self.file_path@,
    {
        self.file_path.as_str()
    }

    /// The format of the file.
    pub fn file_format(&self) -> (r: DataFileFormat)
        ensures
            r == self.file_format,
    {
        self.file_format
    }

    /// The partition tuple of the file.
    pub fn partition(&self) -> (r: &Struct)
        ensures
            r == &self.partition,
    {
        &self.partition
    }

    /// The number of records in the file.
    pub fn record_count(&self) -> (r: u64)
        ensures
            r == self.record_count,
    {
        self.record_count
    }

    /// The total file size in bytes.
    pub fn file_size_in_bytes(&self) -> (r: u64)
        ensures
            r == self.file_size_in_bytes,
    {
        self.file_size_in_bytes
    }

    /// Per column id, the stored size of the column.
    pub fn column_sizes(&self) -> (r: &Vec<(i32, u64)>)
        ensures
            r == &self.column_sizes,
    {
        &self.column_sizes
    }

    /// Per column id, the number of values.
    pub fn value_counts(&self) -> (r: &Vec<(i32, u64)>)
        ensures
            r == &self.value_counts,
    {
        &self.value_counts
    }

    /// Per column id, the number of null values.
    pub fn null_value_counts(&self) -> (r: &Vec<(i32, u64)>)
        ensures
            r == &self.null_value_counts,
    {
        &self.null_value_counts
    }

    /// Per column id, the number of NaN values.
    pub fn nan_value_counts(&self) -> (r: &Vec<(i32, u64)>)
        ensures
            r == &self.nan_value_counts,
    {
        &self.nan_value_counts
    }

    /// Per column id, the lower bound of the column.
    pub fn lower_bounds(&self) -> (r: &Vec<(i32, Datum)>)
        ensures
            r == &self.lower_bounds,
    {
        &self.lower_bounds
    }

    /// Per column id, the upper bound of the column.
    pub fn upper_bounds(&self) -> (r: &Vec<(i32, Datum)>)
        ensures
            r == &self.upper_bounds,
    {
        &self.upper_bounds
    }

    /// The key metadata of the file, if any.
    pub fn key_metadata(&self) -> (r: Option<&Vec<u8>>)
        ensures
            match r {
                Some(v) => self.key_metadata matches Some(k) && v == &k,
                None => self.key_metadata is None,
            },
    {
        match &self.key_metadata {
            Some(v) => Some(v),
            None => None,
        }
    }

    /// The split offsets of the file.
    pub fn split_offsets(&self) -> (r: &Vec<i64>)
        ensures
            r == &self.split_offsets,
    {
        &self.split_offsets
    }

    /// The equality ids of the file.
    pub fn equality_ids(&self) -> (r: &Vec<i32>)
        ensures
            r == &self.equality_ids,
    {
        &self.equality_ids
    }

    /// The sort order id of the file, if any.
    pub fn sort_order_id(&self) -> (r: Option<i32>)
        ensures
            r == self.sort_order_id,
    {
        self.sort_order_id
    }
}

/// The mathematical value of a data file: strings and buffers as sequences.
#[verifier::ext_equal]
pub struct DataFileV {
    /// What the file holds.
    pub content: DataContentType,
    /// The characters of the file path.
    pub file_path: Seq<char>,
    /// The format of the file.
    pub file_format: DataFileFormat,
    /// The partition tuple values.
    pub partition: Seq<Option<LitV>>,
    /// Number of records.
    pub record_count: u64,
    /// File size in bytes.
    pub file_size_in_bytes: u64,
    /// Column sizes by column id.
    pub column_sizes: Seq<(i32, u64)>,
    /// Value counts by column id.
    pub value_counts: Seq<(i32, u64)>,
    /// Null value counts by column id.
    pub null_value_counts: Seq<(i32, u64)>,
    /// NaN value counts by column id.
    pub nan_value_counts: Seq<(i32, u64)>,
    /// Lower bounds by column id.
    pub lower_bounds: Seq<(i32, DatumV)>,
    /// Upper bounds by column id.
    pub upper_bounds: Seq<(i32, DatumV)>,
    /// Key metadata bytes, if any.
    pub key_metadata: Option<Seq<u8>>,
    /// Split offsets.
    pub split_offsets: Seq<i64>,
    /// Equality ids.
    pub equality_ids: Seq<i32>,
    /// Sort order id, if any.
    pub sort_order_id: Option<i32>,
    /// The id of the partition spec of the tuple.
    pub partition_spec_id: i32,
}

impl View for DataFile {
    type V = DataFileV;

    open spec fn view(&self) -> DataFileV {
        DataFileV {
            content: self.content,
            file_path: self.file_path@,
            file_format: self.file_format,
            partition: self.partition@,
            record_count: self.record_count,
            file_size_in_bytes: self.file_size_in_bytes,
            column_sizes: self.column_sizes@,
            value_counts: self.value_counts@,
            null_value_counts: self.null_value_counts@,
            nan_value_counts: self.nan_value_counts@,
            lower_bounds: spec_bounds_view(self.lower_bounds@),
            upper_bounds: spec_bounds_view(self.upper_bounds@),
            key_metadata: match &self.key_metadata {
                Some(v) => Some(v@),
                None => None,
            },
            split_offsets: self.split_offsets@,
            equality_ids: self.equality_ids@,
            sort_order_id: self.sort_order_id,
            partition_spec_id: self.partition_spec_id,
        }
    }
}

/// The mathematical value of a manifest entry.
#[verifier::ext_equal]
pub struct EntryV {
    /// The change recorded.
    pub status: ManifestStatus,
    /// The snapshot id, if assigned.
    pub snapshot_id: Option<i64>,
    /// The data sequence number, if assigned.
    pub sequence_number: Option<i64>,
    /// The file sequence number, if assigned.
    pub file_sequence_number: Option<i64>,
    /// The tracked file.
    pub data_file: DataFileV,
}

/// One line of a manifest: a status and a tracked file with its sequencing.
#[derive(Debug, Clone, PartialEq, Eq)]
pub struct ManifestEntry {
    /// The change this entry records.
    pub status: ManifestStatus,
    /// The snapshot that added or deleted the file; inherited when absent.
    pub snapshot_id: Option<i64>,
    /// The data sequence number; inherited when absent and status is Added.
    pub sequence_number: Option<i64>,
    /// The file sequence number; inherited when absent and status is Added.
    pub file_sequence_number: Option<i64>,
    /// The tracked file.
    pub data_file: DataFile,
}

impl View for ManifestEntry {
    type V = EntryV;

    open spec fn view(&self) -> EntryV {
        EntryV {
            status: self.status,
            snapshot_id: self.snapshot_id,
            sequence_number: self.sequence_number,
            file_sequence_number: self.file_sequence_number,
            data_file: self.data_file@,
        }
    }
}

/// Whether an entry is visible to scans.
pub open spec fn spec_is_alive(status: ManifestStatus) -> bool {
    status == ManifestStatus::Added || status == ManifestStatus::Existing
}

impl ManifestEntry {
    /// Whether this entry is visible to scans: its status is Added or Existing.
    pub fn is_alive(&self) -> (r: bool)
        ensures
            r == spec_is_alive(self.status),
    {
        matches!(self.status, ManifestStatus::Added | ManifestStatus::Existing)
    }

    /// The status of this entry.
    pub fn status(&self) -> (r: ManifestStatus)
        ensures
            r == self.status,
    {
        self.status
    }

    /// The content type of the tracked file.
    pub fn content_type(&self) -> (r: DataContentType)
        ensures
            r == self.data_file.content,
    {
        self.data_file.content
    }

    /// The format of the tracked file.
    pub fn file_format(&self) -> (r: DataFileFormat)
        ensures
            r == self.data_file.file_format,
    {
        self.data_file.file_format
    }

    /// The path of the tracked file.
    pub fn file_path(&self) -> (r: &str)
        ensures
            r@ == self.data_file.file_path@,
    {
        self.data_file.file_path.as_str()
    }

    /// The record count of the tracked file.
    pub fn record_count(&self) -> (r: u64)
        ensures
            r == self.data_file.record_count,
    {
        self.data_file.record_count
    }

    /// The snapshot id of this entry, if assigned.
    pub fn snapshot_id(&self) -> (r: Option<i64>)
        ensures
            r == self.snapshot_id,
    {
        self.snapshot_id
    }

    /// The data sequence number of this entry, if assigned.
    pub fn sequence_number(&self) -> (r: Option<i64>)
        ensures
            r == self.sequence_number,
    {
        self.sequence_number
    }

    /// The file size of the tracked file.
    pub fn file_size_in_bytes(&self) -> (r: u64)
        ensures
            r == self.data_file.file_size_in_bytes,
    {
        self.data_file.file_size_in_bytes
    }

    /// The tracked file.
    pub fn data_file(&self) -> (r: &DataFile)
        ensures
            r == &self.data_file,
    {
        &self.data_file
    }

    /// Fill the values this entry inherits from the manifest list: an absent
    /// snapshot id becomes the manifest's; absent sequence numbers become the
    /// manifest's when the entry was added by it or the table is at its first
    /// sequence number.
    pub fn inherit_data(&mut self, snapshot_entry: &ManifestFile)
        ensures
            final(self).status == old(self).status,
            final(self).data_file == old(self).data_file,
            final(self).snapshot_id == if old(self).snapshot_id is None {
                Some(snapshot_entry.added_snapshot_id)
            } else {
                old(self).snapshot_id
            },
            final(self).sequence_number == if old(self).sequence_number is None && (old(
                self,
            ).status == ManifestStatus::Added || snapshot_entry.sequence_number
                == INITIAL_SEQUENCE_NUMBER) {
                Some(snapshot_entry.sequence_number)
            } else {
                old(self).sequence_number
            },
            final(self).file_sequence_number == if old(self).file_sequence_number is None && (old(
                self,
            ).status == ManifestStatus::Added || snapshot_entry.sequence_number
                == INITIAL_SEQUENCE_NUMBER) {
                Some(snapshot_entry.sequence_number)
            } else {
                old(self).file_sequence_number
            },
    {
        if self.snapshot_id.is_none() {
            self.snapshot_id = Some(snapshot_entry.added_snapshot_id);
        }
        if self.sequence_number.is_none() && (matches!(self.status, ManifestStatus::Added)
            || snapshot_entry.sequence_number == INITIAL_SEQUENCE_NUMBER) {
            self.sequence_number = Some(snapshot_entry.sequence_number);
        }
        if self.file_sequence_number.is_none() && (matches!(self.status, ManifestStatus::Added)
            || snapshot_entry.sequence_number == INITIAL_SEQUENCE_NUMBER) {
            self.file_sequence_number = Some(snapshot_entry.sequence_number);
        }
    }
}

/// The metadata a manifest carries in its container user metadata.
#[derive(Debug, Clone, PartialEq, Eq)]
pub struct ManifestMetadata {
    /// The table schema at the time the manifest was written.
    pub schema: Schema,
    /// The id of that schema.
    pub schema_id: i32,
    /// The partition spec used to write the manifest.
    pub partition_spec: PartitionSpec,
    /// The format version of the manifest.
    pub format_version: FormatVersion,
    /// What kind of files the manifest tracks.
    pub content: ManifestContentType,
}

impl ManifestMetadata {
    /// Build manifest metadata from its parts.
    pub fn new(
        schema: Schema,
        schema_id: i32,
        partition_spec: PartitionSpec,
        format_version: FormatVersion,
        content: ManifestContentType,
    ) -> (r: ManifestMetadata)
        ensures
            r == (ManifestMetadata { schema, schema_id, partition_spec, format_version, content }),
    {
        ManifestMetadata { schema, schema_id, partition_spec, format_version, content }
    }

    /// The table schema at the time the manifest was written.
    pub fn schema(&self) -> (r: &Schema)
        ensures
            r == &self.schema,
    {
        &self.schema
    }

    /// The id of the schema used to write the manifest.
    pub fn schema_id(&self) -> (r: i32)
        ensures
            r == self.schema_id,
    {
        self.schema_id
    }

    /// The partition spec used to write the manifest.
    pub fn partition_spec(&self) -> (r: &PartitionSpec)
        ensures
            r == &self.partition_spec,
    {
        &self.partition_spec
    }

    /// The format version of the manifest.
    pub fn format_version(&self) -> (r: &FormatVersion)
        ensures
            r == &self.format_version,
    {
        &self.format_version
    }

    /// What kind of files the manifest tracks.
    pub fn content(&self) -> (r: &ManifestContentType)
        ensures
            r == &self.content,
    {
        &self.content
    }
}

/// A parsed manifest: its metadata and its entries.
#[derive(Debug, Clone, PartialEq, Eq)]
pub struct Manifest {
    /// The metadata read from the container.
    pub metadata: ManifestMetadata,
    /// The entries, in file order.
    pub entries: Vec<ManifestEntry>,
}

impl Manifest {
    /// Build a manifest from metadata and entries.
    pub fn new(metadata: ManifestMetadata, entries: Vec<ManifestEntry>) -> (r: Manifest)
        ensures
            r.metadata == metadata,
            r.entries@ == entries@,
    {
        Manifest { metadata, entries }
    }

    /// The entries of the manifest.
    pub fn entries(&self) -> (r: &Vec<ManifestEntry>)
        ensures
            r == &self.entries,
    {
        &self.entries
    }

    /// Take the manifest apart into entries and metadata.
    pub fn into_parts(self) -> (r: (Vec<ManifestEntry>, ManifestMetadata))
        ensures
            r.0@ == self.entries@,
            r.1 == self.metadata,
    {
        let Manifest { entries, metadata } = self;
        (entries, metadata)
    }
}

/// The mathematical value of a field summary.
#[verifier::ext_equal]
pub struct SummaryV {
    /// Whether a null partition value was seen.
    pub contains_null: bool,
    /// Whether a NaN partition value was seen, if recorded.
    pub contains_nan: Option<bool>,
    /// The smallest value seen, if any.
    pub lower_bound: Option<DatumV>,
    /// The largest value seen, if any.
    pub upper_bound: Option<DatumV>,
}

/// The summary of one partition field across all entries of a manifest.
#[derive(Debug, Clone, PartialEq, Eq)]
pub struct FieldSummary {
    /// Whether any entry holds a null partition value for the field.
    pub contains_null: bool,
    /// Whether any entry holds a NaN partition value for the field; `Some(false)`
    /// after a finished aggregation means no NaN was observed.
    pub contains_nan: Option<bool>,
    /// The smallest non-null, non-NaN partition value, if any.
    pub lower_bound: Option<Datum>,
    /// The largest non-null, non-NaN partition value, if any.
    pub upper_bound: Option<Datum>,
}

impl View for FieldSummary {
    type V = SummaryV;

    open spec fn view(&self) -> SummaryV {
        SummaryV {
            contains_null: self.contains_null,
            contains_nan: self.contains_nan,
            lower_bound: match self.lower_bound {
                Some(d) => Some(d@),
                None => None,
            },
            upper_bound: match self.upper_bound {
                Some(d) => Some(d@),
                None => None,
            },
        }
    }
}

impl Default for FieldSummary {
    /// The summary before any value was seen.
    fn default() -> (r: FieldSummary)
        ensures
            r == (FieldSummary {
                contains_null: false,
                contains_nan: None::<bool>,
                lower_bound: None::<Datum>,
                upper_bound: None::<Datum>,
            }),
    {
        FieldSummary { contains_null: false, contains_nan: None, lower_bound: None, upper_bound: None }
    }
}

/// The summary record of a written manifest, handed to the manifest-list
/// layer, which later assigns the sequence numbers.
#[derive(Debug, Clone, PartialEq, Eq)]
pub struct ManifestFile {
    /// Where the manifest was written.
    pub manifest_path: String,
    /// The length of the written container in bytes.
    pub manifest_length: i64,
    /// The id of the partition spec the entries were partitioned by.
    pub partition_spec_id: i32,
    /// What kind of files the manifest tracks.
    pub content: ManifestContentType,
    /// Assigned at commit; [`UNASSIGNED_SEQUENCE_NUMBER`] until then.
    pub sequence_number: i64,
    /// The smallest data sequence number among alive entries that carry one;
    /// [`UNASSIGNED_SEQUENCE_NUMBER`] when no such entry exists.
    pub min_sequence_number: i64,
    /// The snapshot that added the manifest.
    pub added_snapshot_id: i64,
    /// Number of entries with status Added.
    pub added_files_count: Option<u32>,
    /// Number of entries with status Existing.
    pub existing_files_count: Option<u32>,
    /// Number of entries with status Deleted.
    pub deleted_files_count: Option<u32>,
    /// Rows in entries with status Added.
    pub added_rows_count: Option<u64>,
    /// Rows in entries with status Existing.
    pub existing_rows_count: Option<u64>,
    /// Rows in entries with status Deleted.
    pub deleted_rows_count: Option<u64>,
    /// Per partition field, the summary of the values across entries.
    pub partitions: Vec<FieldSummary>,
    /// Implementation-specific key metadata for encryption.
    pub key_metadata: Vec<u8>,
}

} // verus!
