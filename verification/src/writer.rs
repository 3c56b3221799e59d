//! The manifest writer: a builder fixing format version and content type, six
//! append operations that assign statuses and sequence numbers, running
//! counters, and the minimum alive sequence number.
use vstd::prelude::*;

use crate::avro::{
    manifest_schema_v1_json, manifest_schema_v2_json, ocf_write, spec_avro_type_supported,
    spec_meta_view, wire_entry_v1_to_value, wire_entry_v2_to_value,
};
use crate::error::Error;
use crate::json::{
    partition_fields_json, render_i32, schema_json, spec_partition_fields_json, spec_render_i32,
    spec_schema_json,
};
use crate::manifest::{
    spec_is_alive, DataContentType, DataFile, FieldSummary, FormatVersion, ManifestContentType,
    ManifestEntry, ManifestFile, ManifestMetadata, ManifestStatus, UNASSIGNED_SEQUENCE_NUMBER,
    UNASSIGNED_SNAPSHOT_ID,
};
use crate::schema::{PartitionSpec, Schema, StructField, StructType};
use crate::stats::{
    spec_empty_summary, spec_finish_summary, spec_fold_summary, PartitionFieldStats,
};
use crate::values::LitV;
use crate::wire::{entry_to_wire_v1, entry_to_wire_v2, spec_df_to_wire};
use vstd::utf8::encode_utf8;
use apache_avro::types::Value as AvroValue;
use vstd::string::StrSliceExecFns;
use vstd::string::StringExecFns;

verus! {

/// The values one partition column takes across a sequence of entries.
pub open spec fn spec_column(entries: Seq<ManifestEntry>, c: int) -> Seq<Option<LitV>> {
    Seq::new(entries.len(), |k: int| entries[k].data_file@.partition[c])
}

/// When the partition summaries of a sequence of entries can be built: every
/// entry's partition tuple has the partition type's arity, and every column
/// folds (no value of the wrong shape for its column).
pub open spec fn spec_summaries_ok(entries: Seq<ManifestEntry>, ptype: Seq<StructField>) -> bool {
    &&& forall|k: int|
        0 <= k < entries.len() ==> (#[trigger] entries[k]).data_file@.partition.len()
            == ptype.len()
    &&& forall|c: int|
        0 <= c < ptype.len() ==> spec_fold_summary(
            ptype[c].ty,
            spec_empty_summary(),
            #[trigger] spec_column(entries, c),
        ) is Some
}

/// How many entries of a sequence carry the given status.
pub open spec fn spec_count_files(entries: Seq<ManifestEntry>, status: ManifestStatus) -> int
    decreases entries.len(),
{
    if entries.len() == 0 {
        0
    } else {
        spec_count_files(entries.drop_last(), status) + if entries.last().status == status {
            1int
        } else {
            0int
        }
    }
}

/// How many rows the entries of a sequence with the given status hold.
pub open spec fn spec_count_rows(entries: Seq<ManifestEntry>, status: ManifestStatus) -> int
    decreases entries.len(),
{
    if entries.len() == 0 {
        0
    } else {
        spec_count_rows(entries.drop_last(), status) + if entries.last().status == status {
            entries.last().data_file.record_count as int
        } else {
            0int
        }
    }
}

/// The smallest data sequence number among alive entries that carry one.
pub open spec fn spec_min_seq(entries: Seq<ManifestEntry>) -> Option<i64>
    decreases entries.len(),
{
    if entries.len() == 0 {
        None
    } else {
        let rest = spec_min_seq(entries.drop_last());
        let e = entries.last();
        if spec_is_alive(e.status) && e.sequence_number is Some {
            match rest {
                None => e.sequence_number,
                Some(m) => if e.sequence_number.unwrap() < m {
                    e.sequence_number
                } else {
                    Some(m)
                },
            }
        } else {
            rest
        }
    }
}

/// Whether a file's content kind is allowed in a manifest of the given
/// content type: a data manifest takes only data files, a deletes manifest
/// only position or equality deletes.
pub open spec fn spec_content_ok(manifest: ManifestContentType, content: DataContentType) -> bool {
    match manifest {
        ManifestContentType::Data => content == DataContentType::Data,
        ManifestContentType::Deletes => content == DataContentType::PositionDeletes || content
            == DataContentType::EqualityDeletes,
    }
}

/// Whether an entry respects the sequencing rule: entries with status Existing
/// or Deleted carry both sequence numbers.
pub open spec fn spec_seq_rule_ok(e: ManifestEntry) -> bool {
    (e.status == ManifestStatus::Deleted || e.status == ManifestStatus::Existing) ==> (
    e.sequence_number is Some && e.file_sequence_number is Some)
}

/// The builder of a manifest writer: it captures the output location, the
/// snapshot id, key metadata, the table schema and the partition spec; the
/// three build methods fix the legal combinations of format version and
/// content type.
pub struct ManifestWriterBuilder {
    /// Where the manifest will be written.
    pub output_path: String,
    /// The snapshot id assigned to added and deleted entries.
    pub snapshot_id: Option<i64>,
    /// Key metadata copied into the summary.
    pub key_metadata: Vec<u8>,
    /// The table schema at write time.
    pub schema: Schema,
    /// The partition spec the entries are partitioned by.
    pub partition_spec: PartitionSpec,
}

impl ManifestWriterBuilder {
    /// Capture what every manifest written here shares.
    pub fn new(
        output_path: String,
        snapshot_id: Option<i64>,
        key_metadata: Vec<u8>,
        schema: Schema,
        partition_spec: PartitionSpec,
    ) -> (r: ManifestWriterBuilder)
        ensures
            r.output_path@ == output_path@,
            r.snapshot_id == snapshot_id,
            r.key_metadata@ == key_metadata@,
            r.schema == schema,
            r.partition_spec == partition_spec,
    {
        ManifestWriterBuilder { output_path, snapshot_id, key_metadata, schema, partition_spec }
    }

    /// A writer for a version 1 manifest, which always tracks data files.
    pub fn build_v1(self) -> (r: ManifestWriter)
        ensures
            r.wf(),
            r.manifest_entries@.len() == 0,
            r.snapshot_id == self.snapshot_id,
            r.output_path@ == self.output_path@,
            r.key_metadata@ == self.key_metadata@,
            r.metadata.schema == self.schema,
            r.metadata.schema_id == self.schema.schema_id,
            r.metadata.partition_spec == self.partition_spec,
            r.metadata.format_version == FormatVersion::V1,
            r.metadata.content == ManifestContentType::Data,
    {
        let schema_id = self.schema.schema_id();
        let metadata = ManifestMetadata::new(
            self.schema,
            schema_id,
            self.partition_spec,
            FormatVersion::V1,
            ManifestContentType::Data,
        );
        ManifestWriter::new(self.output_path, self.snapshot_id, self.key_metadata, metadata)
    }

    /// A writer for a version 2 manifest of data files.
    pub fn build_v2_data(self) -> (r: ManifestWriter)
        ensures
            r.wf(),
            r.manifest_entries@.len() == 0,
            r.snapshot_id == self.snapshot_id,
            r.output_path@ == self.output_path@,
            r.key_metadata@ == self.key_metadata@,
            r.metadata.schema == self.schema,
            r.metadata.schema_id == self.schema.schema_id,
            r.metadata.partition_spec == self.partition_spec,
            r.metadata.format_version == FormatVersion::V2,
            r.metadata.content == ManifestContentType::Data,
    {
        let schema_id = self.schema.schema_id();
        let metadata = ManifestMetadata::new(
            self.schema,
            schema_id,
            self.partition_spec,
            FormatVersion::V2,
            ManifestContentType::Data,
        );
        ManifestWriter::new(self.output_path, self.snapshot_id, self.key_metadata, metadata)
    }

    /// A writer for a version 2 manifest of delete files.
    pub fn build_v2_deletes(self) -> (r: ManifestWriter)
        ensures
            r.wf(),
            r.manifest_entries@.len() == 0,
            r.snapshot_id == self.snapshot_id,
            r.output_path@ == self.output_path@,
            r.key_metadata@ == self.key_metadata@,
            r.metadata.schema == self.schema,
            r.metadata.schema_id == self.schema.schema_id,
            r.metadata.partition_spec == self.partition_spec,
            r.metadata.format_version == FormatVersion::V2,
            r.metadata.content == ManifestContentType::Deletes,
    {
        let schema_id = self.schema.schema_id();
        let metadata = ManifestMetadata::new(
            self.schema,
            schema_id,
            self.partition_spec,
            FormatVersion::V2,
            ManifestContentType::Deletes,
        );
        ManifestWriter::new(self.output_path, self.snapshot_id, self.key_metadata, metadata)
    }
}

/// A manifest writer: buffers entries, keeps the per-status counters and the
/// minimum alive sequence number in step with the buffer, and finally emits
/// the container and the summary record.
pub struct ManifestWriter {
    /// Where the manifest will be written; recorded in the summary.
    pub output_path: String,
    /// The snapshot id assigned to added and deleted entries.
    pub snapshot_id: Option<i64>,
    /// Entries with status Added so far.
    pub added_files: u32,
    /// Rows in entries with status Added so far.
    pub added_rows: u64,
    /// Entries with status Existing so far.
    pub existing_files: u32,
    /// Rows in entries with status Existing so far.
    pub existing_rows: u64,
    /// Entries with status Deleted so far.
    pub deleted_files: u32,
    /// Rows in entries with status Deleted so far.
    pub deleted_rows: u64,
    /// The smallest sequence number among alive entries that carry one.
    pub min_seq_num: Option<i64>,
    /// Key metadata copied into the summary.
    pub key_metadata: Vec<u8>,
    /// The buffered entries, in insertion order.
    pub manifest_entries: Vec<ManifestEntry>,
    /// The fixed metadata of the manifest being written.
    pub metadata: ManifestMetadata,
}

impl ManifestWriter {
    /// The counters and the minimum sequence number agree with the buffered
    /// entries, and every buffered entry respects the content-type and
    /// sequencing rules. Constructors establish this and every append keeps
    /// it.
    pub open spec fn wf(&self) -> bool {
        &&& self.added_files as int == spec_count_files(
            self.manifest_entries@,
            ManifestStatus::Added,
        )
        &&& self.existing_files as int == spec_count_files(
            self.manifest_entries@,
            ManifestStatus::Existing,
        )
        &&& self.deleted_files as int == spec_count_files(
            self.manifest_entries@,
            ManifestStatus::Deleted,
        )
        &&& self.added_rows as int == spec_count_rows(self.manifest_entries@, ManifestStatus::Added)
        &&& self.existing_rows as int == spec_count_rows(
            self.manifest_entries@,
            ManifestStatus::Existing,
        )
        &&& self.deleted_rows as int == spec_count_rows(
            self.manifest_entries@,
            ManifestStatus::Deleted,
        )
        &&& self.min_seq_num == spec_min_seq(self.manifest_entries@)
        &&& forall|i: int|
            0 <= i < self.manifest_entries@.len() ==> spec_content_ok(
                self.metadata.content,
                #[trigger] self.manifest_entries@[i].data_file.content,
            ) && spec_seq_rule_ok(self.manifest_entries@[i])
    }

    /// A fresh writer with an empty buffer.
    pub(crate) fn new(
        output_path: String,
        snapshot_id: Option<i64>,
        key_metadata: Vec<u8>,
        metadata: ManifestMetadata,
    ) -> (r: ManifestWriter)
        ensures
            r.wf(),
            r.manifest_entries@.len() == 0,
            r.output_path@ == output_path@,
            r.snapshot_id == snapshot_id,
            r.key_metadata@ == key_metadata@,
            r.metadata == metadata,
    {
        ManifestWriter {
            output_path,
            snapshot_id,
            added_files: 0,
            added_rows: 0,
            existing_files: 0,
            existing_rows: 0,
            deleted_files: 0,
            deleted_rows: 0,
            min_seq_num: None,
            key_metadata,
            manifest_entries: Vec::new(),
            metadata,
        }
    }

    /// Check a file against the manifest's content type.
    fn check_data_file(&self, data_file: &DataFile) -> (r: Result<(), Error>)
        ensures
            r is Ok <==> spec_content_ok(self.metadata.content, data_file.content),
    {
        match self.metadata.content {
            ManifestContentType::Data => {
                if !matches!(data_file.content, DataContentType::Data) {
                    return Err(
                        Error::data_invalid(
                            "a data manifest takes only data files".to_owned(),
                        ),
                    );
                }
            },
            ManifestContentType::Deletes => {
                if !matches!(
                    data_file.content,
                    DataContentType::EqualityDeletes | DataContentType::PositionDeletes
                ) {
                    return Err(
                        Error::data_invalid(
                            "a deletes manifest takes only delete files".to_owned(),
                        ),
                    );
                }
            },
        }
        Ok(())
    }

    /// Whether one more entry fits the counters.
    pub open spec fn spec_counters_fit(&self, e: ManifestEntry) -> bool {
        match e.status {
            ManifestStatus::Added => self.added_files < 0xffff_ffffu32 && self.added_rows
                + e.data_file.record_count <= 0xffff_ffff_ffff_ffffu64,
            ManifestStatus::Existing => self.existing_files < 0xffff_ffffu32 && self.existing_rows
                + e.data_file.record_count <= 0xffff_ffff_ffff_ffffu64,
            ManifestStatus::Deleted => self.deleted_files < 0xffff_ffffu32 && self.deleted_rows
                + e.data_file.record_count <= 0xffff_ffff_ffff_ffffu64,
        }
    }

    /// Buffer an entry whose status and sequencing are already assigned:
    /// enforce the sequencing rule, bump the counter pair of the status, and
    /// fold the sequence number into the minimum when the entry is alive.
    fn add_entry_inner(&mut self, entry: ManifestEntry) -> (r: Result<(), Error>)
        requires
            old(self).wf(),
            spec_content_ok(old(self).metadata.content, entry.data_file.content),
        ensures
            final(self).wf(),
            r is Ok <==> (spec_seq_rule_ok(entry) && old(self).spec_counters_fit(entry)),
            r is Ok ==> final(self).manifest_entries@ == old(self).manifest_entries@.push(entry),
            r is Err ==> *final(self) == *old(self),
            final(self).output_path@ == old(self).output_path@,
            final(self).snapshot_id == old(self).snapshot_id,
            final(self).key_metadata@ == old(self).key_metadata@,
            final(self).metadata == old(self).metadata,
    {
        if matches!(entry.status, ManifestStatus::Deleted | ManifestStatus::Existing) && (
        entry.sequence_number.is_none() || entry.file_sequence_number.is_none()) {
            return Err(
                Error::data_invalid(
                    "an entry with status Existing or Deleted must carry both sequence numbers"
                        .to_owned(),
                ),
            );
        }
        match entry.status {
            ManifestStatus::Added => {
                if self.added_files == 0xffff_ffffu32 || entry.data_file.record_count
                    > 0xffff_ffff_ffff_ffffu64 - self.added_rows {
                    return Err(Error::data_invalid("the manifest is full".to_owned()));
                }
                self.added_files = self.added_files + 1;
                self.added_rows = self.added_rows + entry.data_file.record_count;
            },
            ManifestStatus::Deleted => {
                if self.deleted_files == 0xffff_ffffu32 || entry.data_file.record_count
                    > 0xffff_ffff_ffff_ffffu64 - self.deleted_rows {
                    return Err(Error::data_invalid("the manifest is full".to_owned()));
                }
                self.deleted_files = self.deleted_files + 1;
                self.deleted_rows = self.deleted_rows + entry.data_file.record_count;
            },
            ManifestStatus::Existing => {
                if self.existing_files == 0xffff_ffffu32 || entry.data_file.record_count
                    > 0xffff_ffff_ffff_ffffu64 - self.existing_rows {
                    return Err(Error::data_invalid("the manifest is full".to_owned()));
                }
                self.existing_files = self.existing_files + 1;
                self.existing_rows = self.existing_rows + entry.data_file.record_count;
            },
        }
        if matches!(entry.status, ManifestStatus::Added | ManifestStatus::Existing) {
            if let Some(seq_num) = entry.sequence_number {
                self.min_seq_num = match self.min_seq_num {
                    Some(m) => if seq_num < m {
                        Some(seq_num)
                    } else {
                        Some(m)
                    },
                    None => Some(seq_num),
                };
            }
        }
        self.manifest_entries.push(entry);
        proof {
            let s = self.manifest_entries@;
            assert(s.drop_last() =~= old(self).manifest_entries@);
            assert forall|i: int| 0 <= i < s.len() implies spec_content_ok(
                self.metadata.content,
                #[trigger] s[i].data_file.content,
            ) && spec_seq_rule_ok(s[i]) by {
                if i < s.len() - 1 {
                    assert(s[i] == old(self).manifest_entries@[i]);
                }
            }
        }
        Ok(())
    }

    /// The entry `add_entry` buffers: status Added, the writer's snapshot id,
    /// the sequence number kept only when it is nonnegative, and no file
    /// sequence number.
    pub open spec fn spec_added_entry(e: ManifestEntry, snapshot_id: Option<i64>) -> ManifestEntry {
        ManifestEntry {
            status: ManifestStatus::Added,
            snapshot_id,
            sequence_number: if e.sequence_number matches Some(n) && n >= 0 {
                e.sequence_number
            } else {
                None
            },
            file_sequence_number: None,
            data_file: e.data_file,
        }
    }

    /// Buffer an entry as newly added: its status becomes Added, its snapshot
    /// id the writer's, a negative sequence number is cleared, and the file
    /// sequence number is cleared.
    pub fn add_entry(&mut self, entry: ManifestEntry) -> (r: Result<(), Error>)
        requires
            old(self).wf(),
        ensures
            final(self).wf(),
            r is Ok <==> (spec_content_ok(old(self).metadata.content, entry.data_file.content)
                && old(self).spec_counters_fit(
                Self::spec_added_entry(entry, old(self).snapshot_id),
            )),
            r is Ok ==> final(self).manifest_entries@ == old(self).manifest_entries@.push(
                Self::spec_added_entry(entry, old(self).snapshot_id),
            ),
            r is Err ==> *final(self) == *old(self),
            final(self).output_path@ == old(self).output_path@,
            final(self).snapshot_id == old(self).snapshot_id,
            final(self).key_metadata@ == old(self).key_metadata@,
            final(self).metadata == old(self).metadata,
    {
        if let Err(e) = self.check_data_file(&entry.data_file) {
            return Err(e);
        }
        let keep_seq = match entry.sequence_number {
            Some(n) => n >= 0,
            None => false,
        };
        let new_entry = ManifestEntry {
            status: ManifestStatus::Added,
            snapshot_id: self.snapshot_id,
            sequence_number: if keep_seq {
                entry.sequence_number
            } else {
                None
            },
            file_sequence_number: None,
            data_file: entry.data_file,
        };
        self.add_entry_inner(new_entry)
    }

    /// Buffer a file as newly added with the given data sequence number; a
    /// negative sequence number is treated as not yet assigned.
    pub fn add_file(&mut self, data_file: DataFile, sequence_number: i64) -> (r: Result<(), Error>)
        requires
            old(self).wf(),
        ensures
            final(self).wf(),
            r is Ok <==> (spec_content_ok(old(self).metadata.content, data_file.content) && old(
                self,
            ).spec_counters_fit(
                ManifestEntry {
                    status: ManifestStatus::Added,
                    snapshot_id: old(self).snapshot_id,
                    sequence_number: if sequence_number >= 0 {
                        Some(sequence_number)
                    } else {
                        None
                    },
                    file_sequence_number: None,
                    data_file,
                },
            )),
            r is Ok ==> final(self).manifest_entries@ == old(self).manifest_entries@.push(
                ManifestEntry {
                    status: ManifestStatus::Added,
                    snapshot_id: old(self).snapshot_id,
                    sequence_number: if sequence_number >= 0 {
                        Some(sequence_number)
                    } else {
                        None
                    },
                    file_sequence_number: None,
                    data_file,
                },
            ),
            r is Err ==> *final(self) == *old(self),
            final(self).output_path@ == old(self).output_path@,
            final(self).snapshot_id == old(self).snapshot_id,
            final(self).key_metadata@ == old(self).key_metadata@,
            final(self).metadata == old(self).metadata,
    {
        if let Err(e) = self.check_data_file(&data_file) {
            return Err(e);
        }
        let entry = ManifestEntry {
            status: ManifestStatus::Added,
            snapshot_id: self.snapshot_id,
            sequence_number: if sequence_number >= 0 {
                Some(sequence_number)
            } else {
                None
            },
            file_sequence_number: None,
            data_file,
        };
        self.add_entry_inner(entry)
    }

    /// The entry `add_delete_entry` buffers: status Deleted, the writer's
    /// snapshot id, both sequence numbers preserved.
    pub open spec fn spec_deleted_entry(e: ManifestEntry, snapshot_id: Option<i64>) -> ManifestEntry {
        ManifestEntry { status: ManifestStatus::Deleted, snapshot_id, ..e }
    }

    /// Buffer an entry as deleted: its status becomes Deleted and its snapshot
    /// id the writer's; its sequence numbers are preserved and must both be
    /// present.
    pub fn add_delete_entry(&mut self, entry: ManifestEntry) -> (r: Result<(), Error>)
        requires
            old(self).wf(),
        ensures
            final(self).wf(),
            r is Ok <==> (spec_content_ok(old(self).metadata.content, entry.data_file.content)
                && spec_seq_rule_ok(Self::spec_deleted_entry(entry, old(self).snapshot_id)) && old(
                self,
            ).spec_counters_fit(Self::spec_deleted_entry(entry, old(self).snapshot_id))),
            r is Ok ==> final(self).manifest_entries@ == old(self).manifest_entries@.push(
                Self::spec_deleted_entry(entry, old(self).snapshot_id),
            ),
            r is Err ==> *final(self) == *old(self),
            final(self).output_path@ == old(self).output_path@,
            final(self).snapshot_id == old(self).snapshot_id,
            final(self).key_metadata@ == old(self).key_metadata@,
            final(self).metadata == old(self).metadata,
    {
        if let Err(e) = self.check_data_file(&entry.data_file) {
            return Err(e);
        }
        let new_entry = ManifestEntry {
            status: ManifestStatus::Deleted,
            snapshot_id: self.snapshot_id,
            sequence_number: entry.sequence_number,
            file_sequence_number: entry.file_sequence_number,
            data_file: entry.data_file,
        };
        self.add_entry_inner(new_entry)
    }

    /// Buffer a file as deleted, preserving its original data and file
    /// sequence numbers.
    pub fn add_delete_file(
        &mut self,
        data_file: DataFile,
        sequence_number: i64,
        file_sequence_number: Option<i64>,
    ) -> (r: Result<(), Error>)
        requires
            old(self).wf(),
        ensures
            final(self).wf(),
            r is Ok <==> (spec_content_ok(old(self).metadata.content, data_file.content)
                && file_sequence_number is Some && old(self).spec_counters_fit(
                ManifestEntry {
                    status: ManifestStatus::Deleted,
                    snapshot_id: old(self).snapshot_id,
                    sequence_number: Some(sequence_number),
                    file_sequence_number,
                    data_file,
                },
            )),
            r is Ok ==> final(self).manifest_entries@ == old(self).manifest_entries@.push(
                ManifestEntry {
                    status: ManifestStatus::Deleted,
                    snapshot_id: old(self).snapshot_id,
                    sequence_number: Some(sequence_number),
                    file_sequence_number,
                    data_file,
                },
            ),
            r is Err ==> *final(self) == *old(self),
            final(self).output_path@ == old(self).output_path@,
            final(self).snapshot_id == old(self).snapshot_id,
            final(self).key_metadata@ == old(self).key_metadata@,
            final(self).metadata == old(self).metadata,
    {
        if let Err(e) = self.check_data_file(&data_file) {
            return Err(e);
        }
        let entry = ManifestEntry {
            status: ManifestStatus::Deleted,
            snapshot_id: self.snapshot_id,
            sequence_number: Some(sequence_number),
            file_sequence_number,
            data_file,
        };
        self.add_entry_inner(entry)
    }

    /// The entry `add_existing_entry` buffers: status Existing, everything
    /// else preserved.
    pub open spec fn spec_existing_entry(e: ManifestEntry) -> ManifestEntry {
        ManifestEntry { status: ManifestStatus::Existing, ..e }
    }

    /// Buffer an entry as existing: only its status changes; snapshot id and
    /// both sequence numbers are preserved and the sequence numbers must be
    /// present.
    pub fn add_existing_entry(&mut self, entry: ManifestEntry) -> (r: Result<(), Error>)
        requires
            old(self).wf(),
        ensures
            final(self).wf(),
            r is Ok <==> (spec_content_ok(old(self).metadata.content, entry.data_file.content)
                && spec_seq_rule_ok(Self::spec_existing_entry(entry)) && old(
                self,
            ).spec_counters_fit(Self::spec_existing_entry(entry))),
            r is Ok ==> final(self).manifest_entries@ == old(self).manifest_entries@.push(
                Self::spec_existing_entry(entry),
            ),
            r is Err ==> *final(self) == *old(self),
            final(self).output_path@ == old(self).output_path@,
            final(self).snapshot_id == old(self).snapshot_id,
            final(self).key_metadata@ == old(self).key_metadata@,
            final(self).metadata == old(self).metadata,
    {
        if let Err(e) = self.check_data_file(&entry.data_file) {
            return Err(e);
        }
        let new_entry = ManifestEntry {
            status: ManifestStatus::Existing,
            snapshot_id: entry.snapshot_id,
            sequence_number: entry.sequence_number,
            file_sequence_number: entry.file_sequence_number,
            data_file: entry.data_file,
        };
        self.add_entry_inner(new_entry)
    }

    /// Buffer a file as existing, preserving the snapshot id and sequence
    /// numbers it was committed with.
    pub fn add_existing_file(
        &mut self,
        data_file: DataFile,
        snapshot_id: i64,
        sequence_number: i64,
        file_sequence_number: Option<i64>,
    ) -> (r: Result<(), Error>)
        requires
            old(self).wf(),
        ensures
            final(self).wf(),
            r is Ok <==> (spec_content_ok(old(self).metadata.content, data_file.content)
                && file_sequence_number is Some && old(self).spec_counters_fit(
                ManifestEntry {
                    status: ManifestStatus::Existing,
                    snapshot_id: Some(snapshot_id),
                    sequence_number: Some(sequence_number),
                    file_sequence_number,
                    data_file,
                },
            )),
            r is Ok ==> final(self).manifest_entries@ == old(self).manifest_entries@.push(
                ManifestEntry {
                    status: ManifestStatus::Existing,
                    snapshot_id: Some(snapshot_id),
                    sequence_number: Some(sequence_number),
                    file_sequence_number,
                    data_file,
                },
            ),
            r is Err ==> *final(self) == *old(self),
            final(self).output_path@ == old(self).output_path@,
            final(self).snapshot_id == old(self).snapshot_id,
            final(self).key_metadata@ == old(self).key_metadata@,
            final(self).metadata == old(self).metadata,
    {
        if let Err(e) = self.check_data_file(&data_file) {
            return Err(e);
        }
        let entry = ManifestEntry {
            status: ManifestStatus::Existing,
            snapshot_id: Some(snapshot_id),
            sequence_number: Some(sequence_number),
            file_sequence_number,
            data_file,
        };
        self.add_entry_inner(entry)
    }
}

/// What the library itself checks before handing a manifest to the container
/// serializer: the partition spec resolves against the schema, every resolved
/// column type can stand in the container record schema, every buffered
/// entry's partition tuple fits it, every column folds into a summary, and
/// every entry's counts and sizes fit the wire shape. When any of these
/// fails, emission fails; when all hold, only the container serializer can
/// still refuse.
pub open spec fn spec_emit_conditions(
    entries: Seq<ManifestEntry>,
    schema: Schema,
    pspec: PartitionSpec,
) -> bool {
    &&& crate::schema::spec_partition_type(schema.fields@, pspec.fields@) is Some
    &&& {
        let ptf = crate::schema::spec_partition_type(schema.fields@, pspec.fields@).unwrap();
        &&& forall|c: int|
            0 <= c < ptf.len() ==> spec_avro_type_supported((#[trigger] ptf[c]).ty)
        &&& spec_summaries_ok(entries, ptf)
        &&& forall|k: int|
            0 <= k < entries.len() ==> spec_df_to_wire(
                (#[trigger] entries[k]).data_file@,
                ptf,
            ) is Some
    }
}

/// The user-metadata pairs a manifest container carries: the schema and the
/// partition-field list as JSON text, the two ids in decimal, the format
/// version, and, only in version 2, the content type.
pub open spec fn spec_manifest_user_metadata(m: ManifestMetadata) -> Seq<(Seq<char>, Seq<u8>)> {
    let base = seq![
        ("schema"@, encode_utf8(spec_schema_json(m.schema))),
        ("schema-id"@, encode_utf8(spec_render_i32(m.schema.schema_id))),
        ("partition-spec"@, encode_utf8(spec_partition_fields_json(m.partition_spec.fields@))),
        ("partition-spec-id"@, encode_utf8(spec_render_i32(m.partition_spec.spec_id))),
        (
            "format-version"@,
            encode_utf8(
                if m.format_version == FormatVersion::V1 {
                    "1"@
                } else {
                    "2"@
                },
            ),
        ),
    ];
    if m.format_version == FormatVersion::V2 {
        base.push(
            (
                "content"@,
                encode_utf8(
                    if m.content == ManifestContentType::Data {
                        "data"@
                    } else {
                        "deletes"@
                    },
                ),
            ),
        )
    } else {
        base
    }
}

/// Render the user-metadata pairs of a manifest container.
pub fn manifest_user_metadata(metadata: &ManifestMetadata) -> (r: Vec<(String, Vec<u8>)>)
    ensures
        spec_meta_view(r@) == spec_manifest_user_metadata(*metadata),
{
    let mut meta: Vec<(String, Vec<u8>)> = Vec::new();
    let schema_text = schema_json(&metadata.schema);
    meta.push(("schema".to_owned(), schema_text.as_str().as_bytes_vec()));
    let schema_id_text = render_i32(metadata.schema.schema_id);
    meta.push(("schema-id".to_owned(), schema_id_text.as_str().as_bytes_vec()));
    let spec_text = partition_fields_json(&metadata.partition_spec.fields);
    meta.push(("partition-spec".to_owned(), spec_text.as_str().as_bytes_vec()));
    let spec_id_text = render_i32(metadata.partition_spec.spec_id);
    meta.push(("partition-spec-id".to_owned(), spec_id_text.as_str().as_bytes_vec()));
    meta.push((
        "format-version".to_owned(),
        match metadata.format_version {
            FormatVersion::V1 => "1".to_owned().as_str().as_bytes_vec(),
            FormatVersion::V2 => "2".to_owned().as_str().as_bytes_vec(),
        },
    ));
    if matches!(metadata.format_version, FormatVersion::V2) {
        meta.push((
            "content".to_owned(),
            match metadata.content {
                ManifestContentType::Data => "data".to_owned().as_str().as_bytes_vec(),
                ManifestContentType::Deletes => "deletes".to_owned().as_str().as_bytes_vec(),
            },
        ));
    }
    proof {
        assert(spec_meta_view(meta@) =~= spec_manifest_user_metadata(*metadata));
    }
    meta
}

impl ManifestWriter {
    /// Fold every entry's partition tuple, column by column, into the field
    /// summaries. Succeeds exactly when every entry's tuple has the spec's
    /// arity and every present value fits its column's type; the summaries are
    /// then the finished folds of the columns.
    fn construct_partition_summaries(&self, partition_type: &StructType) -> (r: Result<
        Vec<FieldSummary>,
        Error,
    >)
        ensures
            r is Ok <==> spec_summaries_ok(self.manifest_entries@, partition_type.fields@),
            r matches Ok(v) ==> {
                &&& v@.len() == partition_type.fields@.len()
                &&& forall|c: int|
                    #![trigger spec_column(self.manifest_entries@, c)]
                    0 <= c < v@.len() ==> spec_fold_summary(
                        partition_type.fields@[c].ty,
                        spec_empty_summary(),
                        spec_column(self.manifest_entries@, c),
                    ) is Some && v@[c]@ == spec_finish_summary(
                        spec_fold_summary(
                            partition_type.fields@[c].ty,
                            spec_empty_summary(),
                            spec_column(self.manifest_entries@, c),
                        ).unwrap(),
                    )
            },
    {
        let cols = partition_type.fields.len();
        let mut stats: Vec<PartitionFieldStats> = Vec::new();
        let mut c: usize = 0;
        while c < cols
            invariant
                c <= cols,
                cols == partition_type.fields@.len(),
                stats@.len() == c,
                forall|j: int|
                    0 <= j < c ==> (#[trigger] stats@[j]).partition_type
                        == partition_type.fields@[j].ty && stats@[j].summary@
                        == spec_empty_summary(),
            decreases cols - c,
        {
            stats.push(PartitionFieldStats::new(partition_type.fields[c].ty));
            c = c + 1;
        }
        let n = self.manifest_entries.len();
        let mut k: usize = 0;
        proof {
            assert forall|j: int| 0 <= j < cols implies spec_fold_summary(
                partition_type.fields@[j].ty,
                spec_empty_summary(),
                spec_column(self.manifest_entries@.take(0), j),
            ) == Some((#[trigger] stats@[j]).summary@) by {
                assert(spec_column(self.manifest_entries@.take(0), j) =~= Seq::<
                    Option<LitV>,
                >::empty());
            }
        }
        while k < n
            invariant
                k <= n,
                n == self.manifest_entries@.len(),
                cols == partition_type.fields@.len(),
                stats@.len() == cols,
                forall|j: int|
                    0 <= j < k ==> (#[trigger] self.manifest_entries@[j]).data_file@.partition.len()
                        == cols,
                forall|j: int|
                    0 <= j < cols ==> (#[trigger] stats@[j]).partition_type
                        == partition_type.fields@[j].ty && spec_fold_summary(
                        partition_type.fields@[j].ty,
                        spec_empty_summary(),
                        spec_column(self.manifest_entries@.take(k as int), j),
                    ) == Some(stats@[j].summary@),
            decreases n - k,
        {
            let partition = &self.manifest_entries[k].data_file.partition;
            proof {
                assert(self.manifest_entries@[k as int].data_file@.partition.len()
                    == partition.fields@.len());
            }
            if partition.fields.len() != cols {
                proof {
                    assert(!spec_summaries_ok(self.manifest_entries@, partition_type.fields@));
                }
                return Err(
                    Error::data_invalid(
                        "an entry's partition tuple does not fit the partition spec".to_owned(),
                    ),
                );
            }
            let mut c2: usize = 0;
            while c2 < cols
                invariant
                    c2 <= cols,
                    k < n,
                    n == self.manifest_entries@.len(),
                    cols == partition_type.fields@.len(),
                    stats@.len() == cols,
                    partition == &self.manifest_entries@[k as int].data_file.partition,
                    partition.fields@.len() == cols,
                    forall|j: int|
                        0 <= j < k ==> (#[trigger] self.manifest_entries@[j]).data_file@.partition.len()
                            == cols,
                    forall|j: int|
                        0 <= j < cols ==> (#[trigger] stats@[j]).partition_type
                            == partition_type.fields@[j].ty,
                    forall|j: int|
                        c2 <= j < cols ==> spec_fold_summary(
                            partition_type.fields@[j].ty,
                            spec_empty_summary(),
                            spec_column(self.manifest_entries@.take(k as int), j),
                        ) == Some((#[trigger] stats@[j]).summary@),
                    forall|j: int|
                        0 <= j < c2 ==> spec_fold_summary(
                            partition_type.fields@[j].ty,
                            spec_empty_summary(),
                            spec_column(self.manifest_entries@.take(k + 1), j),
                        ) == Some((#[trigger] stats@[j]).summary@),
                decreases cols - c2,
            {
                let value = match &partition.fields[c2] {
                    Some(l) => Some(l.dup()),
                    None => None,
                };
                proof {
                    assert(crate::values::opt_lit_view(value)
                        == self.manifest_entries@[k as int].data_file@.partition[c2 as int]);
                    assert(spec_column(self.manifest_entries@.take(k + 1), c2 as int).drop_last()
                        =~= spec_column(self.manifest_entries@.take(k as int), c2 as int));
                    assert(spec_column(self.manifest_entries@.take(k + 1), c2 as int).last()
                        == self.manifest_entries@[k as int].data_file@.partition[c2 as int]);
                }
                let ghost before = stats@;
                let stat = &mut stats[c2];
                if let Err(e) = stat.update(value) {
                    proof {
                        let full_col = spec_column(self.manifest_entries@, c2 as int);
                        assert(spec_fold_summary(
                            partition_type.fields@[c2 as int].ty,
                            spec_empty_summary(),
                            spec_column(self.manifest_entries@.take(k + 1), c2 as int),
                        ) is None);
                        assert(spec_column(self.manifest_entries@.take(k + 1), c2 as int)
                            =~= full_col.take(k + 1));
                        if spec_fold_summary(
                            partition_type.fields@[c2 as int].ty,
                            spec_empty_summary(),
                            full_col,
                        ) is Some {
                            crate::stats::lemma_fold_prefix_some(
                                partition_type.fields@[c2 as int].ty,
                                spec_empty_summary(),
                                full_col,
                                k + 1,
                            );
                        }
                        assert(!spec_summaries_ok(self.manifest_entries@, partition_type.fields@));
                    }
                    return Err(e);
                }
                proof {
                    assert forall|j: int| 0 <= j < cols && j != c2 implies stats@[j] == before[j]
                        by {}
                }
                c2 = c2 + 1;
            }
            k = k + 1;
        }
        proof {
            assert(self.manifest_entries@.take(n as int) =~= self.manifest_entries@);
        }
        let mut out: Vec<FieldSummary> = Vec::new();
        let mut i: usize = 0;
        let ghost folded = stats@;
        while i < cols
            invariant
                i <= cols,
                cols == partition_type.fields@.len(),
                stats@.len() == cols - i,
                folded.len() == cols,
                forall|j: int| 0 <= j < cols - i ==> #[trigger] stats@[j] == folded[i + j],
                out@.len() == i,
                forall|j: int|
                    0 <= j < cols ==> (#[trigger] folded[j]).partition_type
                        == partition_type.fields@[j].ty && spec_fold_summary(
                        partition_type.fields@[j].ty,
                        spec_empty_summary(),
                        spec_column(self.manifest_entries@, j),
                    ) == Some(folded[j].summary@),
                forall|j: int|
                    0 <= j < i ==> (#[trigger] out@[j])@ == spec_finish_summary(
                        folded[j].summary@,
                    ),
            decreases cols - i,
        {
            let stat = stats.remove(0);
            proof {
                assert(stat == folded[i as int]);
            }
            out.push(stat.finish());
            i = i + 1;
        }
        proof {
            assert forall|c: int|
                0 <= c < partition_type.fields@.len() implies spec_fold_summary(
                partition_type.fields@[c].ty,
                spec_empty_summary(),
                #[trigger] spec_column(self.manifest_entries@, c),
            ) is Some by {
                assert(folded[c].partition_type == partition_type.fields@[c].ty);
            }
            assert(spec_summaries_ok(self.manifest_entries@, partition_type.fields@));
            assert forall|c: int|
                #![trigger spec_column(self.manifest_entries@, c)]
                0 <= c < out@.len() implies spec_fold_summary(
                partition_type.fields@[c].ty,
                spec_empty_summary(),
                spec_column(self.manifest_entries@, c),
            ) is Some && out@[c]@ == spec_finish_summary(
                spec_fold_summary(
                    partition_type.fields@[c].ty,
                    spec_empty_summary(),
                    spec_column(self.manifest_entries@, c),
                ).unwrap(),
            ) by {
                assert(spec_fold_summary(
                    partition_type.fields@[c].ty,
                    spec_empty_summary(),
                    spec_column(self.manifest_entries@, c),
                ) == Some(folded[c].summary@));
                assert(out@[c]@ == spec_finish_summary(folded[c].summary@));
            }
        }
        Ok(out)
    }

    /// Emit the manifest: resolve the partition type, render the container
    /// record schema and the user metadata, fold the partition summaries,
    /// stream the buffered entries through the version's record transform, and
    /// return the summary record with the container bytes. The summary's
    /// counters and minimum sequence number restate the buffered entries, its
    /// own sequence number stays unassigned for the manifest-list layer.
    ///
    /// Success implies every library-side condition of
    /// [`spec_emit_conditions`], so failing any of them forces an error; on
    /// inputs meeting all of them only the container serializer, which decides
    /// for itself, can still refuse. The user metadata handed to it is pinned
    /// by [`manifest_user_metadata`] and the record schema text by the schema
    /// renderers of the container boundary.
    pub fn write_manifest_file(self) -> (r: Result<(ManifestFile, Vec<u8>), Error>)
        requires
            self.wf(),
        ensures
            r is Ok ==> spec_emit_conditions(
                self.manifest_entries@,
                self.metadata.schema,
                self.metadata.partition_spec,
            ),
            r matches Ok(p) ==> crate::avro::ocf_meta_of(p.1@) is Some && forall|i: int|
                0 <= i < spec_manifest_user_metadata(self.metadata).len()
                    ==> crate::avro::ocf_meta_of(p.1@).unwrap().contains_key(
                    (#[trigger] spec_manifest_user_metadata(self.metadata)[i]).0,
                ) && crate::avro::ocf_meta_of(p.1@).unwrap()[spec_manifest_user_metadata(
                    self.metadata,
                )[i].0] == spec_manifest_user_metadata(self.metadata)[i].1,
            r matches Ok(p) ==> forall|k: Seq<char>|
                #[trigger] crate::avro::ocf_meta_of(p.1@).unwrap().contains_key(k)
                    ==> exists|i: int|
                    0 <= i < spec_manifest_user_metadata(self.metadata).len() && (
                #[trigger] spec_manifest_user_metadata(self.metadata)[i]).0 == k,
            r matches Ok(p) ==> {
                &&& p.0.manifest_path@ == self.output_path@
                &&& p.0.manifest_length == p.1@.len()
                &&& p.0.partition_spec_id == self.metadata.partition_spec.spec_id
                &&& p.0.content == self.metadata.content
                &&& p.0.sequence_number == UNASSIGNED_SEQUENCE_NUMBER
                &&& p.0.min_sequence_number == (match spec_min_seq(self.manifest_entries@) {
                    Some(m) => m,
                    None => UNASSIGNED_SEQUENCE_NUMBER,
                })
                &&& p.0.added_snapshot_id == (match self.snapshot_id {
                    Some(s) => s,
                    None => UNASSIGNED_SNAPSHOT_ID,
                })
                &&& p.0.added_files_count matches Some(c) && c as int == spec_count_files(
                    self.manifest_entries@,
                    ManifestStatus::Added,
                )
                &&& p.0.existing_files_count matches Some(c) && c as int == spec_count_files(
                    self.manifest_entries@,
                    ManifestStatus::Existing,
                )
                &&& p.0.deleted_files_count matches Some(c) && c as int == spec_count_files(
                    self.manifest_entries@,
                    ManifestStatus::Deleted,
                )
                &&& p.0.added_rows_count matches Some(c) && c as int == spec_count_rows(
                    self.manifest_entries@,
                    ManifestStatus::Added,
                )
                &&& p.0.existing_rows_count matches Some(c) && c as int == spec_count_rows(
                    self.manifest_entries@,
                    ManifestStatus::Existing,
                )
                &&& p.0.deleted_rows_count matches Some(c) && c as int == spec_count_rows(
                    self.manifest_entries@,
                    ManifestStatus::Deleted,
                )
                &&& p.0.key_metadata@ == self.key_metadata@
                &&& p.0.partitions@.len() == self.metadata.partition_spec.fields@.len()
                &&& crate::schema::spec_partition_type(
                    self.metadata.schema.fields@,
                    self.metadata.partition_spec.fields@,
                ) is Some
                &&& forall|c: int|
                    #![trigger spec_column(self.manifest_entries@, c)]
                    0 <= c < p.0.partitions@.len() ==> spec_fold_summary(
                        crate::schema::spec_partition_type(
                            self.metadata.schema.fields@,
                            self.metadata.partition_spec.fields@,
                        ).unwrap()[c].ty,
                        spec_empty_summary(),
                        spec_column(self.manifest_entries@, c),
                    ) is Some && p.0.partitions@[c]@ == spec_finish_summary(
                        spec_fold_summary(
                            crate::schema::spec_partition_type(
                                self.metadata.schema.fields@,
                                self.metadata.partition_spec.fields@,
                            ).unwrap()[c].ty,
                            spec_empty_summary(),
                            spec_column(self.manifest_entries@, c),
                        ).unwrap(),
                    )
            },
    {
        let partition_type = match self.metadata.partition_spec.partition_type(
            &self.metadata.schema,
        ) {
            Ok(t) => t,
            Err(e) => {
                return Err(e);
            },
        };
        let avro_schema = match self.metadata.format_version {
            FormatVersion::V1 => match manifest_schema_v1_json(&partition_type) {
                Ok(s) => s,
                Err(e) => {
                    return Err(e);
                },
            },
            FormatVersion::V2 => match manifest_schema_v2_json(&partition_type) {
                Ok(s) => s,
                Err(e) => {
                    return Err(e);
                },
            },
        };
        let partition_summary = match self.construct_partition_summaries(&partition_type) {
            Ok(s) => s,
            Err(e) => {
                return Err(e);
            },
        };
        proof {
            crate::schema::lemma_partition_type_len(
                self.metadata.schema.fields@,
                self.metadata.partition_spec.fields@,
            );
            assert(partition_type.fields@.len() == self.metadata.partition_spec.fields@.len());
            assert forall|c: int|
                #![trigger spec_column(self.manifest_entries@, c)]
                0 <= c < partition_summary@.len() implies spec_fold_summary(
                crate::schema::spec_partition_type(
                    self.metadata.schema.fields@,
                    self.metadata.partition_spec.fields@,
                ).unwrap()[c].ty,
                spec_empty_summary(),
                spec_column(self.manifest_entries@, c),
            ) is Some && partition_summary@[c]@ == spec_finish_summary(
                spec_fold_summary(
                    crate::schema::spec_partition_type(
                        self.metadata.schema.fields@,
                        self.metadata.partition_spec.fields@,
                    ).unwrap()[c].ty,
                    spec_empty_summary(),
                    spec_column(self.manifest_entries@, c),
                ).unwrap(),
            ) by {
                assert(crate::schema::spec_partition_type(
                    self.metadata.schema.fields@,
                    self.metadata.partition_spec.fields@,
                ).unwrap()[c] == partition_type.fields@[c]);
            }
        }
        let meta = manifest_user_metadata(&self.metadata);
        let is_v1 = matches!(self.metadata.format_version, FormatVersion::V1);
        let ghost entries0 = self.manifest_entries@;
        let ghost ptf = partition_type.fields@;
        let ManifestWriter {
            output_path,
            snapshot_id,
            added_files,
            added_rows,
            existing_files,
            existing_rows,
            deleted_files,
            deleted_rows,
            min_seq_num,
            key_metadata,
            manifest_entries,
            metadata,
        } = self;
        let mut records: Vec<AvroValue> = Vec::new();
        let mut remaining = manifest_entries;
        let total = remaining.len();
        let mut idx: usize = 0;
        proof {
            assert(remaining@ =~= entries0.skip(0));
        }
        while remaining.len() > 0
            invariant
                idx <= total,
                total == entries0.len(),
                idx + remaining@.len() == entries0.len(),
                remaining@ == entries0.skip(idx as int),
                ptf == partition_type.fields@,
                forall|k: int|
                    0 <= k < idx ==> spec_df_to_wire(
                        (#[trigger] entries0[k]).data_file@,
                        ptf,
                    ) is Some,
            decreases remaining@.len(),
        {
            let entry = remaining.remove(0);
            proof {
                assert(entry == entries0[idx as int]);
                assert(remaining@ =~= entries0.skip(idx + 1));
            }
            let ghost entry_view = entry@;
            let value = if is_v1 {
                let wire = match entry_to_wire_v1(entry, &partition_type) {
                    Ok(w) => w,
                    Err(e) => {
                        return Err(e);
                    },
                };
                match wire_entry_v1_to_value(wire, &partition_type) {
                    Ok(v) => v,
                    Err(e) => {
                        return Err(e);
                    },
                }
            } else {
                let wire = match entry_to_wire_v2(entry, &partition_type) {
                    Ok(w) => w,
                    Err(e) => {
                        return Err(e);
                    },
                };
                match wire_entry_v2_to_value(wire, &partition_type) {
                    Ok(v) => v,
                    Err(e) => {
                        return Err(e);
                    },
                }
            };
            proof {
                assert(spec_df_to_wire(entry_view.data_file, ptf) is Some);
            }
            records.push(value);
            idx = idx + 1;
        }
        proof {
            assert(entries0.skip(idx as int).len() == 0);
            assert(idx == entries0.len());
        }
        proof {
            reveal_strlit("schema");
            reveal_strlit("schema-id");
            reveal_strlit("partition-spec");
            reveal_strlit("partition-spec-id");
            reveal_strlit("format-version");
            reveal_strlit("content");
            let mv = spec_meta_view(meta@);
            assert(mv == spec_manifest_user_metadata(metadata));
            assert(mv[0].0 == "schema"@);
            assert(mv[1].0 == "schema-id"@);
            assert(mv[2].0 == "partition-spec"@);
            assert(mv[3].0 == "partition-spec-id"@);
            assert(mv[4].0 == "format-version"@);
            if metadata.format_version == FormatVersion::V2 {
                assert(mv[5].0 == "content"@);
            }
            assert("schema"@.len() == 6);
            assert("schema-id"@.len() == 9);
            assert("partition-spec"@.len() == 14);
            assert("partition-spec-id"@.len() == 17);
            assert("format-version"@.len() == 14);
            assert("content"@.len() == 7);
            assert("partition-spec"@[0] == 'p');
            assert("format-version"@[0] == 'f');
            assert forall|i: int, j: int|
                0 <= i < j < meta@.len() implies (#[trigger] meta@[i]).0@ != (
            #[trigger] meta@[j]).0@ by {
                assert(meta@[i].0@ == mv[i].0);
                assert(meta@[j].0@ == mv[j].0);
                assert(mv.len() == (if metadata.format_version == FormatVersion::V2 {
                    6int
                } else {
                    5int
                }));
                if i == 0 {
                    assert(mv[i].0 == "schema"@);
                } else if i == 1 {
                    assert(mv[i].0 == "schema-id"@);
                } else if i == 2 {
                    assert(mv[i].0 == "partition-spec"@);
                } else if i == 3 {
                    assert(mv[i].0 == "partition-spec-id"@);
                } else if i == 4 {
                    assert(mv[i].0 == "format-version"@);
                } else {
                    assert(mv[i].0 == "content"@);
                }
                if j == 1 {
                    assert(mv[j].0 == "schema-id"@);
                } else if j == 2 {
                    assert(mv[j].0 == "partition-spec"@);
                } else if j == 3 {
                    assert(mv[j].0 == "partition-spec-id"@);
                } else if j == 4 {
                    assert(mv[j].0 == "format-version"@);
                } else {
                    assert(mv[j].0 == "content"@);
                }
            }
        }
        let content_bytes = match ocf_write(avro_schema.as_str(), meta, records) {
            Ok(b) => b,
            Err(_) => {
                return Err(
                    Error::data_invalid("the container serializer refused the manifest".to_owned()),
                );
            },
        };
        if content_bytes.len() as u64 > 0x7fff_ffff_ffff_ffffu64 {
            return Err(Error::data_invalid("the manifest container is too large".to_owned()));
        }
        let manifest_file = ManifestFile {
            manifest_path: output_path,
            manifest_length: content_bytes.len() as i64,
            partition_spec_id: metadata.partition_spec.spec_id,
            content: metadata.content,
            sequence_number: UNASSIGNED_SEQUENCE_NUMBER,
            min_sequence_number: match min_seq_num {
                Some(m) => m,
                None => UNASSIGNED_SEQUENCE_NUMBER,
            },
            added_snapshot_id: match snapshot_id {
                Some(s) => s,
                None => UNASSIGNED_SNAPSHOT_ID,
            },
            added_files_count: Some(added_files),
            existing_files_count: Some(existing_files),
            deleted_files_count: Some(deleted_files),
            added_rows_count: Some(added_rows),
            existing_rows_count: Some(existing_rows),
            deleted_rows_count: Some(deleted_rows),
            partitions: partition_summary,
            key_metadata,
        };
        proof {
            assert(spec_emit_conditions(entries0, metadata.schema, metadata.partition_spec));
            let smv = spec_manifest_user_metadata(metadata);
            assert forall|i: int|
                0 <= i < smv.len() implies crate::avro::ocf_meta_of(
                content_bytes@,
            ).unwrap().contains_key((#[trigger] smv[i]).0) && crate::avro::ocf_meta_of(
                content_bytes@,
            ).unwrap()[smv[i].0] == smv[i].1 by {
                assert(meta@[i].0@ == smv[i].0);
                assert(meta@[i].1@ == smv[i].1);
            }
            assert forall|k: Seq<char>|
                #[trigger] crate::avro::ocf_meta_of(content_bytes@).unwrap().contains_key(k)
                    implies exists|i: int|
                0 <= i < smv.len() && (#[trigger] smv[i]).0 == k by {
                let i = choose|i: int| 0 <= i < meta@.len() && (#[trigger] meta@[i]).0@ == k;
                assert(smv[i].0 == k);
            }
        }
        Ok((manifest_file, content_bytes))
    }
}

} // verus!