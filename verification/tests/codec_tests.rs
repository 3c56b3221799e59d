use iceberg_manifest::error::ErrorKind;
use iceberg_manifest::manifest::{
    DataContentType, DataFile, DataFileFormat, FormatVersion, Manifest, ManifestContentType,
    ManifestEntry, ManifestFile, ManifestMetadata, ManifestStatus, Struct,
    UNASSIGNED_SEQUENCE_NUMBER,
};
use iceberg_manifest::schema::{
    FieldType, NestedField, PartitionField, PartitionSpec, Schema,
};
use iceberg_manifest::stats::PartitionFieldStats;
use iceberg_manifest::values::{Datum, PrimitiveLiteral, PrimitiveType};
use iceberg_manifest::writer::{manifest_user_metadata, ManifestWriterBuilder};

fn field(id: i32, name: &str, ty: PrimitiveType) -> NestedField {
    NestedField {
        id,
        name: name.to_string(),
        required: false,
        field_type: FieldType::Primitive(ty),
    }
}

fn plain_file(content: DataContentType, partition: Struct, record_count: u64) -> DataFile {
    DataFile {
        content,
        file_path: "s3://bucket/data/file.parquet".to_string(),
        file_format: DataFileFormat::Parquet,
        partition,
        record_count,
        file_size_in_bytes: 100,
        column_sizes: vec![],
        value_counts: vec![],
        null_value_counts: vec![],
        nan_value_counts: vec![],
        lower_bounds: vec![],
        upper_bounds: vec![],
        key_metadata: None,
        split_offsets: vec![],
        equality_ids: vec![],
        sort_order_id: None,
        partition_spec_id: 0,
    }
}

#[test]
fn test_datum_bytes_roundtrip_per_type() {
    let samples = vec![
        Datum::bool(true),
        Datum::bool(false),
        Datum::int32(-7),
        Datum::int32(i32::MAX),
        Datum::long(-1),
        Datum::long(i64::MIN),
        Datum::float_bits((3.5f32).to_bits()),
        Datum::double_bits((-2.25f64).to_bits()),
        Datum::string("héllo, wörld"),
        Datum::date(19000),
        Datum::binary(vec![0, 1, 2, 255]),
        Datum::new(
            PrimitiveType::Decimal { precision: 10, scale: 2 },
            PrimitiveLiteral::Int128(1234),
        ),
        Datum::new(
            PrimitiveType::Decimal { precision: 10, scale: 2 },
            PrimitiveLiteral::Int128(-1),
        ),
        Datum::new(
            PrimitiveType::Decimal { precision: 38, scale: 0 },
            PrimitiveLiteral::Int128(i128::MIN),
        ),
        Datum::new(PrimitiveType::Uuid, PrimitiveLiteral::UInt128(u128::MAX - 7)),
    ];
    for d in samples {
        let bytes = d.to_bytes();
        let back = Datum::try_from_bytes(&bytes, *d.ty()).unwrap();
        assert_eq!(back, d);
    }
}

#[test]
fn test_decimal_bytes_are_minimal_big_endian() {
    let d = Datum::new(
        PrimitiveType::Decimal { precision: 10, scale: 2 },
        PrimitiveLiteral::Int128(1234),
    );
    assert_eq!(d.to_bytes(), vec![0x04, 0xd2]);
    let neg = Datum::new(
        PrimitiveType::Decimal { precision: 10, scale: 2 },
        PrimitiveLiteral::Int128(-1),
    );
    assert_eq!(neg.to_bytes(), vec![0xff]);
    let small = Datum::new(
        PrimitiveType::Decimal { precision: 10, scale: 2 },
        PrimitiveLiteral::Int128(0),
    );
    assert_eq!(small.to_bytes(), vec![0x00]);
    // The sign byte is kept when the magnitude fills the top bit.
    let edge = Datum::new(
        PrimitiveType::Decimal { precision: 10, scale: 2 },
        PrimitiveLiteral::Int128(128),
    );
    assert_eq!(edge.to_bytes(), vec![0x00, 0x80]);
}

#[test]
fn test_int_bound_bytes_are_little_endian() {
    assert_eq!(Datum::int32(1).to_bytes(), vec![1, 0, 0, 0]);
    assert_eq!(Datum::long(258).to_bytes(), vec![2, 1, 0, 0, 0, 0, 0, 0]);
    assert_eq!(Datum::string("a").to_bytes(), vec![b'a']);
}

#[test]
fn test_file_format_parses_case_insensitively() {
    assert_eq!(DataFileFormat::parse("AVRO").unwrap(), DataFileFormat::Avro);
    assert_eq!(DataFileFormat::parse("Orc").unwrap(), DataFileFormat::Orc);
    assert_eq!(
        DataFileFormat::parse("parquet").unwrap(),
        DataFileFormat::Parquet
    );
    let err = DataFileFormat::parse("feather").unwrap_err();
    assert_eq!(err.kind(), ErrorKind::DataInvalid);
    assert_eq!(DataFileFormat::Parquet.to_upper_name(), "PARQUET");
}

#[test]
fn test_status_and_content_codes() {
    assert_eq!(ManifestStatus::try_from_code(0).unwrap(), ManifestStatus::Existing);
    assert_eq!(ManifestStatus::try_from_code(1).unwrap(), ManifestStatus::Added);
    assert_eq!(ManifestStatus::try_from_code(2).unwrap(), ManifestStatus::Deleted);
    assert!(ManifestStatus::try_from_code(3).is_err());
    assert_eq!(
        DataContentType::try_from_code(2).unwrap(),
        DataContentType::EqualityDeletes
    );
    assert!(DataContentType::try_from_code(-1).is_err());
}

#[test]
fn test_content_type_mismatch_is_rejected() {
    let schema = Schema {
        schema_id: 0,
        fields: vec![field(1, "id", PrimitiveType::Long)],
    };
    let mut writer = ManifestWriterBuilder::new(
        "memory://m.avro".to_string(),
        Some(1),
        vec![],
        schema,
        PartitionSpec { spec_id: 0, fields: vec![] },
    )
    .build_v2_data();
    let delete_file = plain_file(DataContentType::PositionDeletes, Struct::empty(), 1);
    let err = writer.add_file(delete_file, 1).unwrap_err();
    assert_eq!(err.kind(), ErrorKind::DataInvalid);
}

#[test]
fn test_existing_entry_needs_sequence_numbers() {
    let schema = Schema {
        schema_id: 0,
        fields: vec![field(1, "id", PrimitiveType::Long)],
    };
    let mut writer = ManifestWriterBuilder::new(
        "memory://m.avro".to_string(),
        Some(1),
        vec![],
        schema,
        PartitionSpec { spec_id: 0, fields: vec![] },
    )
    .build_v2_data();
    let entry = ManifestEntry {
        status: ManifestStatus::Existing,
        snapshot_id: Some(1),
        sequence_number: Some(1),
        file_sequence_number: None,
        data_file: plain_file(DataContentType::Data, Struct::empty(), 1),
    };
    let err = writer.add_existing_entry(entry).unwrap_err();
    assert_eq!(err.kind(), ErrorKind::DataInvalid);
}

#[test]
fn test_add_file_clears_negative_sequence_number() {
    let schema = Schema {
        schema_id: 0,
        fields: vec![field(1, "id", PrimitiveType::Long)],
    };
    let metadata = ManifestMetadata {
        schema_id: 0,
        schema: schema.clone(),
        partition_spec: PartitionSpec { spec_id: 0, fields: vec![] },
        content: ManifestContentType::Data,
        format_version: FormatVersion::V2,
    };
    let mut writer = ManifestWriterBuilder::new(
        "memory://m.avro".to_string(),
        Some(7),
        vec![],
        metadata.schema.clone(),
        metadata.partition_spec.clone(),
    )
    .build_v2_data();
    writer
        .add_file(plain_file(DataContentType::Data, Struct::empty(), 5), -3)
        .unwrap();
    let (mf, bytes) = writer.write_manifest_file().unwrap();
    // No alive entry carries a sequence number, so the minimum stays unassigned.
    assert_eq!(mf.min_sequence_number, UNASSIGNED_SEQUENCE_NUMBER);
    assert_eq!(mf.added_rows_count, Some(5));
    let manifest = Manifest::parse_avro(&bytes).unwrap();
    assert_eq!(manifest.entries[0].sequence_number, None);
    assert_eq!(manifest.entries[0].snapshot_id, Some(7));
}

#[test]
fn test_min_sequence_number_of_alive_entries() {
    let schema = Schema {
        schema_id: 0,
        fields: vec![field(1, "id", PrimitiveType::Long)],
    };
    let mut writer = ManifestWriterBuilder::new(
        "memory://m.avro".to_string(),
        Some(7),
        vec![],
        schema,
        PartitionSpec { spec_id: 0, fields: vec![] },
    )
    .build_v2_data();
    writer
        .add_file(plain_file(DataContentType::Data, Struct::empty(), 1), 9)
        .unwrap();
    writer
        .add_file(plain_file(DataContentType::Data, Struct::empty(), 1), 4)
        .unwrap();
    // A deleted entry is not alive, so its smaller sequence number is ignored.
    writer
        .add_delete_file(plain_file(DataContentType::Data, Struct::empty(), 1), 2, Some(2))
        .unwrap();
    let (mf, _) = writer.write_manifest_file().unwrap();
    assert_eq!(mf.min_sequence_number, 4);
    assert_eq!(mf.added_files_count, Some(2));
    assert_eq!(mf.deleted_files_count, Some(1));
}

#[test]
fn test_add_existing_file_keeps_commit_data() {
    let schema = Schema {
        schema_id: 0,
        fields: vec![field(1, "id", PrimitiveType::Long)],
    };
    let mut writer = ManifestWriterBuilder::new(
        "memory://m.avro".to_string(),
        Some(9),
        vec![],
        schema,
        PartitionSpec { spec_id: 0, fields: vec![] },
    )
    .build_v2_data();
    writer
        .add_existing_file(
            plain_file(DataContentType::Data, Struct::empty(), 3),
            5,
            6,
            Some(7),
        )
        .unwrap();
    let (mf, bytes) = writer.write_manifest_file().unwrap();
    assert_eq!(mf.existing_rows_count, Some(3));
    let manifest = Manifest::parse_avro(&bytes).unwrap();
    assert_eq!(manifest.entries[0].snapshot_id, Some(5));
    assert_eq!(manifest.entries[0].sequence_number, Some(6));
    assert_eq!(manifest.entries[0].file_sequence_number, Some(7));
    assert_eq!(manifest.entries[0].status, ManifestStatus::Existing);
}

#[test]
fn test_float_partition_values_roundtrip() {
    let schema = Schema {
        schema_id: 0,
        fields: vec![
            field(1, "v_float", PrimitiveType::Float),
            field(2, "v_double", PrimitiveType::Double),
        ],
    };
    let metadata = ManifestMetadata {
        schema_id: 0,
        schema: schema.clone(),
        partition_spec: PartitionSpec {
            spec_id: 0,
            fields: vec![
                PartitionField {
                    source_id: 1,
                    field_id: 1000,
                    name: "f".to_string(),
                    transform: "identity".to_string(),
                },
                PartitionField {
                    source_id: 2,
                    field_id: 1001,
                    name: "d".to_string(),
                    transform: "identity".to_string(),
                },
            ],
        },
        content: ManifestContentType::Data,
        format_version: FormatVersion::V2,
    };
    let partition = Struct::from_vec(vec![
        Some(PrimitiveLiteral::Float((-0.5f32).to_bits())),
        Some(PrimitiveLiteral::Double((123.875f64).to_bits())),
    ]);
    let mut writer = ManifestWriterBuilder::new(
        "memory://m.avro".to_string(),
        Some(1),
        vec![],
        metadata.schema.clone(),
        metadata.partition_spec.clone(),
    )
    .build_v2_data();
    writer
        .add_file(plain_file(DataContentType::Data, partition.clone(), 1), 1)
        .unwrap();
    let (_, bytes) = writer.write_manifest_file().unwrap();
    let manifest = Manifest::parse_avro(&bytes).unwrap();
    assert_eq!(manifest.entries[0].data_file.partition, partition);
}

#[test]
fn test_metadata_parse_requires_schema() {
    let meta: Vec<(String, Vec<u8>)> = vec![(
        "partition-spec".to_string(),
        b"[]".to_vec(),
    )];
    let err = ManifestMetadata::parse(&meta).unwrap_err();
    assert_eq!(err.kind(), ErrorKind::DataInvalid);
}

#[test]
fn test_metadata_parse_defaults() {
    let meta: Vec<(String, Vec<u8>)> = vec![
        (
            "schema".to_string(),
            br#"{"type":"struct","schema-id":5,"fields":[{"id":1,"name":"id","required":false,"type":"long"}]}"#
                .to_vec(),
        ),
        ("partition-spec".to_string(), b"[]".to_vec()),
    ];
    let m = ManifestMetadata::parse(&meta).unwrap();
    assert_eq!(m.schema_id, 0);
    assert_eq!(m.schema.schema_id, 5);
    assert_eq!(m.format_version, FormatVersion::V1);
    assert_eq!(m.content, ManifestContentType::Data);
    assert_eq!(m.partition_spec.spec_id, 0);
    assert_eq!(m.schema.fields.len(), 1);
    assert_eq!(
        m.schema.fields[0].field_type,
        FieldType::Primitive(PrimitiveType::Long)
    );
}

#[test]
fn test_partition_stats_fold() {
    let mut stats = PartitionFieldStats::new(PrimitiveType::Float);
    stats
        .update(Some(PrimitiveLiteral::Float((2.0f32).to_bits())))
        .unwrap();
    stats.update(None).unwrap();
    stats
        .update(Some(PrimitiveLiteral::Float(f32::NAN.to_bits())))
        .unwrap();
    stats
        .update(Some(PrimitiveLiteral::Float((-1.0f32).to_bits())))
        .unwrap();
    let err = stats.update(Some(PrimitiveLiteral::Long(3)));
    assert!(err.is_err());
    let summary = stats.finish();
    assert!(summary.contains_null);
    assert_eq!(summary.contains_nan, Some(true));
    assert_eq!(
        summary.lower_bound,
        Some(Datum::float_bits((-1.0f32).to_bits()))
    );
    assert_eq!(summary.upper_bound, Some(Datum::float_bits((2.0f32).to_bits())));
}

#[test]
fn test_partition_stats_no_nan_is_explicit_false() {
    let mut stats = PartitionFieldStats::new(PrimitiveType::Long);
    stats.update(Some(PrimitiveLiteral::Long(10))).unwrap();
    let summary = stats.finish();
    assert_eq!(summary.contains_nan, Some(false));
    assert!(!summary.contains_null);
}

#[test]
fn test_transform_rejects_wrong_source() {
    let schema = Schema {
        schema_id: 0,
        fields: vec![field(1, "name", PrimitiveType::String)],
    };
    let spec = PartitionSpec {
        spec_id: 0,
        fields: vec![PartitionField {
            source_id: 1,
            field_id: 1000,
            name: "year_of_name".to_string(),
            transform: "year".to_string(),
        }],
    };
    assert!(spec.partition_type(&schema).is_err());
    let bucketed = PartitionSpec {
        spec_id: 0,
        fields: vec![PartitionField {
            source_id: 1,
            field_id: 1000,
            name: "b".to_string(),
            transform: "bucket[16]".to_string(),
        }],
    };
    let st = bucketed.partition_type(&schema).unwrap();
    assert_eq!(st.fields.len(), 1);
    assert_eq!(st.fields[0].ty, PrimitiveType::Int);
    assert_eq!(st.fields[0].field_id, 1000);
}

#[test]
fn test_inherit_data_fills_missing_values() {
    let snapshot_entry = ManifestFile {
        manifest_path: "memory://m.avro".to_string(),
        manifest_length: 100,
        partition_spec_id: 0,
        content: ManifestContentType::Data,
        sequence_number: 12,
        min_sequence_number: 12,
        added_snapshot_id: 77,
        added_files_count: Some(1),
        existing_files_count: Some(0),
        deleted_files_count: Some(0),
        added_rows_count: Some(1),
        existing_rows_count: Some(0),
        deleted_rows_count: Some(0),
        partitions: vec![],
        key_metadata: vec![],
    };
    let mut added = ManifestEntry {
        status: ManifestStatus::Added,
        snapshot_id: None,
        sequence_number: None,
        file_sequence_number: None,
        data_file: plain_file(DataContentType::Data, Struct::empty(), 1),
    };
    added.inherit_data(&snapshot_entry);
    assert_eq!(added.snapshot_id, Some(77));
    assert_eq!(added.sequence_number, Some(12));
    assert_eq!(added.file_sequence_number, Some(12));

    // An existing entry inherits nothing once the table is past its first
    // sequence number.
    let mut existing = ManifestEntry {
        status: ManifestStatus::Existing,
        snapshot_id: Some(3),
        sequence_number: None,
        file_sequence_number: None,
        data_file: plain_file(DataContentType::Data, Struct::empty(), 1),
    };
    existing.inherit_data(&snapshot_entry);
    assert_eq!(existing.snapshot_id, Some(3));
    assert_eq!(existing.sequence_number, None);
    assert_eq!(existing.file_sequence_number, None);
}

#[test]
fn test_deletes_manifest_accepts_delete_files() {
    let schema = Schema {
        schema_id: 0,
        fields: vec![field(1, "id", PrimitiveType::Long)],
    };
    let metadata_schema = schema.clone();
    let mut writer = ManifestWriterBuilder::new(
        "memory://m.avro".to_string(),
        Some(2),
        vec![],
        metadata_schema,
        PartitionSpec { spec_id: 0, fields: vec![] },
    )
    .build_v2_deletes();
    assert!(writer
        .add_file(plain_file(DataContentType::Data, Struct::empty(), 1), 1)
        .is_err());
    writer
        .add_delete_file(
            plain_file(DataContentType::EqualityDeletes, Struct::empty(), 2),
            3,
            Some(3),
        )
        .unwrap();
    let (mf, bytes) = writer.write_manifest_file().unwrap();
    assert_eq!(mf.content, ManifestContentType::Deletes);
    assert_eq!(mf.deleted_rows_count, Some(2));
    let manifest = Manifest::parse_avro(&bytes).unwrap();
    assert_eq!(manifest.metadata.content, ManifestContentType::Deletes);
    assert_eq!(
        manifest.entries[0].data_file.content,
        DataContentType::EqualityDeletes
    );
}

#[test]
fn test_manifest_accessors() {
    let entry = ManifestEntry {
        status: ManifestStatus::Added,
        snapshot_id: Some(4),
        sequence_number: Some(5),
        file_sequence_number: Some(6),
        data_file: plain_file(DataContentType::Data, Struct::empty(), 11),
    };
    assert!(entry.is_alive());
    assert_eq!(entry.status(), ManifestStatus::Added);
    assert_eq!(entry.content_type(), DataContentType::Data);
    assert_eq!(entry.file_format(), DataFileFormat::Parquet);
    assert_eq!(entry.file_path(), "s3://bucket/data/file.parquet");
    assert_eq!(entry.record_count(), 11);
    assert_eq!(entry.snapshot_id(), Some(4));
    assert_eq!(entry.sequence_number(), Some(5));
    assert_eq!(entry.file_size_in_bytes(), 100);
    assert_eq!(entry.data_file().record_count(), 11);

    let metadata = ManifestMetadata {
        schema_id: 0,
        schema: Schema {
            schema_id: 0,
            fields: vec![field(1, "id", PrimitiveType::Long)],
        },
        partition_spec: PartitionSpec { spec_id: 0, fields: vec![] },
        content: ManifestContentType::Data,
        format_version: FormatVersion::V2,
    };
    assert_eq!(metadata.schema_id(), 0);
    assert_eq!(*metadata.format_version(), FormatVersion::V2);
    assert_eq!(*metadata.content(), ManifestContentType::Data);
    assert_eq!(metadata.partition_spec().spec_id(), 0);

    let manifest = Manifest::new(metadata.clone(), vec![entry.clone()]);
    assert_eq!(manifest.entries().len(), 1);
    let (entries, meta2) = manifest.into_parts();
    assert_eq!(entries, vec![entry]);
    assert_eq!(meta2, metadata);
}


#[test]
fn test_manifest_user_metadata_pairs() {
    let metadata = ManifestMetadata {
        schema_id: 3,
        schema: Schema {
            schema_id: 3,
            fields: vec![field(1, "id", PrimitiveType::Long)],
        },
        partition_spec: PartitionSpec { spec_id: 4, fields: vec![] },
        content: ManifestContentType::Deletes,
        format_version: FormatVersion::V2,
    };
    let pairs = manifest_user_metadata(&metadata);
    assert_eq!(pairs.len(), 6);
    assert_eq!(pairs[0].0, "schema");
    assert_eq!(
        pairs[0].1,
        br#"{"type":"struct","schema-id":3,"fields":[{"id":1,"name":"id","required":false,"type":"long"}]}"#
            .to_vec()
    );
    assert_eq!(pairs[1].0, "schema-id");
    assert_eq!(pairs[1].1, b"3".to_vec());
    assert_eq!(pairs[2].0, "partition-spec");
    assert_eq!(pairs[2].1, b"[]".to_vec());
    assert_eq!(pairs[3].0, "partition-spec-id");
    assert_eq!(pairs[3].1, b"4".to_vec());
    assert_eq!(pairs[4].0, "format-version");
    assert_eq!(pairs[4].1, b"2".to_vec());
    assert_eq!(pairs[5].0, "content");
    assert_eq!(pairs[5].1, b"deletes".to_vec());

    let v1_metadata = ManifestMetadata {
        format_version: FormatVersion::V1,
        content: ManifestContentType::Data,
        ..metadata
    };
    let v1_pairs = manifest_user_metadata(&v1_metadata);
    assert_eq!(v1_pairs.len(), 5);
    assert_eq!(v1_pairs[4].1, b"1".to_vec());
}

#[test]
fn test_metadata_parse_rejects_malformed_json() {
    let meta: Vec<(String, Vec<u8>)> = vec![
        ("schema".to_string(), b"{not json".to_vec()),
        ("partition-spec".to_string(), b"[]".to_vec()),
    ];
    let err = ManifestMetadata::parse(&meta).unwrap_err();
    assert_eq!(err.kind(), ErrorKind::DataInvalid);
}

#[test]
fn test_metadata_parse_all_keys() {
    let meta: Vec<(String, Vec<u8>)> = vec![
        (
            "schema".to_string(),
            br#"{"type":"struct","schema-id":7,"fields":[{"id":2,"name":"v","required":true,"type":"int"}]}"#
                .to_vec(),
        ),
        ("schema-id".to_string(), b"7".to_vec()),
        (
            "partition-spec".to_string(),
            br#"[{"source-id":2,"field-id":1000,"name":"v","transform":"identity"}]"#.to_vec(),
        ),
        ("partition-spec-id".to_string(), b"5".to_vec()),
        ("format-version".to_string(), b"2".to_vec()),
        ("content".to_string(), b"deletes".to_vec()),
    ];
    let m = ManifestMetadata::parse(&meta).unwrap();
    assert_eq!(m.schema_id, 7);
    assert_eq!(m.partition_spec.spec_id, 5);
    assert_eq!(m.format_version, FormatVersion::V2);
    assert_eq!(m.content, ManifestContentType::Deletes);
    assert_eq!(m.partition_spec.fields.len(), 1);
    assert_eq!(m.partition_spec.fields[0].source_id, 2);
    assert_eq!(m.partition_spec.fields[0].field_id, 1000);
    assert_eq!(m.partition_spec.fields[0].transform, "identity");
}

#[test]
fn test_unsupported_partition_column_is_rejected_on_write() {
    let schema = Schema {
        schema_id: 0,
        fields: vec![field(
            1,
            "d",
            PrimitiveType::Decimal { precision: 10, scale: 2 },
        )],
    };
    let mut writer = ManifestWriterBuilder::new(
        "memory://m.avro".to_string(),
        Some(1),
        vec![],
        schema,
        PartitionSpec {
            spec_id: 0,
            fields: vec![PartitionField {
                source_id: 1,
                field_id: 1000,
                name: "d".to_string(),
                transform: "identity".to_string(),
            }],
        },
    )
    .build_v2_data();
    let mut df = plain_file(DataContentType::Data, Struct::empty(), 1);
    df.partition = Struct::from_vec(vec![Some(PrimitiveLiteral::Int128(100))]);
    writer.add_file(df, 1).unwrap();
    let err = writer.write_manifest_file().unwrap_err();
    assert_eq!(err.kind(), ErrorKind::DataInvalid);
}
