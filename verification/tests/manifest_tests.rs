use iceberg_manifest::container::{read_data_files_from_avro, write_data_files_to_avro};
use iceberg_manifest::manifest::{
    DataContentType, DataFile, DataFileFormat, FormatVersion, Manifest, ManifestContentType,
    ManifestEntry, ManifestMetadata, ManifestStatus, Struct, UNASSIGNED_SEQUENCE_NUMBER,
};
use iceberg_manifest::schema::{
    FieldType, NestedField, PartitionField, PartitionSpec, Schema, StructType,
};
use iceberg_manifest::values::{Datum, PrimitiveLiteral, PrimitiveType};
use iceberg_manifest::wire::parse_i64_entry;
use iceberg_manifest::writer::ManifestWriterBuilder;

fn field(id: i32, name: &str, ty: PrimitiveType) -> NestedField {
    NestedField {
        id,
        name: name.to_string(),
        required: false,
        field_type: FieldType::Primitive(ty),
    }
}

fn twelve_field_schema() -> Schema {
    Schema {
        schema_id: 0,
        fields: vec![
            field(1, "id", PrimitiveType::Long),
            field(2, "v_int", PrimitiveType::Int),
            field(3, "v_long", PrimitiveType::Long),
            field(4, "v_float", PrimitiveType::Float),
            field(5, "v_double", PrimitiveType::Double),
            field(6, "v_varchar", PrimitiveType::String),
            field(7, "v_bool", PrimitiveType::Boolean),
            field(8, "v_date", PrimitiveType::Date),
            field(9, "v_timestamp", PrimitiveType::Timestamptz),
            field(
                10,
                "v_decimal",
                PrimitiveType::Decimal { precision: 36, scale: 10 },
            ),
            field(11, "v_ts_ntz", PrimitiveType::Timestamp),
            field(12, "v_ts_ns_ntz", PrimitiveType::TimestampNs),
        ],
    }
}

fn counts(pairs: &[(i32, u64)]) -> Vec<(i32, u64)> {
    pairs.to_vec()
}

fn base_data_file(path: &str) -> DataFile {
    DataFile {
        content: DataContentType::Data,
        file_path: path.to_string(),
        file_format: DataFileFormat::Parquet,
        partition: Struct::empty(),
        record_count: 1,
        file_size_in_bytes: 5442,
        column_sizes: counts(&[
            (0, 73),
            (6, 34),
            (2, 73),
            (7, 61),
            (3, 61),
            (5, 62),
            (9, 79),
            (10, 73),
            (1, 61),
            (4, 73),
            (8, 73),
        ]),
        value_counts: counts(&[
            (4, 1),
            (5, 1),
            (2, 1),
            (0, 1),
            (3, 1),
            (6, 1),
            (8, 1),
            (1, 1),
            (10, 1),
            (7, 1),
            (9, 1),
        ]),
        null_value_counts: counts(&[
            (1, 0),
            (6, 0),
            (2, 0),
            (8, 0),
            (0, 0),
            (3, 0),
            (5, 0),
            (9, 0),
            (7, 0),
            (4, 0),
            (10, 0),
        ]),
        nan_value_counts: vec![],
        lower_bounds: vec![],
        upper_bounds: vec![],
        key_metadata: None,
        split_offsets: vec![4],
        equality_ids: vec![],
        sort_order_id: None,
        partition_spec_id: 0,
    }
}

#[test]
fn test_parse_negative_manifest_entry() {
    let entries = vec![(1, -1), (2, 3)];
    let ret = parse_i64_entry(entries);
    let expected: Vec<(i32, u64)> = vec![(2, 3)];
    assert_eq!(ret, expected, "Negative i64 entry should be ignored!");
}

#[test]
fn test_parse_manifest_v2_unpartition() {
    let schema = twelve_field_schema();
    let metadata = ManifestMetadata {
        schema_id: 0,
        schema: schema.clone(),
        partition_spec: PartitionSpec { spec_id: 0, fields: vec![] },
        content: ManifestContentType::Data,
        format_version: FormatVersion::V2,
    };
    let mut entries = vec![ManifestEntry {
        status: ManifestStatus::Added,
        snapshot_id: None,
        sequence_number: None,
        file_sequence_number: None,
        data_file: base_data_file(
            "s3a://icebergdata/demo/s1/t1/data/00000-0-ba56fbfa-f2ff-40c9-bb27-565ad6dc2be8-00000.parquet",
        ),
    }];

    let mut writer = ManifestWriterBuilder::new(
        "memory://test_manifest.avro".to_string(),
        Some(1),
        vec![],
        metadata.schema.clone(),
        metadata.partition_spec.clone(),
    )
    .build_v2_data();
    for entry in &entries {
        writer.add_entry(entry.clone()).unwrap();
    }
    let (manifest_file, bytes) = writer.write_manifest_file().unwrap();
    assert_eq!(manifest_file.sequence_number, UNASSIGNED_SEQUENCE_NUMBER);
    assert_eq!(manifest_file.min_sequence_number, UNASSIGNED_SEQUENCE_NUMBER);
    assert_eq!(manifest_file.added_snapshot_id, 1);

    let actual_manifest = Manifest::parse_avro(&bytes).unwrap();
    // The snapshot id is assigned when the entry is added to the manifest.
    entries[0].snapshot_id = Some(1);
    assert_eq!(actual_manifest, Manifest::new(metadata, entries));
}

#[test]
fn test_parse_manifest_v2_partition() {
    let schema = twelve_field_schema();
    let metadata = ManifestMetadata {
        schema_id: 0,
        schema: schema.clone(),
        partition_spec: PartitionSpec {
            spec_id: 0,
            fields: vec![
                PartitionField {
                    source_id: 2,
                    field_id: 1000,
                    name: "v_int".to_string(),
                    transform: "identity".to_string(),
                },
                PartitionField {
                    source_id: 3,
                    field_id: 1001,
                    name: "v_long".to_string(),
                    transform: "identity".to_string(),
                },
            ],
        },
        content: ManifestContentType::Data,
        format_version: FormatVersion::V2,
    };
    let mut data_file = base_data_file(
        "s3a://icebergdata/demo/s1/t1/data/00000-0-378b56f5-5c52-4102-a2c2-f05f8a7cbe4a-00000.parquet",
    );
    data_file.partition = Struct::from_vec(vec![
        Some(PrimitiveLiteral::Int(1)),
        Some(PrimitiveLiteral::Long(1000)),
    ]);
    let mut entries = vec![ManifestEntry {
        status: ManifestStatus::Added,
        snapshot_id: None,
        sequence_number: None,
        file_sequence_number: None,
        data_file,
    }];

    let mut writer = ManifestWriterBuilder::new(
        "memory://test_manifest.avro".to_string(),
        Some(2),
        vec![],
        metadata.schema.clone(),
        metadata.partition_spec.clone(),
    )
    .build_v2_data();
    for entry in &entries {
        writer.add_entry(entry.clone()).unwrap();
    }
    let (manifest_file, bytes) = writer.write_manifest_file().unwrap();
    assert_eq!(manifest_file.sequence_number, UNASSIGNED_SEQUENCE_NUMBER);
    assert_eq!(manifest_file.min_sequence_number, UNASSIGNED_SEQUENCE_NUMBER);

    let actual_manifest = Manifest::parse_avro(&bytes).unwrap();
    // The snapshot id is assigned when the entry is added to the manifest.
    entries[0].snapshot_id = Some(2);
    assert_eq!(actual_manifest, Manifest::new(metadata, entries));
}

#[test]
fn test_parse_manifest_v1_unpartition() {
    let schema = Schema {
        schema_id: 1,
        fields: vec![
            field(1, "id", PrimitiveType::Int),
            field(2, "data", PrimitiveType::String),
            field(3, "comment", PrimitiveType::String),
        ],
    };
    let metadata = ManifestMetadata {
        schema_id: 1,
        schema: schema.clone(),
        partition_spec: PartitionSpec { spec_id: 0, fields: vec![] },
        content: ManifestContentType::Data,
        format_version: FormatVersion::V1,
    };
    let mut data_file = base_data_file(
        "s3://testbucket/iceberg_data/iceberg_ctl/iceberg_db/iceberg_tbl/data/00000-7-45268d71-54eb-476c-b42c-942d880c04a1-00001.parquet",
    );
    data_file.record_count = 1;
    data_file.file_size_in_bytes = 875;
    data_file.column_sizes = counts(&[(1, 47), (2, 48), (3, 52)]);
    data_file.value_counts = counts(&[(1, 1), (2, 1), (3, 1)]);
    data_file.null_value_counts = counts(&[(1, 0), (2, 0), (3, 0)]);
    data_file.lower_bounds = vec![
        (1, Datum::int32(1)),
        (2, Datum::string("a")),
        (3, Datum::string("AC/DC")),
    ];
    data_file.upper_bounds = vec![
        (1, Datum::int32(1)),
        (2, Datum::string("a")),
        (3, Datum::string("AC/DC")),
    ];
    data_file.sort_order_id = Some(0);
    let mut entries = vec![ManifestEntry {
        status: ManifestStatus::Added,
        snapshot_id: Some(0),
        sequence_number: Some(0),
        file_sequence_number: Some(0),
        data_file,
    }];

    let mut writer = ManifestWriterBuilder::new(
        "memory://test_manifest.avro".to_string(),
        Some(3),
        vec![],
        metadata.schema.clone(),
        metadata.partition_spec.clone(),
    )
    .build_v1();
    for entry in &entries {
        writer.add_entry(entry.clone()).unwrap();
    }
    let (_, bytes) = writer.write_manifest_file().unwrap();

    let actual_manifest = Manifest::parse_avro(&bytes).unwrap();
    // The snapshot id is assigned when the entry is added to the manifest.
    entries[0].snapshot_id = Some(3);
    assert_eq!(actual_manifest, Manifest::new(metadata, entries));
}

#[test]
fn test_parse_manifest_v1_partition() {
    let schema = Schema {
        schema_id: 0,
        fields: vec![
            field(1, "id", PrimitiveType::Long),
            field(2, "data", PrimitiveType::String),
            field(3, "category", PrimitiveType::String),
        ],
    };
    let metadata = ManifestMetadata {
        schema_id: 0,
        schema: schema.clone(),
        partition_spec: PartitionSpec {
            spec_id: 0,
            fields: vec![PartitionField {
                source_id: 3,
                field_id: 1000,
                name: "category".to_string(),
                transform: "identity".to_string(),
            }],
        },
        content: ManifestContentType::Data,
        format_version: FormatVersion::V1,
    };
    let mut data_file = base_data_file(
        "s3://testbucket/prod/db/sample/data/category=x/00010-1-d5c93668-1e52-41ac-92a6-bba590cbf249-00001.parquet",
    );
    data_file.partition = Struct::from_vec(vec![Some(PrimitiveLiteral::String(
        "x".to_string(),
    ))]);
    data_file.file_size_in_bytes = 874;
    data_file.column_sizes = counts(&[(1, 46), (2, 48), (3, 48)]);
    data_file.value_counts = counts(&[(1, 1), (2, 1), (3, 1)]);
    data_file.null_value_counts = counts(&[(1, 0), (2, 0), (3, 0)]);
    data_file.lower_bounds = vec![
        (1, Datum::long(1)),
        (2, Datum::string("a")),
        (3, Datum::string("x")),
    ];
    data_file.upper_bounds = vec![
        (1, Datum::long(1)),
        (2, Datum::string("a")),
        (3, Datum::string("x")),
    ];
    data_file.sort_order_id = Some(0);
    let mut entries = vec![ManifestEntry {
        status: ManifestStatus::Added,
        snapshot_id: Some(0),
        sequence_number: Some(0),
        file_sequence_number: Some(0),
        data_file,
    }];

    let mut writer = ManifestWriterBuilder::new(
        "memory://test_manifest.avro".to_string(),
        Some(2),
        vec![],
        metadata.schema.clone(),
        metadata.partition_spec.clone(),
    )
    .build_v1();
    for entry in &entries {
        writer.add_entry(entry.clone()).unwrap();
    }
    let (manifest_file, bytes) = writer.write_manifest_file().unwrap();
    assert_eq!(manifest_file.partitions.len(), 1);
    assert_eq!(
        manifest_file.partitions[0].lower_bound,
        Some(Datum::string("x"))
    );
    assert_eq!(
        manifest_file.partitions[0].upper_bound,
        Some(Datum::string("x"))
    );

    let actual_manifest = Manifest::parse_avro(&bytes).unwrap();
    // The snapshot id is assigned when the entry is added to the manifest.
    entries[0].snapshot_id = Some(2);
    assert_eq!(actual_manifest, Manifest::new(metadata, entries));
}

#[test]
fn test_parse_manifest_with_schema_evolution() {
    let schema = Schema {
        schema_id: 0,
        fields: vec![
            field(1, "id", PrimitiveType::Long),
            field(2, "v_int", PrimitiveType::Int),
        ],
    };
    let metadata = ManifestMetadata {
        schema_id: 0,
        schema: schema.clone(),
        partition_spec: PartitionSpec { spec_id: 0, fields: vec![] },
        content: ManifestContentType::Data,
        format_version: FormatVersion::V2,
    };
    let mut data_file = base_data_file(
        "s3a://icebergdata/demo/s1/t1/data/00000-0-378b56f5-5c52-4102-a2c2-f05f8a7cbe4a-00000.parquet",
    );
    data_file.column_sizes = counts(&[(1, 61), (2, 73), (3, 61)]);
    data_file.value_counts = vec![];
    data_file.null_value_counts = vec![];
    data_file.lower_bounds = vec![
        (1, Datum::long(1)),
        (2, Datum::int32(2)),
        (3, Datum::string("x")),
    ];
    data_file.upper_bounds = vec![
        (1, Datum::long(1)),
        (2, Datum::int32(2)),
        (3, Datum::string("x")),
    ];
    let entries = vec![ManifestEntry {
        status: ManifestStatus::Added,
        snapshot_id: None,
        sequence_number: None,
        file_sequence_number: None,
        data_file,
    }];

    let mut writer = ManifestWriterBuilder::new(
        "memory://test_manifest.avro".to_string(),
        Some(2),
        vec![],
        metadata.schema.clone(),
        metadata.partition_spec.clone(),
    )
    .build_v2_data();
    for entry in &entries {
        writer.add_entry(entry.clone()).unwrap();
    }
    let (_, bytes) = writer.write_manifest_file().unwrap();

    let actual_manifest = Manifest::parse_avro(&bytes).unwrap();

    // Compared with the original manifest, the bounds no longer hold data for
    // field 3, and the other parts are the same.
    let mut expected_data_file = base_data_file(
        "s3a://icebergdata/demo/s1/t1/data/00000-0-378b56f5-5c52-4102-a2c2-f05f8a7cbe4a-00000.parquet",
    );
    expected_data_file.column_sizes = counts(&[(1, 61), (2, 73), (3, 61)]);
    expected_data_file.value_counts = vec![];
    expected_data_file.null_value_counts = vec![];
    expected_data_file.lower_bounds = vec![(1, Datum::long(1)), (2, Datum::int32(2))];
    expected_data_file.upper_bounds = vec![(1, Datum::long(1)), (2, Datum::int32(2))];
    let expected_manifest = Manifest {
        metadata,
        entries: vec![ManifestEntry {
            status: ManifestStatus::Added,
            snapshot_id: Some(2),
            sequence_number: None,
            file_sequence_number: None,
            data_file: expected_data_file,
        }],
    };
    assert_eq!(actual_manifest, expected_manifest);
}

#[test]
fn test_manifest_summary() {
    let schema = Schema {
        schema_id: 0,
        fields: vec![
            field(1, "time", PrimitiveType::Date),
            field(2, "v_float", PrimitiveType::Float),
            field(3, "v_double", PrimitiveType::Double),
        ],
    };
    let partition_spec = PartitionSpec {
        spec_id: 0,
        fields: vec![
            PartitionField {
                source_id: 1,
                field_id: 1000,
                name: "year_of_time".to_string(),
                transform: "year".to_string(),
            },
            PartitionField {
                source_id: 2,
                field_id: 1001,
                name: "f".to_string(),
                transform: "identity".to_string(),
            },
            PartitionField {
                source_id: 3,
                field_id: 1002,
                name: "d".to_string(),
                transform: "identity".to_string(),
            },
        ],
    };
    let partitions = vec![
        Struct::from_vec(vec![
            Some(PrimitiveLiteral::Int(2021)),
            Some(PrimitiveLiteral::Float((1.0f32).to_bits())),
            Some(PrimitiveLiteral::Double((2.0f64).to_bits())),
        ]),
        Struct::from_vec(vec![
            Some(PrimitiveLiteral::Int(1111)),
            Some(PrimitiveLiteral::Float((15.5f32).to_bits())),
            Some(PrimitiveLiteral::Double((25.5f64).to_bits())),
        ]),
        Struct::from_vec(vec![
            Some(PrimitiveLiteral::Int(1211)),
            Some(PrimitiveLiteral::Float(f32::NAN.to_bits())),
            Some(PrimitiveLiteral::Double((1.0f64).to_bits())),
        ]),
        Struct::from_vec(vec![
            Some(PrimitiveLiteral::Int(1111)),
            None,
            Some(PrimitiveLiteral::Double((11.0f64).to_bits())),
        ]),
    ];
    let mut writer = ManifestWriterBuilder::new(
        "memory://test_manifest.avro".to_string(),
        Some(1),
        vec![],
        schema,
        partition_spec,
    )
    .build_v2_data();
    for partition in partitions {
        let mut data_file = base_data_file(
            "s3a://icebergdata/demo/s1/t1/data/00000-0-ba56fbfa-f2ff-40c9-bb27-565ad6dc2be8-00000.parquet",
        );
        data_file.partition = partition;
        let entry = ManifestEntry {
            status: ManifestStatus::Added,
            snapshot_id: None,
            sequence_number: None,
            file_sequence_number: None,
            data_file,
        };
        writer.add_entry(entry).unwrap();
    }
    let (res, _) = writer.write_manifest_file().unwrap();

    assert_eq!(res.partitions.len(), 3);
    assert_eq!(res.partitions[0].lower_bound, Some(Datum::int32(1111)));
    assert_eq!(res.partitions[0].upper_bound, Some(Datum::int32(2021)));
    assert!(!res.partitions[0].contains_null);
    assert_eq!(res.partitions[0].contains_nan, Some(false));

    assert_eq!(
        res.partitions[1].lower_bound,
        Some(Datum::float_bits((1.0f32).to_bits()))
    );
    assert_eq!(
        res.partitions[1].upper_bound,
        Some(Datum::float_bits((15.5f32).to_bits()))
    );
    assert!(res.partitions[1].contains_null);
    assert_eq!(res.partitions[1].contains_nan, Some(true));

    assert_eq!(
        res.partitions[2].lower_bound,
        Some(Datum::double_bits((1.0f64).to_bits()))
    );
    assert_eq!(
        res.partitions[2].upper_bound,
        Some(Datum::double_bits((25.5f64).to_bits()))
    );
    assert!(!res.partitions[2].contains_null);
    assert_eq!(res.partitions[2].contains_nan, Some(false));
}

#[test]
fn test_add_delete_existing() {
    let schema = Schema {
        schema_id: 0,
        fields: vec![
            field(1, "id", PrimitiveType::Int),
            field(2, "name", PrimitiveType::String),
        ],
    };
    let metadata = ManifestMetadata {
        schema_id: 0,
        schema: schema.clone(),
        partition_spec: PartitionSpec { spec_id: 0, fields: vec![] },
        content: ManifestContentType::Data,
        format_version: FormatVersion::V2,
    };
    let make_file = || {
        let mut df = base_data_file(
            "s3a://icebergdata/demo/s1/t1/data/00000-0-ba56fbfa-f2ff-40c9-bb27-565ad6dc2be8-00000.parquet",
        );
        df.column_sizes = counts(&[(1, 61), (2, 73)]);
        df.value_counts = counts(&[(1, 1), (2, 1)]);
        df.null_value_counts = counts(&[(1, 0), (2, 0)]);
        df.key_metadata = Some(Vec::new());
        df
    };
    let mut entries = vec![
        ManifestEntry {
            status: ManifestStatus::Added,
            snapshot_id: None,
            sequence_number: Some(1),
            file_sequence_number: Some(1),
            data_file: make_file(),
        },
        ManifestEntry {
            status: ManifestStatus::Deleted,
            snapshot_id: Some(1),
            sequence_number: Some(1),
            file_sequence_number: Some(1),
            data_file: make_file(),
        },
        ManifestEntry {
            status: ManifestStatus::Existing,
            snapshot_id: Some(1),
            sequence_number: Some(1),
            file_sequence_number: Some(1),
            data_file: make_file(),
        },
    ];

    let mut writer = ManifestWriterBuilder::new(
        "memory://test_manifest.avro".to_string(),
        Some(3),
        vec![],
        metadata.schema.clone(),
        metadata.partition_spec.clone(),
    )
    .build_v2_data();
    writer.add_entry(entries[0].clone()).unwrap();
    writer.add_delete_entry(entries[1].clone()).unwrap();
    writer.add_existing_entry(entries[2].clone()).unwrap();
    let (manifest_file, bytes) = writer.write_manifest_file().unwrap();

    assert_eq!(manifest_file.added_files_count, Some(1));
    assert_eq!(manifest_file.deleted_files_count, Some(1));
    assert_eq!(manifest_file.existing_files_count, Some(1));
    assert_eq!(manifest_file.added_rows_count, Some(1));
    assert_eq!(manifest_file.deleted_rows_count, Some(1));
    assert_eq!(manifest_file.existing_rows_count, Some(1));

    let actual_manifest = Manifest::parse_avro(&bytes).unwrap();

    // The snapshot id is assigned when the entry is added or deleted; existing
    // entries keep the original. The file sequence number is cleared when the
    // entry is added.
    entries[0].snapshot_id = Some(3);
    entries[1].snapshot_id = Some(3);
    entries[0].file_sequence_number = None;
    assert_eq!(actual_manifest, Manifest::new(metadata, entries));
}

#[test]
fn test_data_file_serialize_deserialize() {
    let schema = Schema {
        schema_id: 0,
        fields: vec![
            field(1, "v1", PrimitiveType::Int),
            field(2, "v2", PrimitiveType::String),
            field(3, "v3", PrimitiveType::String),
        ],
    };
    let data_files = vec![DataFile {
        content: DataContentType::Data,
        file_path: "s3://testbucket/iceberg_data/iceberg_ctl/iceberg_db/iceberg_tbl/data/00000-7-45268d71-54eb-476c-b42c-942d880c04a1-00001.parquet".to_string(),
        file_format: DataFileFormat::Parquet,
        partition: Struct::empty(),
        record_count: 1,
        file_size_in_bytes: 875,
        column_sizes: counts(&[(1, 47), (2, 48), (3, 52)]),
        value_counts: counts(&[(1, 1), (2, 1), (3, 1)]),
        null_value_counts: counts(&[(1, 0), (2, 0), (3, 0)]),
        nan_value_counts: vec![],
        lower_bounds: vec![
            (1, Datum::int32(1)),
            (2, Datum::string("a")),
            (3, Datum::string("AC/DC")),
        ],
        upper_bounds: vec![
            (1, Datum::int32(1)),
            (2, Datum::string("a")),
            (3, Datum::string("AC/DC")),
        ],
        key_metadata: None,
        split_offsets: vec![4],
        equality_ids: vec![],
        sort_order_id: Some(0),
        partition_spec_id: 0,
    }];

    let buffer = write_data_files_to_avro(
        data_files.clone(),
        &StructType { fields: vec![] },
        FormatVersion::V2,
    )
    .unwrap();

    let actual_data_file = read_data_files_from_avro(
        &buffer,
        &schema,
        0,
        &StructType { fields: vec![] },
        FormatVersion::V2,
    )
    .unwrap();

    assert_eq!(data_files, actual_data_file);
}
