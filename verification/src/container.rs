//! Reading manifests back: parsing the container user metadata into
//! [`ManifestMetadata`], decoding the buffered records through the version's
//! transform, and the standalone data-file codec used by upper layers.
use vstd::prelude::*;

use crate::avro::{
    data_file_schema_json, manifest_schema_v1_json, manifest_schema_v2_json, ocf_meta_of,
    ocf_records, ocf_user_metadata, ocf_write, spec_meta_get, spec_meta_view, value_to_wire_df,
    value_to_wire_entry_v1, value_to_wire_entry_v2, wire_df_to_value,
};
use crate::error::Error;
use crate::avro::spec_avro_type_supported;
use crate::json::{
    json_parse, json_tree_ok, partition_fields_from_json, schema_from_json, spec_render_i32,
};
use crate::manifest::{
    DataFile, EntryV, FormatVersion, Manifest, ManifestContentType, ManifestEntry,
    ManifestMetadata,
};
use crate::schema::{PartitionSpec, Schema, StructType};
use crate::strutil::{parse_i32, spec_parse_i32, str_eq};
use crate::writer::spec_manifest_user_metadata;
use crate::wire::{
    datafile_to_wire, lemma_df_from_wire_shape, spec_bounds_known, spec_df_to_wire,
    wire_to_datafile, wire_to_entry_v1, wire_to_entry_v2,
};
use apache_avro::types::Value as AvroValue;
use vstd::string::StrSliceExecFns;
use vstd::utf8::{decode_utf8, encode_utf8, valid_utf8};

verus! {

/// Look a user-metadata key up; the first pair under the key wins.
fn meta_get<'a>(meta: &'a Vec<(String, Vec<u8>)>, key: &str) -> (r: Option<&'a Vec<u8>>)
    ensures
        match r {
            Some(v) => spec_meta_get(spec_meta_view(meta@), key@) == Some(v@),
            None => spec_meta_get(spec_meta_view(meta@), key@) is None,
        },
{
    let ghost mv = spec_meta_view(meta@);
    let n = meta.len();
    let mut i: usize = 0;
    proof {
        assert(mv.skip(0) =~= mv);
    }
    while i < n
        invariant
            i <= n,
            n == meta@.len(),
            mv == spec_meta_view(meta@),
            spec_meta_get(mv, key@) == spec_meta_get(mv.skip(i as int), key@),
        decreases n - i,
    {
        proof {
            assert(mv.skip(i as int)[0] == mv[i as int]);
            assert(mv.skip(i as int).drop_first() =~= mv.skip(i + 1));
        }
        if str_eq(meta[i].0.as_str(), key) {
            return Some(&meta[i].1);
        }
        i = i + 1;
    }
    proof {
        assert(mv.skip(n as int).len() == 0);
    }
    None
}

/// The facts a parsed manifest's metadata owes to the user-metadata map of
/// the container it was read from: both required JSON values are present and
/// well-formed JSON, and the scalar keys determine the ids, the format version
/// and the content type, with the documented defaults when absent.
pub open spec fn spec_metadata_matches_map(
    m: ManifestMetadata,
    mp: Map<Seq<char>, Seq<u8>>,
) -> bool {
    &&& mp.contains_key("schema"@) && json_tree_ok(mp["schema"@])
    &&& mp.contains_key("partition-spec"@) && json_tree_ok(mp["partition-spec"@])
    &&& (if mp.contains_key("schema-id"@) {
        spec_id_of(mp["schema-id"@]) == Some(m.schema_id)
    } else {
        m.schema_id == 0
    })
    &&& (if mp.contains_key("partition-spec-id"@) {
        spec_id_of(mp["partition-spec-id"@]) == Some(m.partition_spec.spec_id)
    } else {
        m.partition_spec.spec_id == 0
    })
    &&& (if mp.contains_key("format-version"@) {
        spec_format_version_of(mp["format-version"@]) == Some(m.format_version)
    } else {
        m.format_version == FormatVersion::V1
    })
    &&& (if mp.contains_key("content"@) {
        spec_content_of(mp["content"@]) == Some(m.content)
    } else {
        m.content == ManifestContentType::Data
    })
}

/// The shape facts every decoded entry owes to the metadata it was decoded
/// under: the version 1 defaults are synthesized, the partition tuple has the
/// partition spec's arity and carries its id, and every bound names a
/// primitive column of the returned schema at the bound's type.
pub open spec fn spec_entry_shape_ok(e: EntryV, m: ManifestMetadata) -> bool {
    &&& (m.format_version == FormatVersion::V1 ==> e.sequence_number == Some(0i64)
        && e.file_sequence_number == Some(0i64) && e.snapshot_id is Some)
    &&& e.data_file.partition.len() == m.partition_spec.fields@.len()
    &&& e.data_file.partition_spec_id == m.partition_spec.spec_id
    &&& spec_bounds_known(m.schema.fields@, e.data_file.lower_bounds)
    &&& spec_bounds_known(m.schema.fields@, e.data_file.upper_bounds)
}

/// The metadata round trip at the scalar level: when a container carries
/// exactly the user-metadata pairs the writer renders for a manifest, any
/// parse whose result matches that map returns the manifest's schema id,
/// partition-spec id and format version unchanged, and its content type in
/// version 2; a version 1 container carries no content key, so the parse
/// falls back to data files.
pub proof fn lemma_metadata_scalars_roundtrip(
    m0: ManifestMetadata,
    m: ManifestMetadata,
    mp: Map<Seq<char>, Seq<u8>>,
)
    requires
        forall|i: int|
            0 <= i < spec_manifest_user_metadata(m0).len() ==> mp.contains_key(
                (#[trigger] spec_manifest_user_metadata(m0)[i]).0,
            ) && mp[spec_manifest_user_metadata(m0)[i].0] == spec_manifest_user_metadata(m0)[i].1,
        forall|k: Seq<char>|
            #[trigger] mp.contains_key(k) ==> exists|i: int|
                0 <= i < spec_manifest_user_metadata(m0).len() && (
                #[trigger] spec_manifest_user_metadata(m0)[i]).0 == k,
        spec_metadata_matches_map(m, mp),
    ensures
        m.schema_id == m0.schema.schema_id,
        m.partition_spec.spec_id == m0.partition_spec.spec_id,
        m.format_version == m0.format_version,
        m.content == (if m0.format_version == FormatVersion::V2 {
            m0.content
        } else {
            ManifestContentType::Data
        }),
{
    reveal_strlit("schema");
    reveal_strlit("schema-id");
    reveal_strlit("partition-spec");
    reveal_strlit("partition-spec-id");
    reveal_strlit("format-version");
    reveal_strlit("content");
    reveal_strlit("1");
    reveal_strlit("2");
    reveal_strlit("data");
    reveal_strlit("deletes");
    let smv = spec_manifest_user_metadata(m0);
    assert(smv[1].0 == "schema-id"@ && smv[1].1 == encode_utf8(
        spec_render_i32(m0.schema.schema_id),
    ));
    assert(smv[3].0 == "partition-spec-id"@ && smv[3].1 == encode_utf8(
        spec_render_i32(m0.partition_spec.spec_id),
    ));
    assert(smv[4].0 == "format-version"@);
    assert(mp.contains_key("schema-id"@) && mp["schema-id"@] == smv[1].1);
    assert(mp.contains_key("partition-spec-id"@) && mp["partition-spec-id"@] == smv[3].1);
    assert(mp.contains_key("format-version"@) && mp["format-version"@] == smv[4].1);
    vstd::utf8::encode_utf8_valid_utf8(spec_render_i32(m0.schema.schema_id));
    vstd::utf8::encode_utf8_decode_utf8(spec_render_i32(m0.schema.schema_id));
    crate::json::lemma_parse_render_i32(m0.schema.schema_id);
    assert(spec_id_of(mp["schema-id"@]) == Some(m0.schema.schema_id));
    vstd::utf8::encode_utf8_valid_utf8(spec_render_i32(m0.partition_spec.spec_id));
    vstd::utf8::encode_utf8_decode_utf8(spec_render_i32(m0.partition_spec.spec_id));
    crate::json::lemma_parse_render_i32(m0.partition_spec.spec_id);
    assert(spec_id_of(mp["partition-spec-id"@]) == Some(m0.partition_spec.spec_id));
    if m0.format_version == FormatVersion::V1 {
        vstd::utf8::encode_utf8_valid_utf8("1"@);
        vstd::utf8::encode_utf8_decode_utf8("1"@);
        assert(spec_format_version_of(mp["format-version"@]) == Some(FormatVersion::V1));
        // A version 1 writer does not emit a content key, and the five keys it
        // does emit are all different from it.
        if mp.contains_key("content"@) {
            let i = choose|i: int|
                0 <= i < smv.len() && (#[trigger] smv[i]).0 == "content"@;
            assert(smv.len() == 5);
            assert("schema"@.len() == 6);
            assert("schema-id"@.len() == 9);
            assert("partition-spec"@.len() == 14);
            assert("partition-spec-id"@.len() == 17);
            assert("format-version"@.len() == 14);
            assert("content"@.len() == 7);
            assert(smv[0].0 == "schema"@);
            assert(smv[2].0 == "partition-spec"@);
            if i == 0 {
                assert(smv[i].0 == "schema"@);
            } else if i == 1 {
                assert(smv[i].0 == "schema-id"@);
            } else if i == 2 {
                assert(smv[i].0 == "partition-spec"@);
            } else if i == 3 {
                assert(smv[i].0 == "partition-spec-id"@);
            } else {
                assert(smv[i].0 == "format-version"@);
            }
            assert(false);
        }
    } else {
        vstd::utf8::encode_utf8_valid_utf8("2"@);
        vstd::utf8::encode_utf8_decode_utf8("2"@);
        assert(spec_format_version_of(mp["format-version"@]) == Some(FormatVersion::V2));
        assert(smv[5].0 == "content"@);
        assert(mp.contains_key("content"@) && mp["content"@] == smv[5].1);
        if m0.content == ManifestContentType::Data {
            vstd::utf8::encode_utf8_valid_utf8("data"@);
            vstd::utf8::encode_utf8_decode_utf8("data"@);
            assert(spec_content_of(mp["content"@]) == Some(ManifestContentType::Data));
        } else {
            vstd::utf8::encode_utf8_valid_utf8("deletes"@);
            vstd::utf8::encode_utf8_decode_utf8("deletes"@);
            assert(spec_content_of(mp["content"@]) == Some(ManifestContentType::Deletes));
        }
    }
}

/// The format version a `format-version` metadata value decodes to.
pub open spec fn spec_format_version_of(b: Seq<u8>) -> Option<FormatVersion> {
    if valid_utf8(b) && decode_utf8(b) == "1"@ {
        Some(FormatVersion::V1)
    } else if valid_utf8(b) && decode_utf8(b) == "2"@ {
        Some(FormatVersion::V2)
    } else {
        None
    }
}

/// The content type a `content` metadata value decodes to.
pub open spec fn spec_content_of(b: Seq<u8>) -> Option<ManifestContentType> {
    if valid_utf8(b) && decode_utf8(b) == "data"@ {
        Some(ManifestContentType::Data)
    } else if valid_utf8(b) && decode_utf8(b) == "deletes"@ {
        Some(ManifestContentType::Deletes)
    } else {
        None
    }
}

/// The 32-bit id a decimal metadata value decodes to.
pub open spec fn spec_id_of(b: Seq<u8>) -> Option<i32> {
    if valid_utf8(b) {
        spec_parse_i32(decode_utf8(b))
    } else {
        None
    }
}

/// Duplicate a byte vector.
fn dup_bytes(v: &Vec<u8>) -> (r: Vec<u8>)
    ensures
        r@ == v@,
{
    let n = v.len();
    let mut out: Vec<u8> = Vec::new();
    let mut i: usize = 0;
    while i < n
        invariant
            i <= n,
            n == v@.len(),
            out@ =~= v@.subrange(0, i as int),
        decreases n - i,
    {
        out.push(v[i]);
        i = i + 1;
    }
    proof {
        assert(out@ =~= v@);
    }
    out
}

/// Decode a metadata value as UTF-8 text.
fn meta_text(b: &Vec<u8>) -> (r: Option<String>)
    ensures
        r is Some <==> valid_utf8(b@),
        r matches Some(s) ==> s@ == decode_utf8(b@),
{
    crate::binary::string_from_utf8(dup_bytes(b))
}

impl ManifestMetadata {
    /// Parse manifest metadata out of the container user metadata. The
    /// `schema` and `partition-spec` values are required and JSON-decoded; the
    /// `schema-id` and `partition-spec-id` values default to zero, the
    /// `format-version` to version 1, and the `content` to data files.
    ///
    /// Success implies both required values are present and are well-formed
    /// JSON, and pins the four scalar values; a missing required key or a
    /// malformed value forces an error. What the two opaque parsed trees
    /// decode to is interpreted by verified code over contract-free accessors
    /// and is pinned by the round-trip tests against the JSON renderers.
    pub fn parse(meta: &Vec<(String, Vec<u8>)>) -> (r: Result<ManifestMetadata, Error>)
        ensures
            spec_meta_get(spec_meta_view(meta@), "schema"@) is None ==> r is Err,
            spec_meta_get(spec_meta_view(meta@), "partition-spec"@) is None ==> r is Err,
            r is Ok ==> (match spec_meta_get(spec_meta_view(meta@), "schema"@) {
                Some(b) => json_tree_ok(b),
                None => false,
            }),
            r is Ok ==> (match spec_meta_get(spec_meta_view(meta@), "partition-spec"@) {
                Some(b) => json_tree_ok(b),
                None => false,
            }),
            r matches Ok(m) ==> (match spec_meta_get(spec_meta_view(meta@), "schema-id"@) {
                None => m.schema_id == 0,
                Some(b) => spec_id_of(b) == Some(m.schema_id),
            }),
            r matches Ok(m) ==> (match spec_meta_get(
                spec_meta_view(meta@),
                "partition-spec-id"@,
            ) {
                None => m.partition_spec.spec_id == 0,
                Some(b) => spec_id_of(b) == Some(m.partition_spec.spec_id),
            }),
            r matches Ok(m) ==> (match spec_meta_get(
                spec_meta_view(meta@),
                "format-version"@,
            ) {
                None => m.format_version == FormatVersion::V1,
                Some(b) => spec_format_version_of(b) == Some(m.format_version),
            }),
            r matches Ok(m) ==> (match spec_meta_get(spec_meta_view(meta@), "content"@) {
                None => m.content == ManifestContentType::Data,
                Some(b) => spec_content_of(b) == Some(m.content),
            }),
    {
        let schema_bytes = match meta_get(meta, "schema") {
            Some(b) => b,
            None => {
                return Err(
                    Error::data_invalid(
                        "schema is required in manifest metadata but not found".to_owned(),
                    ),
                );
            },
        };
        let schema_value = match json_parse(schema_bytes) {
            Ok(v) => v,
            Err(_) => {
                return Err(
                    Error::data_invalid("the schema in manifest metadata is not JSON".to_owned()),
                );
            },
        };
        let schema = match schema_from_json(&schema_value) {
            Ok(s) => s,
            Err(e) => {
                return Err(e);
            },
        };
        let schema_id: i32 = match meta_get(meta, "schema-id") {
            Some(b) => {
                let text = match meta_text(b) {
                    Some(t) => t,
                    None => {
                        return Err(
                            Error::data_invalid("the schema id is not readable".to_owned()),
                        );
                    },
                };
                match parse_i32(text.as_str()) {
                    Some(id) => id,
                    None => {
                        return Err(
                            Error::data_invalid("the schema id is not a decimal int".to_owned()),
                        );
                    },
                }
            },
            None => 0,
        };
        let spec_bytes = match meta_get(meta, "partition-spec") {
            Some(b) => b,
            None => {
                return Err(
                    Error::data_invalid(
                        "partition-spec is required in manifest metadata but not found".to_owned(),
                    ),
                );
            },
        };
        let spec_value = match json_parse(spec_bytes) {
            Ok(v) => v,
            Err(_) => {
                return Err(
                    Error::data_invalid(
                        "the partition spec in manifest metadata is not JSON".to_owned(),
                    ),
                );
            },
        };
        let fields = match partition_fields_from_json(&spec_value) {
            Ok(f) => f,
            Err(e) => {
                return Err(e);
            },
        };
        let spec_id: i32 = match meta_get(meta, "partition-spec-id") {
            Some(b) => {
                let text = match meta_text(b) {
                    Some(t) => t,
                    None => {
                        return Err(
                            Error::data_invalid(
                                "the partition spec id is not readable".to_owned(),
                            ),
                        );
                    },
                };
                match parse_i32(text.as_str()) {
                    Some(id) => id,
                    None => {
                        return Err(
                            Error::data_invalid(
                                "the partition spec id is not a decimal int".to_owned(),
                            ),
                        );
                    },
                }
            },
            None => 0,
        };
        let format_version = match meta_get(meta, "format-version") {
            Some(b) => {
                let text = match meta_text(b) {
                    Some(t) => t,
                    None => {
                        return Err(
                            Error::data_invalid("the format version is not readable".to_owned()),
                        );
                    },
                };
                if str_eq(text.as_str(), "1") {
                    FormatVersion::V1
                } else if str_eq(text.as_str(), "2") {
                    FormatVersion::V2
                } else {
                    return Err(
                        Error::data_invalid("the format version must be 1 or 2".to_owned()),
                    );
                }
            },
            None => FormatVersion::V1,
        };
        let content = match meta_get(meta, "content") {
            Some(b) => {
                let text = match meta_text(b) {
                    Some(t) => t,
                    None => {
                        return Err(
                            Error::data_invalid("the content type is not readable".to_owned()),
                        );
                    },
                };
                if str_eq(text.as_str(), "data") {
                    ManifestContentType::Data
                } else if str_eq(text.as_str(), "deletes") {
                    ManifestContentType::Deletes
                } else {
                    return Err(
                        Error::data_invalid("the content type must be data or deletes".to_owned()),
                    );
                }
            },
            None => ManifestContentType::Data,
        };
        Ok(
            ManifestMetadata {
                schema,
                schema_id,
                partition_spec: PartitionSpec { spec_id, fields },
                format_version,
                content,
            },
        )
    }
}

impl Manifest {
    /// Parse manifest metadata and entries from the bytes of a manifest
    /// container: read the user metadata, resolve the partition type, re-open
    /// the container under the version's record schema, and decode every
    /// record through the version's transform. On success the metadata is
    /// determined by the container's user-metadata map, and every entry has
    /// the shape the metadata promises, the version 1 read defaults included.
    pub fn try_from_avro_bytes(bs: &Vec<u8>) -> (r: Result<
        (ManifestMetadata, Vec<ManifestEntry>),
        Error,
    >)
        ensures
            r matches Ok(p) ==> {
                &&& ocf_meta_of(bs@) is Some
                &&& spec_metadata_matches_map(p.0, ocf_meta_of(bs@).unwrap())
                &&& crate::schema::spec_partition_type(
                    p.0.schema.fields@,
                    p.0.partition_spec.fields@,
                ) matches Some(ptf) && forall|c: int|
                    0 <= c < ptf.len() ==> spec_avro_type_supported((#[trigger] ptf[c]).ty)
                &&& forall|j: int|
                    0 <= j < p.1@.len() ==> spec_entry_shape_ok((#[trigger] p.1@[j])@, p.0)
            },
    {
        let meta = match ocf_user_metadata(bs) {
            Ok(m) => m,
            Err(_) => {
                return Err(Error::data_invalid("the container cannot be opened".to_owned()));
            },
        };
        let metadata = match ManifestMetadata::parse(&meta) {
            Ok(m) => m,
            Err(e) => {
                return Err(e);
            },
        };
        proof {
            let mv = spec_meta_view(meta@);
            let mp = ocf_meta_of(bs@).unwrap();
            assert(spec_meta_get(mv, "schema"@) == (if mp.contains_key("schema"@) {
                Some(mp["schema"@])
            } else {
                None
            }));
            assert(spec_meta_get(mv, "partition-spec"@) == (if mp.contains_key(
                "partition-spec"@,
            ) {
                Some(mp["partition-spec"@])
            } else {
                None
            }));
            assert(spec_meta_get(mv, "schema-id"@) == (if mp.contains_key("schema-id"@) {
                Some(mp["schema-id"@])
            } else {
                None
            }));
            assert(spec_meta_get(mv, "partition-spec-id"@) == (if mp.contains_key(
                "partition-spec-id"@,
            ) {
                Some(mp["partition-spec-id"@])
            } else {
                None
            }));
            assert(spec_meta_get(mv, "format-version"@) == (if mp.contains_key(
                "format-version"@,
            ) {
                Some(mp["format-version"@])
            } else {
                None
            }));
            assert(spec_meta_get(mv, "content"@) == (if mp.contains_key("content"@) {
                Some(mp["content"@])
            } else {
                None
            }));
            assert(spec_metadata_matches_map(metadata, mp));
        }
        let partition_type = match metadata.partition_spec.partition_type(&metadata.schema) {
            Ok(t) => t,
            Err(e) => {
                return Err(e);
            },
        };
        let is_v1 = matches!(metadata.format_version, FormatVersion::V1);
        let schema_json = match metadata.format_version {
            FormatVersion::V1 => match manifest_schema_v1_json(&partition_type) {
                Ok(s) => s,
                Err(e) => {
                    return Err(e);
                },
            },
            FormatVersion::V2 => match manifest_schema_v2_json(&partition_type) {
                Ok(s) => s,
                Err(e) => {
                    return Err(e);
                },
            },
        };
        let values = match ocf_records(schema_json.as_str(), bs) {
            Ok(v) => v,
            Err(_) => {
                return Err(Error::data_invalid("the container records cannot be read".to_owned()));
            },
        };
        let spec_id = metadata.partition_spec.spec_id;
        proof {
            crate::schema::lemma_partition_type_len(
                metadata.schema.fields@,
                metadata.partition_spec.fields@,
            );
        }
        let mut entries: Vec<ManifestEntry> = Vec::new();
        let n = values.len();
        let mut i: usize = 0;
        while i < n
            invariant
                i <= n,
                n == values@.len(),
                is_v1 == (metadata.format_version == FormatVersion::V1),
                spec_id == metadata.partition_spec.spec_id,
                partition_type.fields@.len() == metadata.partition_spec.fields@.len(),
                forall|j: int|
                    0 <= j < entries@.len() ==> spec_entry_shape_ok(
                        (#[trigger] entries@[j])@,
                        metadata,
                    ),
            decreases n - i,
        {
            let entry = if is_v1 {
                let wire = match value_to_wire_entry_v1(&values[i], &partition_type) {
                    Ok(w) => w,
                    Err(e) => {
                        return Err(e);
                    },
                };
                let ghost wv = wire@;
                let e = match wire_to_entry_v1(wire, spec_id, &partition_type, &metadata.schema) {
                    Ok(e) => e,
                    Err(e) => {
                        return Err(e);
                    },
                };
                proof {
                    lemma_df_from_wire_shape(
                        wv.data_file,
                        spec_id,
                        partition_type.fields@,
                        metadata.schema.fields@,
                    );
                    assert(spec_entry_shape_ok(e@, metadata));
                }
                e
            } else {
                let wire = match value_to_wire_entry_v2(&values[i], &partition_type) {
                    Ok(w) => w,
                    Err(e) => {
                        return Err(e);
                    },
                };
                let ghost wv = wire@;
                let e = match wire_to_entry_v2(wire, spec_id, &partition_type, &metadata.schema) {
                    Ok(e) => e,
                    Err(e) => {
                        return Err(e);
                    },
                };
                proof {
                    lemma_df_from_wire_shape(
                        wv.data_file,
                        spec_id,
                        partition_type.fields@,
                        metadata.schema.fields@,
                    );
                    assert(spec_entry_shape_ok(e@, metadata));
                }
                e
            };
            entries.push(entry);
            i = i + 1;
        }
        Ok((metadata, entries))
    }

    /// Parse a manifest from the bytes of a manifest container. On success the
    /// metadata is determined by the container's user-metadata map, and every
    /// entry has the shape the metadata promises, the version 1 read defaults
    /// included.
    pub fn parse_avro(bs: &Vec<u8>) -> (r: Result<Manifest, Error>)
        ensures
            r matches Ok(m) ==> {
                &&& ocf_meta_of(bs@) is Some
                &&& spec_metadata_matches_map(m.metadata, ocf_meta_of(bs@).unwrap())
                &&& forall|j: int|
                    0 <= j < m.entries@.len() ==> spec_entry_shape_ok(
                        (#[trigger] m.entries@[j])@,
                        m.metadata,
                    )
            },
    {
        let (metadata, entries) = match Self::try_from_avro_bytes(bs) {
            Ok(p) => p,
            Err(e) => {
                return Err(e);
            },
        };
        Ok(Manifest::new(metadata, entries))
    }
}

/// Encode a batch of data files as a standalone container of data-file
/// records, without the manifest-entry envelope, and return the container
/// bytes. Success implies every partition column type is supported and every
/// file fits the wire shape, so failing either forces an error; only the
/// container serializer itself can refuse past those checks.
pub fn write_data_files_to_avro(
    data_files: Vec<DataFile>,
    partition_type: &StructType,
    version: FormatVersion,
) -> (r: Result<Vec<u8>, Error>)
    ensures
        r is Ok ==> {
            &&& forall|c: int|
                0 <= c < partition_type.fields@.len() ==> spec_avro_type_supported(
                    (#[trigger] partition_type.fields@[c]).ty,
                )
            &&& forall|k: int|
                0 <= k < data_files@.len() ==> spec_df_to_wire(
                    (#[trigger] data_files@[k])@,
                    partition_type.fields@,
                ) is Some
        },
{
    let v1 = matches!(version, FormatVersion::V1);
    let schema_json = match data_file_schema_json(partition_type, v1) {
        Ok(s) => s,
        Err(e) => {
            return Err(e);
        },
    };
    let ghost files0 = data_files@;
    let mut records: Vec<AvroValue> = Vec::new();
    let mut remaining = data_files;
    let total = remaining.len();
    let mut idx: usize = 0;
    proof {
        assert(remaining@ =~= files0.skip(0));
    }
    while remaining.len() > 0
        invariant
            idx <= total,
            total == files0.len(),
            idx + remaining@.len() == files0.len(),
            remaining@ == files0.skip(idx as int),
            forall|k: int|
                0 <= k < idx ==> spec_df_to_wire(
                    (#[trigger] files0[k])@,
                    partition_type.fields@,
                ) is Some,
        decreases remaining@.len(),
    {
        let df = remaining.remove(0);
        proof {
            assert(df == files0[idx as int]);
            assert(remaining@ =~= files0.skip(idx + 1));
        }
        let ghost df_view = df@;
        let wire = match datafile_to_wire(df, partition_type) {
            Ok(w) => w,
            Err(e) => {
                return Err(e);
            },
        };
        let value = match wire_df_to_value(wire, partition_type, v1) {
            Ok(v) => v,
            Err(e) => {
                return Err(e);
            },
        };
        proof {
            assert(spec_df_to_wire(df_view, partition_type.fields@) is Some);
        }
        records.push(value);
        idx = idx + 1;
    }
    proof {
        assert(files0.skip(idx as int).len() == 0);
        assert(idx == files0.len());
    }
    let meta: Vec<(String, Vec<u8>)> = Vec::new();
    match ocf_write(schema_json.as_str(), meta, records) {
        Ok(b) => Ok(b),
        Err(_) => Err(
            Error::data_invalid("the container serializer refused the data files".to_owned()),
        ),
    }
}

/// Decode a batch of data files from a standalone container of data-file
/// records. Every decoded file's partition tuple has the partition type's
/// arity and carries the given spec id, and every bound names a primitive
/// column of the schema at the bound's type.
pub fn read_data_files_from_avro(
    bs: &Vec<u8>,
    schema: &Schema,
    partition_spec_id: i32,
    partition_type: &StructType,
    version: FormatVersion,
) -> (r: Result<Vec<DataFile>, Error>)
    ensures
        r matches Ok(v) ==> forall|k: int|
            0 <= k < v@.len() ==> {
                let df = (#[trigger] v@[k])@;
                &&& df.partition.len() == partition_type.fields@.len()
                &&& df.partition_spec_id == partition_spec_id
                &&& spec_bounds_known(schema.fields@, df.lower_bounds)
                &&& spec_bounds_known(schema.fields@, df.upper_bounds)
            },
{
    let v1 = matches!(version, FormatVersion::V1);
    let schema_json = match data_file_schema_json(partition_type, v1) {
        Ok(s) => s,
        Err(e) => {
            return Err(e);
        },
    };
    let values = match ocf_records(schema_json.as_str(), bs) {
        Ok(v) => v,
        Err(_) => {
            return Err(Error::data_invalid("the container records cannot be read".to_owned()));
        },
    };
    let mut out: Vec<DataFile> = Vec::new();
    let n = values.len();
    let mut i: usize = 0;
    while i < n
        invariant
            i <= n,
            n == values@.len(),
            forall|k: int|
                0 <= k < out@.len() ==> {
                    let df = (#[trigger] out@[k])@;
                    &&& df.partition.len() == partition_type.fields@.len()
                    &&& df.partition_spec_id == partition_spec_id
                    &&& spec_bounds_known(schema.fields@, df.lower_bounds)
                    &&& spec_bounds_known(schema.fields@, df.upper_bounds)
                },
        decreases n - i,
    {
        let wire = match value_to_wire_df(&values[i], partition_type, v1) {
            Ok(w) => w,
            Err(e) => {
                return Err(e);
            },
        };
        let ghost wv = wire@;
        let df = match wire_to_datafile(wire, partition_spec_id, partition_type, schema) {
            Ok(d) => d,
            Err(e) => {
                return Err(e);
            },
        };
        proof {
            lemma_df_from_wire_shape(
                wv,
                partition_spec_id,
                partition_type.fields@,
                schema.fields@,
            );
        }
        out.push(df);
        i = i + 1;
    }
    Ok(out)
}

} // verus!
