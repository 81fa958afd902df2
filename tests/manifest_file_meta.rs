use paimon_manifest::manifest_file_meta::ManifestFileMeta;
use paimon_manifest::record::{DecodeError, Entry, FieldKey, FieldValue};
use paimon_manifest::stats::BinaryTableStats;

fn sample() -> ManifestFileMeta {
    ManifestFileMeta::new(
        "manifest-0001".to_string(),
        1024,
        3,
        1,
        BinaryTableStats::empty(),
        7,
    )
}

fn sample_stats() -> BinaryTableStats {
    BinaryTableStats::new(vec![0, 1, 255], vec![9, 200], vec![0, -3, i64::MAX])
}

fn entry(key: &str, value: FieldValue) -> Entry {
    Entry { key: key.to_string(), value }
}

fn mandatory_entries() -> Vec<Entry> {
    vec![
        entry("_VERSION", FieldValue::Int(2)),
        entry("_FILE_NAME", FieldValue::Text("manifest-0001".to_string())),
        entry("_FILE_SIZE", FieldValue::Long(1024)),
        entry("_NUM_ADDED_FILES", FieldValue::Long(3)),
        entry("_NUM_DELETED_FILES", FieldValue::Long(1)),
        entry("_PARTITION_STATS", FieldValue::Stats(BinaryTableStats::empty())),
        entry("_SCHEMA_ID", FieldValue::Long(7)),
    ]
}

fn keys_of(entries: &[Entry]) -> Vec<String> {
    entries.iter().map(|e| e.key.clone()).collect()
}

#[test]
fn new_sets_current_version_and_arguments() {
    let m = ManifestFileMeta::new("a/b/manifest-9".to_string(), 77, 5, 6, sample_stats(), 12);
    assert_eq!(m.version(), 2);
    assert_eq!(m.file_name(), "a/b/manifest-9");
    assert_eq!(m.file_size(), 77);
    assert_eq!(m.num_added_files(), 5);
    assert_eq!(m.num_deleted_files(), 6);
    assert_eq!(m.partition_stats(), &sample_stats());
    assert_eq!(m.schema_id(), 12);
    assert_eq!(m.min_bucket(), None);
    assert_eq!(m.max_bucket(), None);
    assert_eq!(m.min_level(), None);
    assert_eq!(m.max_level(), None);
}

#[test]
fn with_each_optional_changes_only_that_field() {
    let base = ManifestFileMeta::new("f".to_string(), 1, 2, 3, sample_stats(), 4);
    let m = base.clone().with_min_bucket(Some(-5));
    assert_eq!(m.min_bucket(), Some(-5));
    assert_eq!(m.clone().with_min_bucket(None), base);
    let m = base.clone().with_max_bucket(Some(i32::MAX));
    assert_eq!(m.max_bucket(), Some(i32::MAX));
    assert_eq!(m.min_bucket(), None);
    assert_eq!(m.clone().with_max_bucket(None), base);
    let m = base.clone().with_min_level(Some(0));
    assert_eq!(m.min_level(), Some(0));
    assert_eq!(m.max_level(), None);
    assert_eq!(m.clone().with_min_level(None), base);
    let m = base.clone().with_max_level(Some(i32::MIN));
    assert_eq!(m.max_level(), Some(i32::MIN));
    assert_eq!(m.file_name(), "f");
    assert_eq!(m.partition_stats(), &sample_stats());
    assert_eq!(m.clone().with_max_level(None), base);
}

#[test]
fn encode_then_decode_gives_the_record() {
    let m = ManifestFileMeta::new("x".to_string(), 10, 20, 30, sample_stats(), 40)
        .with_min_bucket(Some(1))
        .with_max_level(Some(4));
    let back = ManifestFileMeta::decode(&m.encode()).unwrap();
    assert_eq!(back, m);
    assert_eq!(back.min_bucket(), Some(1));
    assert_eq!(back.max_bucket(), None);
    assert_eq!(back.max_level(), Some(4));
}

#[test]
fn decode_keeps_an_older_version() {
    let mut entries = mandatory_entries();
    entries[0] = entry("_VERSION", FieldValue::Int(1));
    let m = ManifestFileMeta::decode(&entries).unwrap();
    assert_eq!(m.version(), 1);
    assert_eq!(ManifestFileMeta::decode(&m.encode()).unwrap(), m);
}

#[test]
fn missing_optional_keys_decode_as_unknown() {
    let m = ManifestFileMeta::decode(&mandatory_entries()).unwrap();
    assert_eq!(m.min_bucket(), None);
    assert_eq!(m.max_bucket(), None);
    assert_eq!(m.min_level(), None);
    assert_eq!(m.max_level(), None);
    assert_eq!(m, sample());
}

#[test]
fn null_optional_keys_decode_as_missing() {
    let mut entries = mandatory_entries();
    entries.insert(2, entry("_MIN_BUCKET", FieldValue::Null));
    entries.push(entry("_MAX_BUCKET", FieldValue::Null));
    entries.push(entry("_MIN_LEVEL", FieldValue::Null));
    entries.push(entry("_MAX_LEVEL", FieldValue::Null));
    assert_eq!(
        ManifestFileMeta::decode(&entries).unwrap(),
        ManifestFileMeta::decode(&mandatory_entries()).unwrap()
    );
}

#[test]
fn display_lists_the_six_fields() {
    let m = ManifestFileMeta::new("m".to_string(), -1, 0, i64::MAX, sample_stats(), i64::MIN)
        .with_min_bucket(Some(3));
    let text = m.to_string();
    assert_eq!(
        text,
        "{m, -1, 0, 9223372036854775807, BinaryTableStats { min_values: [0, 1, 255], max_values: [9, 200], null_counts: [0, -3, 9223372036854775807] }, -9223372036854775808}"
    );
    for key in ["_VERSION", "_FILE_NAME", "_FILE_SIZE", "_NUM_ADDED_FILES", "_NUM_DELETED_FILES",
        "_PARTITION_STATS", "_SCHEMA_ID", "_MIN_BUCKET", "_MAX_BUCKET", "_MIN_LEVEL", "_MAX_LEVEL"]
    {
        assert!(!text.contains(key));
    }
}

#[test]
fn stats_text_matches_debug_form() {
    let stats = sample_stats();
    let mut s = String::new();
    stats.push_debug(&mut s);
    assert_eq!(s, format!("{:?}", stats));
    let mut e = String::new();
    BinaryTableStats::empty().push_debug(&mut e);
    assert_eq!(e, format!("{:?}", BinaryTableStats::empty()));
}

#[test]
fn zero_sizes_and_counts_round_trip() {
    let m = ManifestFileMeta::new("empty".to_string(), 0, 0, 0, BinaryTableStats::empty(), 0);
    assert_eq!(m.file_size(), 0);
    assert_eq!(m.num_added_files(), 0);
    assert_eq!(m.num_deleted_files(), 0);
    assert_eq!(ManifestFileMeta::decode(&m.encode()).unwrap(), m);
}

#[test]
fn largest_sizes_and_counts_round_trip() {
    let m = ManifestFileMeta::new(
        "big".to_string(),
        i64::MAX,
        i64::MAX,
        i64::MAX,
        BinaryTableStats::empty(),
        i64::MAX,
    );
    assert_eq!(m.file_size(), i64::MAX);
    assert_eq!(m.schema_id(), i64::MAX);
    let back = ManifestFileMeta::decode(&m.encode()).unwrap();
    assert_eq!(back, m);
    assert_eq!(back.num_added_files(), i64::MAX);
    assert_eq!(back.num_deleted_files(), i64::MAX);
}

#[test]
fn new_record_renders_and_has_no_ranges() {
    let m = sample();
    assert_eq!(m.version(), 2);
    assert_eq!(m.min_bucket(), None);
    assert_eq!(m.max_bucket(), None);
    assert_eq!(m.min_level(), None);
    assert_eq!(m.max_level(), None);
    assert_eq!(
        m.to_string(),
        format!("{{manifest-0001, 1024, 3, 1, {:?}, 7}}", BinaryTableStats::empty())
    );
}

#[test]
fn bucket_range_leaves_levels_unknown() {
    let m = sample().with_min_bucket(Some(0)).with_max_bucket(Some(15));
    assert_eq!(m.min_bucket(), Some(0));
    assert_eq!(m.max_bucket(), Some(15));
    assert_eq!(m.min_level(), None);
    assert_eq!(m.max_level(), None);
}

#[test]
fn encoding_leaves_out_unknown_levels() {
    let m = sample().with_min_bucket(Some(0)).with_max_bucket(Some(15));
    let entries = m.encode();
    assert_eq!(
        keys_of(&entries),
        vec![
            "_VERSION", "_FILE_NAME", "_FILE_SIZE", "_NUM_ADDED_FILES", "_NUM_DELETED_FILES",
            "_PARTITION_STATS", "_SCHEMA_ID", "_MIN_BUCKET", "_MAX_BUCKET",
        ]
    );
    assert!(entries.iter().all(|e| e.key != "_MIN_LEVEL" && e.key != "_MAX_LEVEL"));
    assert_eq!(entries[0].value, FieldValue::Int(2));
    assert_eq!(entries[1].value, FieldValue::Text("manifest-0001".to_string()));
    assert_eq!(entries[2].value, FieldValue::Long(1024));
    assert_eq!(entries[6].value, FieldValue::Long(7));
    assert_eq!(entries[7].value, FieldValue::Int(0));
    assert_eq!(entries[8].value, FieldValue::Int(15));
}

#[test]
fn null_min_level_decodes_as_unknown() {
    let mut entries = mandatory_entries();
    entries.push(entry("_MIN_LEVEL", FieldValue::Null));
    let m = ManifestFileMeta::decode(&entries).unwrap();
    assert_eq!(m.min_level(), None);
    assert_eq!(m.max_level(), None);
    assert_eq!(m, sample());
}

#[test]
fn equality_follows_each_field() {
    let a = sample();
    let b = sample();
    assert_eq!(a, b);
    let b = b.with_max_level(Some(2));
    assert_ne!(a, b);
    let b = b.with_max_level(None);
    assert_eq!(a, b);
}

#[test]
fn clone_is_independent() {
    let first = sample();
    let copy = first.clone().with_min_bucket(Some(3));
    assert_eq!(first.min_bucket(), None);
    assert_eq!(copy.min_bucket(), Some(3));
}

#[test]
fn decode_reports_a_missing_field() {
    let mut entries = mandatory_entries();
    entries.remove(4);
    assert_eq!(
        ManifestFileMeta::decode(&entries),
        Err(DecodeError::MissingField(FieldKey::NumDeletedFiles))
    );
    assert_eq!(ManifestFileMeta::decode(&Vec::new()), Err(DecodeError::MissingField(FieldKey::Version)));
}

#[test]
fn decode_reports_a_duplicate_field() {
    let mut entries = mandatory_entries();
    entries.push(entry("_MAX_BUCKET", FieldValue::Int(1)));
    entries.push(entry("_MAX_BUCKET", FieldValue::Null));
    assert_eq!(
        ManifestFileMeta::decode(&entries),
        Err(DecodeError::DuplicateField(FieldKey::MaxBucket))
    );
}

#[test]
fn decode_reports_an_invalid_type() {
    let mut entries = mandatory_entries();
    entries[2] = entry("_FILE_SIZE", FieldValue::Int(1024));
    assert_eq!(
        ManifestFileMeta::decode(&entries),
        Err(DecodeError::InvalidType(FieldKey::FileSize))
    );
    let mut entries = mandatory_entries();
    entries[6] = entry("_SCHEMA_ID", FieldValue::Null);
    assert_eq!(
        ManifestFileMeta::decode(&entries),
        Err(DecodeError::InvalidType(FieldKey::SchemaId))
    );
}

#[test]
fn decode_reports_the_first_field_in_declaration_order() {
    let mut entries = mandatory_entries();
    entries.remove(1);
    entries.push(entry("_VERSION", FieldValue::Int(2)));
    assert_eq!(
        ManifestFileMeta::decode(&entries),
        Err(DecodeError::DuplicateField(FieldKey::Version))
    );
}

#[test]
fn decode_ignores_unknown_keys() {
    let mut entries = mandatory_entries();
    entries.insert(0, entry("_EXTRA", FieldValue::Long(5)));
    assert_eq!(ManifestFileMeta::decode(&entries).unwrap(), sample());
}

#[test]
fn field_keys_have_their_stored_names() {
    let names: Vec<&str> = paimon_manifest::record::field_keys().iter().map(|k| k.name()).collect();
    assert_eq!(
        names,
        vec![
            "_VERSION", "_FILE_NAME", "_FILE_SIZE", "_NUM_ADDED_FILES", "_NUM_DELETED_FILES",
            "_PARTITION_STATS", "_SCHEMA_ID", "_MIN_BUCKET", "_MAX_BUCKET", "_MIN_LEVEL", "_MAX_LEVEL",
        ]
    );
}

#[test]
fn field_gives_stored_value() {
    let m = sample().with_max_level(Some(6));
    assert_eq!(m.field(FieldKey::NumAddedFiles), Some(FieldValue::Long(3)));
    assert_eq!(m.field(FieldKey::PartitionStats), Some(FieldValue::Stats(BinaryTableStats::empty())));
    assert_eq!(m.field(FieldKey::MaxLevel), Some(FieldValue::Int(6)));
    assert_eq!(m.field(FieldKey::MinLevel), None);
}

#[test]
fn stats_accessors_and_equality() {
    let s = sample_stats();
    assert_eq!(s.min_values(), &vec![0u8, 1, 255]);
    assert_eq!(s.max_values(), &vec![9u8, 200]);
    assert_eq!(s.null_counts(), &vec![0i64, -3, i64::MAX]);
    assert_eq!(s.clone(), s);
    assert_ne!(s, BinaryTableStats::empty());
}
