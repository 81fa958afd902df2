pub mod manifest_file_meta;
pub mod record;
pub mod stats;
pub mod text;

pub use manifest_file_meta::ManifestFileMeta;
pub use record::{DecodeError, Entry, FieldKey, FieldValue};
pub use stats::BinaryTableStats;
