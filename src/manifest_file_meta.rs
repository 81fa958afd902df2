use vstd::prelude::*;
use crate::record::{key_name, lemma_key_name_shape, FieldKey};
use crate::stats::{lemma_stats_text_underscores, stats_text, BinaryTableStats, StatsView};
use crate::text::{
    int_text, is_lower, lemma_int_text_no_underscore, lemma_no_underscore_leads_lower,
    lemma_underscores_concat, push_int, underscores_lead_lower,
};

verus! {

/// Format version that newly built records carry.
pub const CURRENT_VERSION: i32 = 2;

/// Metadata of a manifest file: its name and size, how many data files it
/// adds and deletes, the statistics of its partitions, the schema it was
/// written under, and optionally the bucket and level ranges it covers.
#[derive(Debug)]
pub struct ManifestFileMeta {
    version: i32,
    file_name: String,
    file_size: i64,
    num_added_files: i64,
    num_deleted_files: i64,
    partition_stats: BinaryTableStats,
    schema_id: i64,
    min_bucket: Option<i32>,
    max_bucket: Option<i32>,
    min_level: Option<i32>,
    max_level: Option<i32>,
}

/// The mathematical value of a [`ManifestFileMeta`]: its eleven fields.
pub struct MetaView {
    pub version: i32,
    pub file_name: Seq<char>,
    pub file_size: i64,
    pub num_added_files: i64,
    pub num_deleted_files: i64,
    pub partition_stats: StatsView,
    pub schema_id: i64,
    pub min_bucket: Option<i32>,
    pub max_bucket: Option<i32>,
    pub min_level: Option<i32>,
    pub max_level: Option<i32>,
}

impl View for ManifestFileMeta {
    type V = MetaView;

    closed spec fn view(&self) -> MetaView {
        MetaView {
            version: self.version,
            file_name: self.file_name@,
            file_size: self.file_size,
            num_added_files: self.num_added_files,
            num_deleted_files: self.num_deleted_files,
            partition_stats: self.partition_stats@,
            schema_id: self.schema_id,
            min_bucket: self.min_bucket,
            max_bucket: self.max_bucket,
            min_level: self.min_level,
            max_level: self.max_level,
        }
    }
}

/// `lo <= hi` whenever both bounds are known.
pub open spec fn ordered_range(lo: Option<i32>, hi: Option<i32>) -> bool {
    match (lo, hi) {
        (Some(a), Some(b)) => a <= b,
        _ => true,
    }
}

/// What producers of a record uphold: sizes, counts and the schema id are
/// not negative, and each known bucket or level range is ordered.
pub open spec fn meta_well_formed(m: MetaView) -> bool {
    &&& m.file_size >= 0
    &&& m.num_added_files >= 0
    &&& m.num_deleted_files >= 0
    &&& m.schema_id >= 0
    &&& ordered_range(m.min_bucket, m.max_bucket)
    &&& ordered_range(m.min_level, m.max_level)
}

/// The value of a freshly built record.
pub open spec fn new_meta(
    file_name: Seq<char>,
    file_size: i64,
    num_added_files: i64,
    num_deleted_files: i64,
    partition_stats: StatsView,
    schema_id: i64,
) -> MetaView {
    MetaView {
        version: CURRENT_VERSION,
        file_name,
        file_size,
        num_added_files,
        num_deleted_files,
        partition_stats,
        schema_id,
        min_bucket: None,
        max_bucket: None,
        min_level: None,
        max_level: None,
    }
}

/// The human-readable form: the six mandatory fields other than the version,
/// in declaration order, separated by `", "`, in braces.
pub open spec fn display_text(m: MetaView) -> Seq<char> {
    seq!['{'] + m.file_name + display_tail(m)
}

/// What follows the file name in the human-readable form.
pub open spec fn display_tail(m: MetaView) -> Seq<char> {
    seq![',', ' '] + int_text(m.file_size as int) + seq![',', ' '] + int_text(m.num_added_files as int)
        + seq![',', ' '] + int_text(m.num_deleted_files as int) + seq![',', ' ']
        + stats_text(m.partition_stats) + seq![',', ' '] + int_text(m.schema_id as int) + seq!['}']
}

/// `t` occurs in `s` from index `j` on.
pub open spec fn occurs_at(s: Seq<char>, t: Seq<char>, j: int) -> bool {
    0 <= j && j + t.len() <= s.len() && s.subrange(j, j + t.len()) == t
}

pub open spec fn contains_text(s: Seq<char>, t: Seq<char>) -> bool {
    exists|j: int| occurs_at(s, t, j)
}

proof fn lemma_int_piece(a: Seq<char>, n: int)
    requires
        underscores_lead_lower(a),
    ensures
        underscores_lead_lower(a + int_text(n)),
{
    lemma_int_text_no_underscore(n);
    lemma_no_underscore_leads_lower(int_text(n));
    lemma_underscores_concat(a, int_text(n));
}

proof fn lemma_sep_piece(a: Seq<char>)
    requires
        underscores_lead_lower(a),
    ensures
        underscores_lead_lower(a + seq![',', ' ']),
{
    lemma_underscores_concat(a, seq![',', ' ']);
}

proof fn lemma_tail_underscores(m: MetaView)
    ensures
        underscores_lead_lower(display_tail(m)),
        display_tail(m)[0] == ',',
{
    let sep = seq![',', ' '];
    let p1 = sep + int_text(m.file_size as int);
    lemma_int_piece(sep, m.file_size as int);
    lemma_sep_piece(p1);
    let p2 = p1 + sep + int_text(m.num_added_files as int);
    lemma_int_piece(p1 + sep, m.num_added_files as int);
    lemma_sep_piece(p2);
    let p3 = p2 + sep + int_text(m.num_deleted_files as int);
    lemma_int_piece(p2 + sep, m.num_deleted_files as int);
    lemma_sep_piece(p3);
    lemma_stats_text_underscores(m.partition_stats);
    let p4 = p3 + sep + stats_text(m.partition_stats);
    lemma_underscores_concat(p3 + sep, stats_text(m.partition_stats));
    lemma_sep_piece(p4);
    let p5 = p4 + sep + int_text(m.schema_id as int);
    lemma_int_piece(p4 + sep, m.schema_id as int);
    lemma_underscores_concat(p5, seq!['}']);
    assert(display_tail(m) == p5 + seq!['}']);
}

/// The human-readable form names no stored key: none of `_VERSION`,
/// `_FILE_NAME` and the other stored names occurs in it, unless the file
/// name itself holds it.
pub proof fn lemma_display_omits_key_names(m: MetaView, k: FieldKey)
    requires
        !contains_text(m.file_name, key_name(k)),
    ensures
        !contains_text(display_text(m), key_name(k)),
{
    let n = key_name(k);
    let f = m.file_name;
    let tail = display_tail(m);
    let t = display_text(m);
    lemma_key_name_shape(k);
    lemma_tail_underscores(m);
    assert forall|j: int| !occurs_at(t, n, j) by {
        if occurs_at(t, n, j) {
            assert(t.subrange(j, j + n.len())[0] == n[0]);
            assert(t[j] == '_');
            if j == 0 {
                assert(t[0] == '{');
            } else if j + n.len() <= 1 + f.len() {
                assert(f.subrange(j - 1, j - 1 + n.len()) =~= n);
                assert(occurs_at(f, n, j - 1));
            } else if j <= f.len() {
                let p: int = 1 + f.len() - j;
                assert(t[1 + f.len() as int] == tail[0]);
                assert(t.subrange(j, j + n.len())[p] == n[p]);
                assert(n[p] == ',');
            } else {
                let y: int = j - 1 - f.len();
                assert(tail[y] == t[j]);
                assert(is_lower(tail[y + 1]));
                assert(t[j + 1] == tail[y + 1]);
                assert(t.subrange(j, j + n.len())[1] == n[1]);
            }
        }
    }
}

impl ManifestFileMeta {
    /// Builds a record at the current version with no bucket or level range.
    pub fn new(
        file_name: String,
        file_size: i64,
        num_added_files: i64,
        num_deleted_files: i64,
        partition_stats: BinaryTableStats,
        schema_id: i64,
    ) -> (r: ManifestFileMeta)
        ensures
            r@ == new_meta(file_name@, file_size, num_added_files, num_deleted_files, partition_stats@, schema_id),
            file_size >= 0 && num_added_files >= 0 && num_deleted_files >= 0 && schema_id >= 0
                ==> meta_well_formed(r@),
    {
        ManifestFileMeta {
            version: CURRENT_VERSION,
            file_name,
            file_size,
            num_added_files,
            num_deleted_files,
            partition_stats,
            schema_id,
            min_bucket: None,
            max_bucket: None,
            min_level: None,
            max_level: None,
        }
    }

    /// Builds a record from all eleven fields, as a reader of stored records does.
    pub fn from_parts(
        version: i32,
        file_name: String,
        file_size: i64,
        num_added_files: i64,
        num_deleted_files: i64,
        partition_stats: BinaryTableStats,
        schema_id: i64,
        min_bucket: Option<i32>,
        max_bucket: Option<i32>,
        min_level: Option<i32>,
        max_level: Option<i32>,
    ) -> (r: ManifestFileMeta)
        ensures
            r@ == (MetaView {
                version,
                file_name: file_name@,
                file_size,
                num_added_files,
                num_deleted_files,
                partition_stats: partition_stats@,
                schema_id,
                min_bucket,
                max_bucket,
                min_level,
                max_level,
            }),
    {
        ManifestFileMeta {
            version,
            file_name,
            file_size,
            num_added_files,
            num_deleted_files,
            partition_stats,
            schema_id,
            min_bucket,
            max_bucket,
            min_level,
            max_level,
        }
    }

    /// The name of the manifest file.
    pub fn file_name(&self) -> (r: &str)
        ensures
            r@ == self@.file_name,
    {
        self.file_name.as_str()
    }

    /// The size of the manifest file in bytes.
    pub fn file_size(&self) -> (r: i64)
        ensures
            r == self@.file_size,
    {
        self.file_size
    }

    /// The number of data files that the manifest adds.
    pub fn num_added_files(&self) -> (r: i64)
        ensures
            r == self@.num_added_files,
    {
        self.num_added_files
    }

    /// The number of data files that the manifest deletes.
    pub fn num_deleted_files(&self) -> (r: i64)
        ensures
            r == self@.num_deleted_files,
    {
        self.num_deleted_files
    }

    /// The statistics of the partitions that the manifest covers.
    pub fn partition_stats(&self) -> (r: &BinaryTableStats)
        ensures
            r@ == self@.partition_stats,
    {
        &self.partition_stats
    }

    /// The id of the schema that the manifest was written under.
    pub fn schema_id(&self) -> (r: i64)
        ensures
            r == self@.schema_id,
    {
        self.schema_id
    }

    /// The format version of the record.
    pub fn version(&self) -> (r: i32)
        ensures
            r == self@.version,
    {
        self.version
    }

    pub fn min_bucket(&self) -> (r: Option<i32>)
        ensures
            r == self@.min_bucket,
    {
        self.min_bucket
    }

    pub fn max_bucket(&self) -> (r: Option<i32>)
        ensures
            r == self@.max_bucket,
    {
        self.max_bucket
    }

    pub fn min_level(&self) -> (r: Option<i32>)
        ensures
            r == self@.min_level,
    {
        self.min_level
    }

    pub fn max_level(&self) -> (r: Option<i32>)
        ensures
            r == self@.max_level,
    {
        self.max_level
    }

    pub fn with_min_bucket(self, min_bucket: Option<i32>) -> (r: Self)
        ensures
            r@ == (MetaView { min_bucket, ..self@ }),
    {
        let mut m = self;
        m.min_bucket = min_bucket;
        m
    }

    pub fn with_max_bucket(self, max_bucket: Option<i32>) -> (r: Self)
        ensures
            r@ == (MetaView { max_bucket, ..self@ }),
    {
        let mut m = self;
        m.max_bucket = max_bucket;
        m
    }

    pub fn with_min_level(self, min_level: Option<i32>) -> (r: Self)
        ensures
            r@ == (MetaView { min_level, ..self@ }),
    {
        let mut m = self;
        m.min_level = min_level;
        m
    }

    pub fn with_max_level(self, max_level: Option<i32>) -> (r: Self)
        ensures
            r@ == (MetaView { max_level, ..self@ }),
    {
        let mut m = self;
        m.max_level = max_level;
        m
    }

    /// The human-readable form, `{file_name, file_size, num_added_files,
    /// num_deleted_files, partition_stats, schema_id}`.
    pub fn to_string(&self) -> (r: String)
        ensures
            r@ == display_text(self@),
    {
        proof {
            reveal_strlit("{");
            reveal_strlit("}");
            reveal_strlit(", ");
        }
        let mut s = String::new();
        s.append("{");
        s.append(self.file_name.as_str());
        s.append(", ");
        push_int(&mut s, self.file_size);
        s.append(", ");
        push_int(&mut s, self.num_added_files);
        s.append(", ");
        push_int(&mut s, self.num_deleted_files);
        s.append(", ");
        self.partition_stats.push_debug(&mut s);
        s.append(", ");
        push_int(&mut s, self.schema_id);
        s.append("}");
        assert(s@ =~= display_text(self@));
        s
    }

    /// Field-wise equality over all eleven fields.
    pub fn same_as(&self, other: &Self) -> (r: bool)
        ensures
            r == (self@ == other@),
    {
        self.version == other.version && self.file_name == other.file_name
            && self.file_size == other.file_size && self.num_added_files == other.num_added_files
            && self.num_deleted_files == other.num_deleted_files
            && self.partition_stats.same_as(&other.partition_stats)
            && self.schema_id == other.schema_id && self.min_bucket == other.min_bucket
            && self.max_bucket == other.max_bucket && self.min_level == other.min_level
            && self.max_level == other.max_level
    }

    /// A deep copy.
    pub fn copy(&self) -> (r: Self)
        ensures
            r@ == self@,
    {
        ManifestFileMeta {
            version: self.version,
            file_name: self.file_name.clone(),
            file_size: self.file_size,
            num_added_files: self.num_added_files,
            num_deleted_files: self.num_deleted_files,
            partition_stats: self.partition_stats.copy(),
            schema_id: self.schema_id,
            min_bucket: self.min_bucket,
            max_bucket: self.max_bucket,
            min_level: self.min_level,
            max_level: self.max_level,
        }
    }
}

impl PartialEq for ManifestFileMeta {
    fn eq(&self, other: &Self) -> (r: bool) {
        self.same_as(other)
    }
}

impl vstd::std_specs::cmp::PartialEqSpecImpl for ManifestFileMeta {
    open spec fn obeys_eq_spec() -> bool {
        true
    }

    open spec fn eq_spec(&self, other: &Self) -> bool {
        self@ == other@
    }
}

impl Eq for ManifestFileMeta {}

impl Clone for ManifestFileMeta {
    fn clone(&self) -> (r: Self)
        ensures
            r@ == self@,
    {
        self.copy()
    }
}

} // verus!
