use vstd::prelude::*;
use crate::manifest_file_meta::{ManifestFileMeta, MetaView};
use crate::stats::{empty_stats, BinaryTableStats, StatsView};

verus! {

/// The keys under which a [`ManifestFileMeta`] is stored, in declaration order.
#[derive(Clone, Copy, Debug, PartialEq, Eq, Structural)]
pub enum FieldKey {
    Version,
    FileName,
    FileSize,
    NumAddedFiles,
    NumDeletedFiles,
    PartitionStats,
    SchemaId,
    MinBucket,
    MaxBucket,
    MinLevel,
    MaxLevel,
}

/// The stored name of each key.
pub open spec fn key_name(k: FieldKey) -> Seq<char> {
    match k {
        FieldKey::Version => "_VERSION"@,
        FieldKey::FileName => "_FILE_NAME"@,
        FieldKey::FileSize => "_FILE_SIZE"@,
        FieldKey::NumAddedFiles => "_NUM_ADDED_FILES"@,
        FieldKey::NumDeletedFiles => "_NUM_DELETED_FILES"@,
        FieldKey::PartitionStats => "_PARTITION_STATS"@,
        FieldKey::SchemaId => "_SCHEMA_ID"@,
        FieldKey::MinBucket => "_MIN_BUCKET"@,
        FieldKey::MaxBucket => "_MAX_BUCKET"@,
        FieldKey::MinLevel => "_MIN_LEVEL"@,
        FieldKey::MaxLevel => "_MAX_LEVEL"@,
    }
}

/// The four keys whose value may be unknown; they are left out when it is.
pub open spec fn is_optional(k: FieldKey) -> bool {
    k is MinBucket || k is MaxBucket || k is MinLevel || k is MaxLevel
}

/// Every key, in declaration order.
pub open spec fn all_keys() -> Seq<FieldKey> {
    seq![
        FieldKey::Version,
        FieldKey::FileName,
        FieldKey::FileSize,
        FieldKey::NumAddedFiles,
        FieldKey::NumDeletedFiles,
        FieldKey::PartitionStats,
        FieldKey::SchemaId,
        FieldKey::MinBucket,
        FieldKey::MaxBucket,
        FieldKey::MinLevel,
        FieldKey::MaxLevel,
    ]
}

/// Distinct keys have distinct stored names.
pub proof fn lemma_key_names_distinct(a: FieldKey, b: FieldKey)
    ensures
        a != b ==> key_name(a) != key_name(b),
{
    reveal_strlit("_VERSION");
    reveal_strlit("_FILE_NAME");
    reveal_strlit("_FILE_SIZE");
    reveal_strlit("_NUM_ADDED_FILES");
    reveal_strlit("_NUM_DELETED_FILES");
    reveal_strlit("_PARTITION_STATS");
    reveal_strlit("_SCHEMA_ID");
    reveal_strlit("_MIN_BUCKET");
    reveal_strlit("_MAX_BUCKET");
    reveal_strlit("_MIN_LEVEL");
    reveal_strlit("_MAX_LEVEL");
    if a != b {
        let x = key_name(a);
        let y = key_name(b);
        if x.len() == y.len() {
            assert(x[1] != y[1] || x[2] != y[2] || x[6] != y[6]);
        }
    }
}

/// Every stored name is an underscore, then an upper-case letter, then more
/// upper-case letters and underscores.
pub proof fn lemma_key_name_shape(k: FieldKey)
    ensures
        key_name(k).len() >= 2,
        key_name(k)[0] == '_',
        'A' <= key_name(k)[1] && key_name(k)[1] <= 'Z',
        forall|i: int| 0 <= i < key_name(k).len() ==> #[trigger] key_name(k)[i] == '_'
            || ('A' <= key_name(k)[i] && key_name(k)[i] <= 'Z'),
{
    reveal_strlit("_VERSION");
    reveal_strlit("_FILE_NAME");
    reveal_strlit("_FILE_SIZE");
    reveal_strlit("_NUM_ADDED_FILES");
    reveal_strlit("_NUM_DELETED_FILES");
    reveal_strlit("_PARTITION_STATS");
    reveal_strlit("_SCHEMA_ID");
    reveal_strlit("_MIN_BUCKET");
    reveal_strlit("_MAX_BUCKET");
    reveal_strlit("_MIN_LEVEL");
    reveal_strlit("_MAX_LEVEL");
}

impl FieldKey {
    /// The stored name of the key.
    pub fn name(&self) -> (r: &'static str)
        ensures
            r@ == key_name(*self),
    {
        match self {
            FieldKey::Version => "_VERSION",
            FieldKey::FileName => "_FILE_NAME",
            FieldKey::FileSize => "_FILE_SIZE",
            FieldKey::NumAddedFiles => "_NUM_ADDED_FILES",
            FieldKey::NumDeletedFiles => "_NUM_DELETED_FILES",
            FieldKey::PartitionStats => "_PARTITION_STATS",
            FieldKey::SchemaId => "_SCHEMA_ID",
            FieldKey::MinBucket => "_MIN_BUCKET",
            FieldKey::MaxBucket => "_MAX_BUCKET",
            FieldKey::MinLevel => "_MIN_LEVEL",
            FieldKey::MaxLevel => "_MAX_LEVEL",
        }
    }
}


/// A stored value.
#[derive(Debug)]
pub enum FieldValue {
    Int(i32),
    Long(i64),
    Text(String),
    Stats(BinaryTableStats),
    Null,
}

/// The mathematical value of a [`FieldValue`].
pub enum ValueView {
    Int(i32),
    Long(i64),
    Text(Seq<char>),
    Stats(StatsView),
    Null,
}

impl View for FieldValue {
    type V = ValueView;

    open spec fn view(&self) -> ValueView {
        match self {
            FieldValue::Int(x) => ValueView::Int(*x),
            FieldValue::Long(x) => ValueView::Long(*x),
            FieldValue::Text(s) => ValueView::Text(s@),
            FieldValue::Stats(s) => ValueView::Stats(s@),
            FieldValue::Null => ValueView::Null,
        }
    }
}

impl FieldValue {
    /// A deep copy.
    pub fn copy(&self) -> (r: Self)
        ensures
            r@ == self@,
    {
        match self {
            FieldValue::Int(x) => FieldValue::Int(*x),
            FieldValue::Long(x) => FieldValue::Long(*x),
            FieldValue::Text(s) => FieldValue::Text(s.clone()),
            FieldValue::Stats(s) => FieldValue::Stats(s.copy()),
            FieldValue::Null => FieldValue::Null,
        }
    }
}

impl PartialEq for FieldValue {
    fn eq(&self, other: &Self) -> (r: bool) {
        match (self, other) {
            (FieldValue::Int(a), FieldValue::Int(b)) => *a == *b,
            (FieldValue::Long(a), FieldValue::Long(b)) => *a == *b,
            (FieldValue::Text(a), FieldValue::Text(b)) => *a == *b,
            (FieldValue::Stats(a), FieldValue::Stats(b)) => a.same_as(b),
            (FieldValue::Null, FieldValue::Null) => true,
            _ => false,
        }
    }
}

impl vstd::std_specs::cmp::PartialEqSpecImpl for FieldValue {
    open spec fn obeys_eq_spec() -> bool {
        true
    }

    open spec fn eq_spec(&self, other: &Self) -> bool {
        self@ == other@
    }
}

/// One stored key and its value.
#[derive(Debug)]
pub struct Entry {
    pub key: String,
    pub value: FieldValue,
}

impl View for Entry {
    type V = (Seq<char>, ValueView);

    open spec fn view(&self) -> (Seq<char>, ValueView) {
        (self.key@, self.value@)
    }
}

pub open spec fn entries_view(e: Seq<Entry>) -> Seq<(Seq<char>, ValueView)> {
    e.map_values(|x: Entry| x@)
}

/// How many entries carry the name `n`.
pub open spec fn key_count(e: Seq<(Seq<char>, ValueView)>, n: Seq<char>) -> nat
    decreases e.len(),
{
    if e.len() == 0 {
        0
    } else {
        key_count(e.drop_last(), n) + if e.last().0 == n { 1nat } else { 0nat }
    }
}

/// The value of the first entry that carries the name `n`.
pub open spec fn key_value(e: Seq<(Seq<char>, ValueView)>, n: Seq<char>) -> Option<ValueView>
    decreases e.len(),
{
    if e.len() == 0 {
        None
    } else {
        match key_value(e.drop_last(), n) {
            Some(v) => Some(v),
            None => if e.last().0 == n { Some(e.last().1) } else { None },
        }
    }
}

/// Counting and lookup split over a concatenation.
pub proof fn lemma_concat(a: Seq<(Seq<char>, ValueView)>, b: Seq<(Seq<char>, ValueView)>, n: Seq<char>)
    ensures
        key_count(a + b, n) == key_count(a, n) + key_count(b, n),
        key_value(a + b, n) == (if key_value(a, n) is Some { key_value(a, n) } else { key_value(b, n) }),
    decreases b.len(),
{
    if b.len() == 0 {
        assert(a + b =~= a);
    } else {
        lemma_concat(a, b.drop_last(), n);
        assert((a + b).drop_last() =~= a + b.drop_last());
        assert((a + b).last() == b.last());
    }
}


/// The value that a record stores under key `k`; `None` for an unknown
/// optional value, which is left out.
pub open spec fn field_value(m: MetaView, k: FieldKey) -> Option<ValueView> {
    match k {
        FieldKey::Version => Some(ValueView::Int(m.version)),
        FieldKey::FileName => Some(ValueView::Text(m.file_name)),
        FieldKey::FileSize => Some(ValueView::Long(m.file_size)),
        FieldKey::NumAddedFiles => Some(ValueView::Long(m.num_added_files)),
        FieldKey::NumDeletedFiles => Some(ValueView::Long(m.num_deleted_files)),
        FieldKey::PartitionStats => Some(ValueView::Stats(m.partition_stats)),
        FieldKey::SchemaId => Some(ValueView::Long(m.schema_id)),
        FieldKey::MinBucket => opt_int_value(m.min_bucket),
        FieldKey::MaxBucket => opt_int_value(m.max_bucket),
        FieldKey::MinLevel => opt_int_value(m.min_level),
        FieldKey::MaxLevel => opt_int_value(m.max_level),
    }
}

pub open spec fn opt_int_value(o: Option<i32>) -> Option<ValueView> {
    match o {
        Some(x) => Some(ValueView::Int(x)),
        None => None,
    }
}

/// The entry stored for key `k`, if any.
pub open spec fn slot(m: MetaView, k: FieldKey) -> Seq<(Seq<char>, ValueView)> {
    match field_value(m, k) {
        Some(v) => seq![(key_name(k), v)],
        None => Seq::empty(),
    }
}

/// The entries stored for the keys `ks`, in that order.
pub open spec fn encode_keys(m: MetaView, ks: Seq<FieldKey>) -> Seq<(Seq<char>, ValueView)>
    decreases ks.len(),
{
    if ks.len() == 0 {
        Seq::empty()
    } else {
        encode_keys(m, ks.drop_last()) + slot(m, ks.last())
    }
}

/// The stored form of a record: one entry per key in declaration order,
/// without the optional values that are unknown.
pub open spec fn record_of(m: MetaView) -> Seq<(Seq<char>, ValueView)> {
    encode_keys(m, all_keys())
}

/// Over distinct keys, each name occurs once in the stored form when its key
/// is among them and its value is stored, and not at all otherwise.
pub proof fn lemma_encode_keys(m: MetaView, ks: Seq<FieldKey>, k: FieldKey)
    requires
        ks.no_duplicates(),
    ensures
        key_count(encode_keys(m, ks), key_name(k)) == (if ks.contains(k) && field_value(m, k) is Some { 1nat } else { 0nat }),
        key_value(encode_keys(m, ks), key_name(k)) == (if ks.contains(k) { field_value(m, k) } else { None }),
    decreases ks.len(),
{
    if ks.len() > 0 {
        let init = ks.drop_last();
        let last = ks.last();
        assert(init.no_duplicates());
        lemma_encode_keys(m, init, k);
        lemma_concat(encode_keys(m, init), slot(m, last), key_name(k));
        lemma_key_names_distinct(last, k);
        let s = slot(m, last);
        if field_value(m, last) is Some {
            assert(s.drop_last() =~= Seq::<(Seq<char>, ValueView)>::empty());
            assert(key_count(s.drop_last(), key_name(k)) == 0);
            assert(key_value(s.drop_last(), key_name(k)) is None);
            assert(s.len() == 1);
            assert(s.last() == (key_name(last), field_value(m, last)->Some_0));
            assert(key_count(s, key_name(k)) == if last == k { 1nat } else { 0nat });
            assert(key_value(s, key_name(k)) == if last == k { field_value(m, k) } else { None });
        } else {
            assert(key_count(s, key_name(k)) == 0);
            assert(key_value(s, key_name(k)) is None);
        }
        assert(ks =~= init.push(last));
        if last == k {
            assert(ks[ks.len() - 1] == k);
            assert(!init.contains(k));
        }
        assert(ks.contains(k) == (init.contains(k) || last == k)) by {
            if init.contains(k) {
                let j = choose|j: int| 0 <= j < init.len() && init[j] == k;
                assert(ks[j] == k);
            }
            if last == k {
                assert(ks[ks.len() - 1] == k);
            }
        }
    }
}

impl ManifestFileMeta {
    /// The value stored under key `k`, or `None` for an unknown optional value.
    pub fn field(&self, k: FieldKey) -> (r: Option<FieldValue>)
        ensures
            match r {
                Some(v) => field_value(self@, k) == Some(v@),
                None => field_value(self@, k) is None,
            },
    {
        match k {
            FieldKey::Version => Some(FieldValue::Int(self.version())),
            FieldKey::FileName => Some(FieldValue::Text(self.file_name().to_owned())),
            FieldKey::FileSize => Some(FieldValue::Long(self.file_size())),
            FieldKey::NumAddedFiles => Some(FieldValue::Long(self.num_added_files())),
            FieldKey::NumDeletedFiles => Some(FieldValue::Long(self.num_deleted_files())),
            FieldKey::PartitionStats => Some(FieldValue::Stats(self.partition_stats().copy())),
            FieldKey::SchemaId => Some(FieldValue::Long(self.schema_id())),
            FieldKey::MinBucket => int_field(self.min_bucket()),
            FieldKey::MaxBucket => int_field(self.max_bucket()),
            FieldKey::MinLevel => int_field(self.min_level()),
            FieldKey::MaxLevel => int_field(self.max_level()),
        }
    }

    /// The stored form: one entry per key in declaration order, with the
    /// unknown optional values left out rather than stored as null.
    pub fn encode(&self) -> (r: Vec<Entry>)
        ensures
            entries_view(r@) == record_of(self@),
    {
        let keys = field_keys();
        let mut r: Vec<Entry> = Vec::new();
        let mut i: usize = 0;
        while i < keys.len()
            invariant
                i <= keys.len(),
                keys@ == all_keys(),
                entries_view(r@) == encode_keys(self@, keys@.subrange(0, i as int)),
            decreases keys.len() - i,
        {
            let k = keys[i];
            let ghost before = r@;
            match self.field(k) {
                Some(v) => {
                    r.push(Entry { key: String::from_str(k.name()), value: v });
                },
                None => {},
            }
            proof {
                let ks = keys@.subrange(0, i as int + 1);
                assert(ks.drop_last() =~= keys@.subrange(0, i as int));
                assert(ks.last() == k);
                assert(entries_view(r@) =~= encode_keys(self@, ks));
            }
            i = i + 1;
        }
        assert(keys@.subrange(0, keys@.len() as int) =~= keys@);
        r
    }
}

fn int_field(o: Option<i32>) -> (r: Option<FieldValue>)
    ensures
        match r {
            Some(v) => opt_int_value(o) == Some(v@),
            None => o is None,
        },
{
    match o {
        Some(x) => Some(FieldValue::Int(x)),
        None => None,
    }
}

/// Every key, in declaration order.
pub fn field_keys() -> (r: Vec<FieldKey>)
    ensures
        r@ == all_keys(),
{
    let r = vec![
        FieldKey::Version,
        FieldKey::FileName,
        FieldKey::FileSize,
        FieldKey::NumAddedFiles,
        FieldKey::NumDeletedFiles,
        FieldKey::PartitionStats,
        FieldKey::SchemaId,
        FieldKey::MinBucket,
        FieldKey::MaxBucket,
        FieldKey::MinLevel,
        FieldKey::MaxLevel,
    ];
    assert(r@ =~= all_keys());
    r
}


/// Why a stored form does not give a record.
#[derive(Clone, Copy, Debug, PartialEq, Eq, Structural)]
pub enum DecodeError {
    /// A mandatory key is not there.
    MissingField(FieldKey),
    /// A key is there more than once.
    DuplicateField(FieldKey),
    /// A key holds a value of another type than its field.
    InvalidType(FieldKey),
}

/// Whether `v` has the type of the field stored under `k`.
pub open spec fn has_kind(v: ValueView, k: FieldKey) -> bool {
    match k {
        FieldKey::FileName => v is Text,
        FieldKey::FileSize | FieldKey::NumAddedFiles | FieldKey::NumDeletedFiles
        | FieldKey::SchemaId => v is Long,
        FieldKey::PartitionStats => v is Stats,
        _ => v is Int,
    }
}

/// What the stored form gives for key `k`: `Ok(None)` for an optional value
/// that is missing or null, and otherwise the value or the error.
pub open spec fn read_field(e: Seq<(Seq<char>, ValueView)>, k: FieldKey) -> Result<Option<ValueView>, DecodeError> {
    if key_count(e, key_name(k)) > 1 {
        Err(DecodeError::DuplicateField(k))
    } else {
        match key_value(e, key_name(k)) {
            None => if is_optional(k) { Ok(None) } else { Err(DecodeError::MissingField(k)) },
            Some(v) => if is_optional(k) && v is Null {
                Ok(None)
            } else if has_kind(v, k) {
                Ok(Some(v))
            } else {
                Err(DecodeError::InvalidType(k))
            },
        }
    }
}

pub open spec fn int_of(r: Result<Option<ValueView>, DecodeError>) -> i32 {
    match r {
        Ok(Some(ValueView::Int(x))) => x,
        _ => 0,
    }
}

pub open spec fn opt_int_of(r: Result<Option<ValueView>, DecodeError>) -> Option<i32> {
    match r {
        Ok(Some(ValueView::Int(x))) => Some(x),
        _ => None,
    }
}

pub open spec fn long_of(r: Result<Option<ValueView>, DecodeError>) -> i64 {
    match r {
        Ok(Some(ValueView::Long(x))) => x,
        _ => 0,
    }
}

pub open spec fn text_of(r: Result<Option<ValueView>, DecodeError>) -> Seq<char> {
    match r {
        Ok(Some(ValueView::Text(s))) => s,
        _ => Seq::empty(),
    }
}

pub open spec fn stats_of(r: Result<Option<ValueView>, DecodeError>) -> StatsView {
    match r {
        Ok(Some(ValueView::Stats(s))) => s,
        _ => empty_stats(),
    }
}

/// The record that a stored form gives, or the error of the first key in
/// declaration order that cannot be read. Keys of no field are ignored.
pub open spec fn decode_fields(e: Seq<(Seq<char>, ValueView)>) -> Result<MetaView, DecodeError> {
    let r = |k: FieldKey| read_field(e, k);
    if r(FieldKey::Version) is Err {
        Err(r(FieldKey::Version)->Err_0)
    } else if r(FieldKey::FileName) is Err {
        Err(r(FieldKey::FileName)->Err_0)
    } else if r(FieldKey::FileSize) is Err {
        Err(r(FieldKey::FileSize)->Err_0)
    } else if r(FieldKey::NumAddedFiles) is Err {
        Err(r(FieldKey::NumAddedFiles)->Err_0)
    } else if r(FieldKey::NumDeletedFiles) is Err {
        Err(r(FieldKey::NumDeletedFiles)->Err_0)
    } else if r(FieldKey::PartitionStats) is Err {
        Err(r(FieldKey::PartitionStats)->Err_0)
    } else if r(FieldKey::SchemaId) is Err {
        Err(r(FieldKey::SchemaId)->Err_0)
    } else if r(FieldKey::MinBucket) is Err {
        Err(r(FieldKey::MinBucket)->Err_0)
    } else if r(FieldKey::MaxBucket) is Err {
        Err(r(FieldKey::MaxBucket)->Err_0)
    } else if r(FieldKey::MinLevel) is Err {
        Err(r(FieldKey::MinLevel)->Err_0)
    } else if r(FieldKey::MaxLevel) is Err {
        Err(r(FieldKey::MaxLevel)->Err_0)
    } else {
        Ok(MetaView {
            version: int_of(r(FieldKey::Version)),
            file_name: text_of(r(FieldKey::FileName)),
            file_size: long_of(r(FieldKey::FileSize)),
            num_added_files: long_of(r(FieldKey::NumAddedFiles)),
            num_deleted_files: long_of(r(FieldKey::NumDeletedFiles)),
            partition_stats: stats_of(r(FieldKey::PartitionStats)),
            schema_id: long_of(r(FieldKey::SchemaId)),
            min_bucket: opt_int_of(r(FieldKey::MinBucket)),
            max_bucket: opt_int_of(r(FieldKey::MaxBucket)),
            min_level: opt_int_of(r(FieldKey::MinLevel)),
            max_level: opt_int_of(r(FieldKey::MaxLevel)),
        })
    }
}

/// How often `k` occurs in `entries`, counted up to two, and where it
/// first occurs.
fn find_key(entries: &Vec<Entry>, k: FieldKey) -> (r: (usize, Option<usize>))
    ensures
        r.0 as nat == if key_count(entries_view(entries@), key_name(k)) > 1 { 2nat } else { key_count(entries_view(entries@), key_name(k)) },
        match r.1 {
            Some(i) => i < entries@.len() && key_value(entries_view(entries@), key_name(k)) == Some(entries@[i as int].value@),
            None => key_value(entries_view(entries@), key_name(k)) is None,
        },
{
    let name = String::from_str(k.name());
    let mut count: usize = 0;
    let mut first: Option<usize> = None;
    let mut i: usize = 0;
    while i < entries.len()
        invariant
            i <= entries.len(),
            name@ == key_name(k),
            count as nat == if key_count(entries_view(entries@.subrange(0, i as int)), key_name(k)) > 1 { 2nat } else { key_count(entries_view(entries@.subrange(0, i as int)), key_name(k)) },
            match first {
                Some(j) => j < i && key_value(entries_view(entries@.subrange(0, i as int)), key_name(k)) == Some(entries@[j as int].value@),
                None => key_value(entries_view(entries@.subrange(0, i as int)), key_name(k)) is None,
            },
        decreases entries.len() - i,
    {
        let hit = entries[i].key == name;
        proof {
            let p = entries_view(entries@.subrange(0, i as int + 1));
            assert(p.drop_last() =~= entries_view(entries@.subrange(0, i as int)));
            assert(p.last() == entries@[i as int]@);
        }
        if hit {
            if count < 2 {
                count = count + 1;
            }
            if first.is_none() {
                first = Some(i);
            }
        }
        i = i + 1;
    }
    assert(entries@.subrange(0, entries@.len() as int) =~= entries@);
    (count, first)
}

/// Reads key `k`: the index of the entry that holds its value, `None` for an
/// optional value that is missing or null, or the error.
fn read_key(entries: &Vec<Entry>, k: FieldKey) -> (r: Result<Option<usize>, DecodeError>)
    ensures
        match read_field(entries_view(entries@), k) {
            Err(x) => r == Err::<Option<usize>, DecodeError>(x),
            Ok(None) => r == Ok::<Option<usize>, DecodeError>(None),
            Ok(Some(v)) => r is Ok && r->Ok_0 is Some && r->Ok_0->Some_0 < entries@.len()
                && entries@[r->Ok_0->Some_0 as int].value@ == v,
        },
{
    let optional = match k {
        FieldKey::MinBucket | FieldKey::MaxBucket | FieldKey::MinLevel | FieldKey::MaxLevel => true,
        _ => false,
    };
    let (count, first) = find_key(entries, k);
    if count > 1 {
        return Err(DecodeError::DuplicateField(k));
    }
    match first {
        None => if optional { Ok(None) } else { Err(DecodeError::MissingField(k)) },
        Some(i) => {
            let fits = match (&entries[i].value, k) {
                (FieldValue::Null, _) => false,
                (FieldValue::Text(_), FieldKey::FileName) => true,
                (FieldValue::Long(_), FieldKey::FileSize) => true,
                (FieldValue::Long(_), FieldKey::NumAddedFiles) => true,
                (FieldValue::Long(_), FieldKey::NumDeletedFiles) => true,
                (FieldValue::Long(_), FieldKey::SchemaId) => true,
                (FieldValue::Stats(_), FieldKey::PartitionStats) => true,
                (FieldValue::Int(_), FieldKey::Version) => true,
                (FieldValue::Int(_), FieldKey::MinBucket) => true,
                (FieldValue::Int(_), FieldKey::MaxBucket) => true,
                (FieldValue::Int(_), FieldKey::MinLevel) => true,
                (FieldValue::Int(_), FieldKey::MaxLevel) => true,
                _ => false,
            };
            let null = match &entries[i].value {
                FieldValue::Null => true,
                _ => false,
            };
            if optional && null {
                Ok(None)
            } else if fits {
                Ok(Some(i))
            } else {
                Err(DecodeError::InvalidType(k))
            }
        },
    }
}


fn int_at(entries: &Vec<Entry>, r: Option<usize>) -> (x: i32)
    requires
        r is Some ==> r->Some_0 < entries@.len(),
    ensures
        x == int_of(Ok(match r { Some(i) => Some(entries@[i as int].value@), None => None })),
{
    match r {
        Some(i) => match &entries[i].value {
            FieldValue::Int(x) => *x,
            _ => 0,
        },
        None => 0,
    }
}

fn opt_int_at(entries: &Vec<Entry>, r: Option<usize>) -> (x: Option<i32>)
    requires
        r is Some ==> r->Some_0 < entries@.len(),
    ensures
        x == opt_int_of(Ok(match r { Some(i) => Some(entries@[i as int].value@), None => None })),
{
    match r {
        Some(i) => match &entries[i].value {
            FieldValue::Int(x) => Some(*x),
            _ => None,
        },
        None => None,
    }
}

fn long_at(entries: &Vec<Entry>, r: Option<usize>) -> (x: i64)
    requires
        r is Some ==> r->Some_0 < entries@.len(),
    ensures
        x == long_of(Ok(match r { Some(i) => Some(entries@[i as int].value@), None => None })),
{
    match r {
        Some(i) => match &entries[i].value {
            FieldValue::Long(x) => *x,
            _ => 0,
        },
        None => 0,
    }
}

fn text_at(entries: &Vec<Entry>, r: Option<usize>) -> (x: String)
    requires
        r is Some ==> r->Some_0 < entries@.len(),
    ensures
        x@ == text_of(Ok(match r { Some(i) => Some(entries@[i as int].value@), None => None })),
{
    match r {
        Some(i) => match &entries[i].value {
            FieldValue::Text(s) => s.clone(),
            _ => String::new(),
        },
        None => String::new(),
    }
}

fn stats_at(entries: &Vec<Entry>, r: Option<usize>) -> (x: BinaryTableStats)
    requires
        r is Some ==> r->Some_0 < entries@.len(),
    ensures
        x@ == stats_of(Ok(match r { Some(i) => Some(entries@[i as int].value@), None => None })),
{
    match r {
        Some(i) => match &entries[i].value {
            FieldValue::Stats(s) => s.copy(),
            _ => BinaryTableStats::empty(),
        },
        None => BinaryTableStats::empty(),
    }
}

impl ManifestFileMeta {
    /// Reads a record from its stored form. Each key must occur at most once;
    /// the mandatory keys must be there; an optional key that is missing or
    /// null gives an unknown value; keys of no field are ignored.
    pub fn decode(entries: &Vec<Entry>) -> (r: Result<ManifestFileMeta, DecodeError>)
        ensures
            match decode_fields(entries_view(entries@)) {
                Ok(m) => r is Ok && r->Ok_0@ == m,
                Err(x) => r is Err && r->Err_0 == x,
            },
    {
        let version = match read_key(entries, FieldKey::Version) {
            Err(x) => return Err(x),
            Ok(i) => int_at(entries, i),
        };
        let file_name = match read_key(entries, FieldKey::FileName) {
            Err(x) => return Err(x),
            Ok(i) => text_at(entries, i),
        };
        let file_size = match read_key(entries, FieldKey::FileSize) {
            Err(x) => return Err(x),
            Ok(i) => long_at(entries, i),
        };
        let num_added_files = match read_key(entries, FieldKey::NumAddedFiles) {
            Err(x) => return Err(x),
            Ok(i) => long_at(entries, i),
        };
        let num_deleted_files = match read_key(entries, FieldKey::NumDeletedFiles) {
            Err(x) => return Err(x),
            Ok(i) => long_at(entries, i),
        };
        let partition_stats = match read_key(entries, FieldKey::PartitionStats) {
            Err(x) => return Err(x),
            Ok(i) => stats_at(entries, i),
        };
        let schema_id = match read_key(entries, FieldKey::SchemaId) {
            Err(x) => return Err(x),
            Ok(i) => long_at(entries, i),
        };
        let min_bucket = match read_key(entries, FieldKey::MinBucket) {
            Err(x) => return Err(x),
            Ok(i) => opt_int_at(entries, i),
        };
        let max_bucket = match read_key(entries, FieldKey::MaxBucket) {
            Err(x) => return Err(x),
            Ok(i) => opt_int_at(entries, i),
        };
        let min_level = match read_key(entries, FieldKey::MinLevel) {
            Err(x) => return Err(x),
            Ok(i) => opt_int_at(entries, i),
        };
        let max_level = match read_key(entries, FieldKey::MaxLevel) {
            Err(x) => return Err(x),
            Ok(i) => opt_int_at(entries, i),
        };
        Ok(ManifestFileMeta::from_parts(
            version,
            file_name,
            file_size,
            num_added_files,
            num_deleted_files,
            partition_stats,
            schema_id,
            min_bucket,
            max_bucket,
            min_level,
            max_level,
        ))
    }
}


proof fn lemma_all_keys_distinct()
    ensures
        all_keys().no_duplicates(),
        forall|k: FieldKey| all_keys().contains(k),
{
    let ks = all_keys();
    assert forall|k: FieldKey| ks.contains(k) by {
        match k {
            FieldKey::Version => assert(ks[0] == k),
            FieldKey::FileName => assert(ks[1] == k),
            FieldKey::FileSize => assert(ks[2] == k),
            FieldKey::NumAddedFiles => assert(ks[3] == k),
            FieldKey::NumDeletedFiles => assert(ks[4] == k),
            FieldKey::PartitionStats => assert(ks[5] == k),
            FieldKey::SchemaId => assert(ks[6] == k),
            FieldKey::MinBucket => assert(ks[7] == k),
            FieldKey::MaxBucket => assert(ks[8] == k),
            FieldKey::MinLevel => assert(ks[9] == k),
            FieldKey::MaxLevel => assert(ks[10] == k),
        }
    }
}

/// Reading back the stored form of a record gives the record: every one of
/// its eleven fields, the unknown optional values included.
pub proof fn lemma_decode_encode(m: MetaView)
    ensures
        decode_fields(record_of(m)) == Ok::<MetaView, DecodeError>(m),
{
    lemma_all_keys_distinct();
    assert forall|k: FieldKey| #[trigger] read_field(record_of(m), k) == (match field_value(m, k) {
        Some(v) => Ok::<Option<ValueView>, DecodeError>(Some(v)),
        None => Ok(None),
    }) by {
        lemma_encode_keys(m, all_keys(), k);
    }
    let r = |k: FieldKey| read_field(record_of(m), k);
    assert(r(FieldKey::Version) == Ok::<Option<ValueView>, DecodeError>(Some(ValueView::Int(m.version))));
    assert(r(FieldKey::MinBucket) == Ok::<Option<ValueView>, DecodeError>(opt_int_value(m.min_bucket)));
    assert(r(FieldKey::MaxBucket) == Ok::<Option<ValueView>, DecodeError>(opt_int_value(m.max_bucket)));
    assert(r(FieldKey::MinLevel) == Ok::<Option<ValueView>, DecodeError>(opt_int_value(m.min_level)));
    assert(r(FieldKey::MaxLevel) == Ok::<Option<ValueView>, DecodeError>(opt_int_value(m.max_level)));
}

/// A stored form without any of the four optional keys gives, if it gives a
/// record at all, one whose bucket and level ranges are all unknown.
pub proof fn lemma_missing_optionals_unknown(e: Seq<(Seq<char>, ValueView)>)
    requires
        key_count(e, key_name(FieldKey::MinBucket)) == 0,
        key_count(e, key_name(FieldKey::MaxBucket)) == 0,
        key_count(e, key_name(FieldKey::MinLevel)) == 0,
        key_count(e, key_name(FieldKey::MaxLevel)) == 0,
    ensures
        decode_fields(e) is Ok ==> {
            let m = decode_fields(e)->Ok_0;
            &&& m.min_bucket is None
            &&& m.max_bucket is None
            &&& m.min_level is None
            &&& m.max_level is None
        },
{
    assert forall|n: Seq<char>| key_count(e, n) == 0 implies #[trigger] key_value(e, n) is None by {
        lemma_absent_has_no_value(e, n);
    }
}

proof fn lemma_absent_has_no_value(e: Seq<(Seq<char>, ValueView)>, n: Seq<char>)
    requires
        key_count(e, n) == 0,
    ensures
        key_value(e, n) is None,
    decreases e.len(),
{
    if e.len() > 0 {
        lemma_absent_has_no_value(e.drop_last(), n);
    }
}

/// An optional key stored with a null value reads as if it were not there.
pub proof fn lemma_null_reads_as_missing(
    a: Seq<(Seq<char>, ValueView)>,
    b: Seq<(Seq<char>, ValueView)>,
    k: FieldKey,
)
    requires
        is_optional(k),
        key_count(a + b, key_name(k)) == 0,
    ensures
        decode_fields(a + seq![(key_name(k), ValueView::Null)] + b) == decode_fields(a + b),
{
    let s = seq![(key_name(k), ValueView::Null)];
    let with_null = a + s + b;
    assert forall|j: FieldKey| #[trigger] read_field(with_null, j) == read_field(a + b, j) by {
        let n = key_name(j);
        lemma_concat(a, b, n);
        lemma_concat(a, s, n);
        lemma_concat(a + s, b, n);
        lemma_key_names_distinct(j, k);
        assert(s.drop_last() =~= Seq::<(Seq<char>, ValueView)>::empty());
        assert(key_count(s.drop_last(), n) == 0);
        assert(key_value(s.drop_last(), n) is None);
        lemma_concat(a, b, key_name(k));
        lemma_absent_has_no_value(a, key_name(k));
        lemma_absent_has_no_value(b, key_name(k));
        lemma_absent_has_no_value(a + b, key_name(k));
    }
}

} // verus!
