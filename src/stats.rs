use vstd::prelude::*;
use crate::text::{
    int_text, lemma_int_text_no_underscore, lemma_no_underscore_concat, lemma_underscores_concat,
    no_underscore, push_int, underscores_lead_lower,
};

verus! {

/// Minimum and maximum values of the partition columns of a manifest, in
/// their binary row encoding, and the number of nulls in each column.
#[derive(Debug)]
pub struct BinaryTableStats {
    min_values: Vec<u8>,
    max_values: Vec<u8>,
    null_counts: Vec<i64>,
}

/// The mathematical value of a [`BinaryTableStats`].
pub struct StatsView {
    pub min_values: Seq<u8>,
    pub max_values: Seq<u8>,
    pub null_counts: Seq<i64>,
}

impl View for BinaryTableStats {
    type V = StatsView;

    closed spec fn view(&self) -> StatsView {
        StatsView {
            min_values: self.min_values@,
            max_values: self.max_values@,
            null_counts: self.null_counts@,
        }
    }
}

/// Statistics of no partition column.
pub open spec fn empty_stats() -> StatsView {
    StatsView { min_values: Seq::empty(), max_values: Seq::empty(), null_counts: Seq::empty() }
}

/// The elements of `s`, each in decimal, separated by `", "`.
pub open spec fn joined_text(s: Seq<int>) -> Seq<char>
    decreases s.len(),
{
    if s.len() == 0 {
        Seq::empty()
    } else if s.len() == 1 {
        int_text(s[0])
    } else {
        joined_text(s.drop_last()) + seq![',', ' '] + int_text(s.last())
    }
}

/// A list in brackets, as Rust's debug form writes a slice of integers.
pub open spec fn list_text(s: Seq<int>) -> Seq<char> {
    seq!['['] + joined_text(s) + seq![']']
}

pub open spec fn bytes_as_ints(s: Seq<u8>) -> Seq<int> {
    s.map_values(|b: u8| b as int)
}

pub open spec fn longs_as_ints(s: Seq<i64>) -> Seq<int> {
    s.map_values(|x: i64| x as int)
}

/// The debug form of the statistics:
/// `BinaryTableStats { min_values: [..], max_values: [..], null_counts: [..] }`.
pub open spec fn stats_text(v: StatsView) -> Seq<char> {
    "BinaryTableStats { min_values: "@ + list_text(bytes_as_ints(v.min_values))
        + ", max_values: "@ + list_text(bytes_as_ints(v.max_values))
        + ", null_counts: "@ + list_text(longs_as_ints(v.null_counts)) + " }"@
}

proof fn lemma_joined_no_underscore(s: Seq<int>)
    ensures
        no_underscore(joined_text(s)),
    decreases s.len(),
{
    if s.len() == 1 {
        lemma_int_text_no_underscore(s[0]);
    } else if s.len() > 1 {
        lemma_joined_no_underscore(s.drop_last());
        lemma_int_text_no_underscore(s.last());
        lemma_no_underscore_concat(joined_text(s.drop_last()), seq![',', ' ']);
        lemma_no_underscore_concat(joined_text(s.drop_last()) + seq![',', ' '], int_text(s.last()));
    }
}

proof fn lemma_list_no_underscore(s: Seq<int>)
    ensures
        no_underscore(list_text(s)),
{
    lemma_joined_no_underscore(s);
    lemma_no_underscore_concat(seq!['['], joined_text(s));
    lemma_no_underscore_concat(seq!['['] + joined_text(s), seq![']']);
}

/// In the debug form of statistics every underscore stands inside a field
/// name and is followed by a lower-case letter.
pub proof fn lemma_stats_text_underscores(v: StatsView)
    ensures
        underscores_lead_lower(stats_text(v)),
{
    reveal_strlit("BinaryTableStats { min_values: ");
    reveal_strlit(", max_values: ");
    reveal_strlit(", null_counts: ");
    reveal_strlit(" }");
    let a = "BinaryTableStats { min_values: "@;
    let b = ", max_values: "@;
    let c = ", null_counts: "@;
    let d = " }"@;
    assert(underscores_lead_lower(a));
    assert(underscores_lead_lower(b));
    assert(underscores_lead_lower(c));
    assert(underscores_lead_lower(d));
    let l1 = list_text(bytes_as_ints(v.min_values));
    let l2 = list_text(bytes_as_ints(v.max_values));
    let l3 = list_text(longs_as_ints(v.null_counts));
    lemma_list_no_underscore(bytes_as_ints(v.min_values));
    lemma_list_no_underscore(bytes_as_ints(v.max_values));
    lemma_list_no_underscore(longs_as_ints(v.null_counts));
    lemma_underscores_concat(a, l1);
    lemma_underscores_concat(a + l1, b);
    lemma_underscores_concat(a + l1 + b, l2);
    lemma_underscores_concat(a + l1 + b + l2, c);
    lemma_underscores_concat(a + l1 + b + l2 + c, l3);
    lemma_underscores_concat(a + l1 + b + l2 + c + l3, d);
}

fn copy_bytes(v: &Vec<u8>) -> (r: Vec<u8>)
    ensures
        r@ == v@,
{
    let mut r: Vec<u8> = Vec::new();
    let mut i: usize = 0;
    while i < v.len()
        invariant
            i <= v.len(),
            r@ == v@.subrange(0, i as int),
        decreases v.len() - i,
    {
        r.push(v[i]);
        i = i + 1;
        assert(r@ =~= v@.subrange(0, i as int));
    }
    assert(r@ =~= v@);
    r
}

fn copy_longs(v: &Vec<i64>) -> (r: Vec<i64>)
    ensures
        r@ == v@,
{
    let mut r: Vec<i64> = Vec::new();
    let mut i: usize = 0;
    while i < v.len()
        invariant
            i <= v.len(),
            r@ == v@.subrange(0, i as int),
        decreases v.len() - i,
    {
        r.push(v[i]);
        i = i + 1;
        assert(r@ =~= v@.subrange(0, i as int));
    }
    assert(r@ =~= v@);
    r
}

/// Appends the elements of `xs`, in decimal and separated by `", "`, in brackets.
fn push_list(s: &mut String, xs: &Vec<i64>)
    ensures
        final(s)@ == old(s)@ + list_text(longs_as_ints(xs@)),
{
    proof {
        reveal_strlit("[");
        reveal_strlit("]");
        reveal_strlit(", ");
    }
    s.append("[");
    let ghost start = s@;
    let mut i: usize = 0;
    while i < xs.len()
        invariant
            i <= xs.len(),
            s@ == start + joined_text(longs_as_ints(xs@.subrange(0, i as int))),
        decreases xs.len() - i,
    {
        proof {
            reveal_strlit(", ");
        }
        let ghost before = s@;
        let ghost prev = longs_as_ints(xs@.subrange(0, i as int));
        let ghost p = longs_as_ints(xs@.subrange(0, i as int + 1));
        if i > 0 {
            s.append(", ");
        }
        push_int(s, xs[i]);
        proof {
            assert(p.drop_last() =~= prev);
            assert(p.last() == xs@[i as int] as int);
            if i == 0 {
                assert(p.len() == 1);
                assert(joined_text(p) == int_text(p[0]));
                assert(s@ =~= start + joined_text(p));
            } else {
                assert(p.len() > 1);
                assert(joined_text(p) == joined_text(prev) + seq![',', ' '] + int_text(p.last()));
                assert(s@ =~= start + joined_text(p));
            }
        }
        i = i + 1;
    }
    assert(xs@.subrange(0, xs@.len() as int) =~= xs@);
    s.append("]");
    assert(final(s)@ =~= old(s)@ + list_text(longs_as_ints(xs@)));
}

fn widen(v: &Vec<u8>) -> (r: Vec<i64>)
    ensures
        longs_as_ints(r@) == bytes_as_ints(v@),
{
    let mut r: Vec<i64> = Vec::new();
    let mut i: usize = 0;
    while i < v.len()
        invariant
            i <= v.len(),
            r@.len() == i,
            forall|j: int| 0 <= j < i ==> r@[j] as int == v@[j] as int,
        decreases v.len() - i,
    {
        r.push(v[i] as i64);
        i = i + 1;
    }
    assert(longs_as_ints(r@) =~= bytes_as_ints(v@));
    r
}

impl BinaryTableStats {
    pub fn new(min_values: Vec<u8>, max_values: Vec<u8>, null_counts: Vec<i64>) -> (r: Self)
        ensures
            r@ == (StatsView { min_values: min_values@, max_values: max_values@, null_counts: null_counts@ }),
    {
        BinaryTableStats { min_values, max_values, null_counts }
    }

    /// Statistics of a manifest without partition columns.
    pub fn empty() -> (r: Self)
        ensures
            r@ == empty_stats(),
    {
        let r = BinaryTableStats { min_values: Vec::new(), max_values: Vec::new(), null_counts: Vec::new() };
        assert(r@.min_values =~= Seq::<u8>::empty());
        assert(r@.max_values =~= Seq::<u8>::empty());
        assert(r@.null_counts =~= Seq::<i64>::empty());
        r
    }

    pub fn min_values(&self) -> (r: &Vec<u8>)
        ensures
            r@ == self@.min_values,
    {
        &self.min_values
    }

    pub fn max_values(&self) -> (r: &Vec<u8>)
        ensures
            r@ == self@.max_values,
    {
        &self.max_values
    }

    pub fn null_counts(&self) -> (r: &Vec<i64>)
        ensures
            r@ == self@.null_counts,
    {
        &self.null_counts
    }

    /// A deep copy.
    pub fn copy(&self) -> (r: Self)
        ensures
            r@ == self@,
    {
        BinaryTableStats {
            min_values: copy_bytes(&self.min_values),
            max_values: copy_bytes(&self.max_values),
            null_counts: copy_longs(&self.null_counts),
        }
    }

    /// Field-wise equality.
    pub fn same_as(&self, other: &Self) -> (r: bool)
        ensures
            r == (self@ == other@),
    {
        let r = self.min_values == other.min_values && self.max_values == other.max_values
            && self.null_counts == other.null_counts;
        proof {
            if r {
                assert(self.min_values@ =~= other.min_values@);
                assert(self.max_values@ =~= other.max_values@);
                assert(self.null_counts@ =~= other.null_counts@);
            }
        }
        r
    }

    /// Appends the debug form of the statistics.
    pub fn push_debug(&self, s: &mut String)
        ensures
            final(s)@ == old(s)@ + stats_text(self@),
    {
        proof {
            reveal_strlit("BinaryTableStats { min_values: ");
            reveal_strlit(", max_values: ");
            reveal_strlit(", null_counts: ");
            reveal_strlit(" }");
        }
        s.append("BinaryTableStats { min_values: ");
        push_list(s, &widen(&self.min_values));
        s.append(", max_values: ");
        push_list(s, &widen(&self.max_values));
        s.append(", null_counts: ");
        push_list(s, &self.null_counts);
        s.append(" }");
        assert(final(s)@ =~= old(s)@ + stats_text(self@));
    }
}

impl PartialEq for BinaryTableStats {
    fn eq(&self, other: &Self) -> (r: bool) {
        self.same_as(other)
    }
}

impl vstd::std_specs::cmp::PartialEqSpecImpl for BinaryTableStats {
    open spec fn obeys_eq_spec() -> bool {
        true
    }

    open spec fn eq_spec(&self, other: &Self) -> bool {
        self@ == other@
    }
}

impl Eq for BinaryTableStats {}

impl Clone for BinaryTableStats {
    fn clone(&self) -> (r: Self)
        ensures
            r@ == self@,
    {
        self.copy()
    }
}

} // verus!
