//! Buckets of tables, and values kept for each bucket.

use vstd::prelude::*;

use crate::text::{self, i64_to_text};

verus! {

pub type TableId = i64;

pub type PartitionId = i64;

pub type BucketId = i32;

/// A bucket of a table, or of one partition of it.
#[derive(Debug, Clone, Copy, Hash, PartialEq, Eq)]
pub struct TableBucket {
    table_id: TableId,
    partition_id: Option<PartitionId>,
    bucket: BucketId,
}

/// A [`TableBucket`] as a value.
pub struct TableBucketView {
    pub table_id: TableId,
    pub partition_id: Option<PartitionId>,
    pub bucket: BucketId,
}

impl View for TableBucket {
    type V = TableBucketView;

    closed spec fn view(&self) -> TableBucketView {
        TableBucketView {
            table_id: self.table_id,
            partition_id: self.partition_id,
            bucket: self.bucket,
        }
    }
}

impl TableBucketView {
    pub open spec fn text(self) -> Seq<char> {
        match self.partition_id {
            Some(partition_id) => "TableBucket(table_id="@ + text::int_text(self.table_id as int)
                + ", partition_id="@ + text::int_text(partition_id as int) + ", bucket="@
                + text::int_text(self.bucket as int) + ")"@,
            None => "TableBucket(table_id="@ + text::int_text(self.table_id as int) + ", bucket="@
                + text::int_text(self.bucket as int) + ")"@,
        }
    }
}

impl TableBucket {
    pub fn new(table_id: TableId, bucket: BucketId) -> (r: Self)
        ensures
            r@ == (TableBucketView { table_id, partition_id: None, bucket }),
    {
        TableBucket { table_id, partition_id: None, bucket }
    }

    pub fn new_with_partition(
        table_id: TableId,
        partition_id: Option<PartitionId>,
        bucket: BucketId,
    ) -> (r: Self)
        ensures
            r@ == (TableBucketView { table_id, partition_id, bucket }),
    {
        TableBucket { table_id, partition_id, bucket }
    }

    pub fn table_id(&self) -> (r: TableId)
        ensures
            r == self@.table_id,
    {
        self.table_id
    }

    pub fn bucket_id(&self) -> (r: BucketId)
        ensures
            r == self@.bucket,
    {
        self.bucket
    }

    pub fn partition_id(&self) -> (r: Option<PartitionId>)
        ensures
            r == self@.partition_id,
    {
        self.partition_id
    }

    /// Whether two buckets are the same.
    pub fn is_same(&self, other: &TableBucket) -> (r: bool)
        ensures
            r == (self@ == other@),
    {
        let same_partition = match (self.partition_id, other.partition_id) {
            (Some(a), Some(b)) => a == b,
            (None, None) => true,
            _ => false,
        };
        self.table_id == other.table_id && self.bucket == other.bucket && same_partition
    }

    pub fn to_string(&self) -> (r: String)
        ensures
            r@ == self@.text(),
    {
        let mut out = "TableBucket(table_id=".to_owned();
        out.append(i64_to_text(self.table_id).as_str());
        match self.partition_id {
            Some(partition_id) => {
                out.append(", partition_id=");
                out.append(i64_to_text(partition_id).as_str());
            },
            None => {},
        }
        out.append(", bucket=");
        out.append(i64_to_text(self.bucket as i64).as_str());
        out.append(")");
        out
    }
}

/// The place of the first pair for a bucket.
pub open spec fn find_bucket<V>(pairs: Seq<(TableBucketView, V)>, b: TableBucketView) -> Option<int>
    decreases pairs.len(),
{
    if pairs.len() == 0 {
        None
    } else {
        match find_bucket(pairs.drop_last(), b) {
            Some(i) => Some(i),
            None => if pairs.last().0 == b {
                Some(pairs.len() - 1)
            } else {
                None
            },
        }
    }
}

/// Pairs with a value put under a bucket, in place of one that is there.
pub open spec fn put_bucket<V>(
    pairs: Seq<(TableBucketView, V)>,
    b: TableBucketView,
    value: V,
) -> Seq<(TableBucketView, V)> {
    match find_bucket(pairs, b) {
        Some(i) => pairs.update(i, (b, value)),
        None => pairs.push((b, value)),
    }
}

/// Whether no bucket occurs twice.
pub open spec fn distinct_buckets<V>(pairs: Seq<(TableBucketView, V)>) -> bool {
    forall|i: int, j: int|
        0 <= i < j < pairs.len() ==> (#[trigger] pairs[i]).0 != (#[trigger] pairs[j]).0
}

/// The pair that is found is the first for its bucket.
pub proof fn find_bucket_is_first<V>(pairs: Seq<(TableBucketView, V)>, b: TableBucketView)
    ensures
        match find_bucket(pairs, b) {
            Some(i) => 0 <= i < pairs.len() && pairs[i].0 == b && forall|j: int|
                0 <= j < i ==> (#[trigger] pairs[j]).0 != b,
            None => forall|j: int| 0 <= j < pairs.len() ==> (#[trigger] pairs[j]).0 != b,
        },
    decreases pairs.len(),
{
    if pairs.len() > 0 {
        let front = pairs.drop_last();
        find_bucket_is_first(front, b);
        assert(forall|j: int| 0 <= j < front.len() ==> #[trigger] pairs[j] == front[j]);
    }
}

/// Where a bucket does not occur twice, putting a value keeps it so; the value
/// is found under its bucket, and every other bucket keeps its value.
pub proof fn put_bucket_is_found<V>(
    pairs: Seq<(TableBucketView, V)>,
    b: TableBucketView,
    value: V,
    other: TableBucketView,
)
    ensures
        distinct_buckets(pairs) ==> distinct_buckets(put_bucket(pairs, b, value)),
        find_bucket(put_bucket(pairs, b, value), b) is Some,
        put_bucket(pairs, b, value)[find_bucket(put_bucket(pairs, b, value), b)->0].1 == value,
        other != b ==> find_bucket(put_bucket(pairs, b, value), other) == find_bucket(pairs, other),
        other != b && find_bucket(pairs, other) is Some ==> put_bucket(
            pairs,
            b,
            value,
        )[find_bucket(pairs, other)->0].1 == pairs[find_bucket(pairs, other)->0].1,
{
    let out = put_bucket(pairs, b, value);
    find_bucket_is_first(pairs, b);
    find_bucket_is_first(out, b);
    find_bucket_is_first(pairs, other);
    find_bucket_is_first(out, other);
    match find_bucket(pairs, b) {
        Some(i) => {
            assert(out[i].0 == b);
            assert(forall|j: int| 0 <= j < pairs.len() ==> (#[trigger] out[j]).0 == pairs[j].0);
            assert(forall|j: int| 0 <= j < pairs.len() ==> out[j].0 == (#[trigger] pairs[j]).0);
        },
        None => {
            assert(out[pairs.len() as int].0 == b);
            assert(forall|j: int| 0 <= j < pairs.len() ==> #[trigger] out[j] == pairs[j]);
            assert(forall|j: int| 0 <= j < pairs.len() ==> out[j] == #[trigger] pairs[j]);
        },
    }
}

/// A map from buckets to values, which holds no bucket twice.
#[derive(Debug)]
pub struct BucketMap<V> {
    entries: Vec<(TableBucket, V)>,
}

impl<V> View for BucketMap<V> {
    type V = Seq<(TableBucketView, V)>;

    closed spec fn view(&self) -> Seq<(TableBucketView, V)> {
        self.entries@.map_values(|e: (TableBucket, V)| (e.0@, e.1))
    }
}

impl<V> BucketMap<V> {
    #[verifier::type_invariant]
    pub open spec fn no_bucket_twice(self) -> bool {
        distinct_buckets(self@)
    }

    pub fn new() -> (r: Self)
        ensures
            r@ == Seq::<(TableBucketView, V)>::empty(),
    {
        let r = BucketMap { entries: Vec::new() };
        assert(r@ =~= Seq::<(TableBucketView, V)>::empty());
        r
    }

    fn find(&self, bucket: &TableBucket) -> (r: Option<usize>)
        ensures
            match r {
                Some(i) => find_bucket(self@, bucket@) == Some(i as int),
                None => find_bucket(self@, bucket@) is None,
            },
    {
        proof {
            find_bucket_is_first(self@, bucket@);
        }
        let mut i: usize = 0;
        while i < self.entries.len()
            invariant
                i <= self.entries@.len(),
                self@.len() == self.entries@.len(),
                forall|j: int| 0 <= j < i ==> (#[trigger] self@[j]).0 != bucket@,
            decreases self.entries@.len() - i,
        {
            assert(self@[i as int].0 == self.entries@[i as int].0@);
            if self.entries[i].0.is_same(bucket) {
                proof {
                    find_bucket_is_first(self@, bucket@);
                }
                return Some(i);
            }
            i = i + 1;
        }
        None
    }

    /// The value for a bucket.
    pub fn get(&self, bucket: &TableBucket) -> (r: Option<&V>)
        ensures
            match find_bucket(self@, bucket@) {
                Some(i) => r == Some(&self@[i].1),
                None => r is None,
            },
    {
        proof {
            find_bucket_is_first(self@, bucket@);
        }
        match self.find(bucket) {
            Some(i) => Some(&self.entries[i].1),
            None => None,
        }
    }

    /// Puts a value under a bucket, in place of one that is there.
    pub fn insert(&mut self, bucket: TableBucket, value: V)
        ensures
            final(self)@ == put_bucket(old(self)@, bucket@, value),
    {
        let ghost before = self@;
        proof {
            find_bucket_is_first(self@, bucket@);
        }
        let place = self.find(&bucket);
        proof {
            use_type_invariant(&*self);
            put_bucket_is_found(before, bucket@, value, bucket@);
        }
        let mut entries: Vec<(TableBucket, V)> = Vec::new();
        std::mem::swap(&mut entries, &mut self.entries);
        match place {
            Some(i) => {
                entries.set(i, (bucket, value));
            },
            None => {
                entries.push((bucket, value));
            },
        }
        assert(entries@.map_values(|e: (TableBucket, V)| (e.0@, e.1)) =~= put_bucket(
            before,
            bucket@,
            value,
        ));
        self.entries = entries;
    }

    pub fn len(&self) -> (r: usize)
        ensures
            r == self@.len(),
    {
        self.entries.len()
    }

    /// The pairs one by one.
    pub fn pairs(&self) -> (r: &Vec<(TableBucket, V)>)
        ensures
            r@.map_values(|e: (TableBucket, V)| (e.0@, e.1)) == self@,
            distinct_buckets(self@),
    {
        proof {
            use_type_invariant(self);
        }
        &self.entries
    }

    pub fn into_pairs(self) -> (r: Vec<(TableBucket, V)>)
        ensures
            r@.map_values(|e: (TableBucket, V)| (e.0@, e.1)) == self@,
            distinct_buckets(self@),
    {
        proof {
            use_type_invariant(&self);
        }
        self.entries
    }
}

impl<V: Clone> Clone for BucketMap<V> {
    fn clone(&self) -> (r: Self)
        ensures
            r@.len() == self@.len(),
            forall|i: int|
                0 <= i < self@.len() ==> (#[trigger] r@[i]).0 == self@[i].0 && cloned(
                    self@[i].1,
                    r@[i].1,
                ),
    {
        let mut entries: Vec<(TableBucket, V)> = Vec::new();
        let mut i: usize = 0;
        while i < self.entries.len()
            invariant
                i <= self.entries@.len(),
                entries@.len() == i,
                forall|j: int|
                    0 <= j < i ==> (#[trigger] entries@[j]).0 == self.entries@[j].0 && cloned(
                        self.entries@[j].1,
                        entries@[j].1,
                    ),
            decreases self.entries@.len() - i,
        {
            entries.push((self.entries[i].0, self.entries[i].1.clone()));
            i = i + 1;
        }
        proof {
            use_type_invariant(self);
            let pairs = entries@.map_values(|e: (TableBucket, V)| (e.0@, e.1));
            assert forall|a: int, b: int| 0 <= a < b < pairs.len() implies (#[trigger] pairs[a]).0 != (
            #[trigger] pairs[b]).0 by {
                assert(self@[a].0 == pairs[a].0);
                assert(self@[b].0 == pairs[b].0);
            }
        }
        BucketMap { entries }
    }
}

/// How far a lake holds each bucket at a snapshot.
#[derive(Debug, Clone)]
pub struct LakeSnapshot {
    pub snapshot_id: i64,
    pub table_buckets_offset: BucketMap<i64>,
}

impl LakeSnapshot {
    pub fn new(snapshot_id: i64, table_buckets_offset: BucketMap<i64>) -> (r: Self)
        ensures
            r == (LakeSnapshot { snapshot_id, table_buckets_offset }),
    {
        LakeSnapshot { snapshot_id, table_buckets_offset }
    }

    pub fn snapshot_id(&self) -> (r: i64)
        ensures
            r == self.snapshot_id,
    {
        self.snapshot_id
    }

    pub fn table_buckets_offset(&self) -> (r: &BucketMap<i64>)
        ensures
            *r == self.table_buckets_offset,
    {
        &self.table_buckets_offset
    }
}

/// A bucket that is new comes last, behind all others; one that is known keeps its
/// place, and no bucket goes.
pub proof fn buckets_keep_their_places<V>(
    pairs: Seq<(TableBucketView, V)>,
    b: TableBucketView,
    value: V,
)
    ensures
        ({
            let out = put_bucket(pairs, b, value);
            let known = exists|i: int| 0 <= i < pairs.len() && (#[trigger] pairs[i]).0 == b;
            &&& known ==> out.len() == pairs.len()
            &&& !known ==> out == pairs.push((b, value))
            &&& forall|i: int|
                0 <= i < pairs.len() ==> (#[trigger] out[i]).0 == pairs[i].0 && (pairs[i].0 != b
                    ==> out[i].1 == pairs[i].1)
        }),
{
    find_bucket_is_first(pairs, b);
}

/// A bucket is shown with its table and its number, and its partition if it has
/// one.
pub proof fn buckets_are_shown(b: TableBucketView, c: TableBucketView)
    ensures
        b.partition_id is None ==> b.text() == "TableBucket(table_id="@ + text::int_text(
            b.table_id as int,
        ) + ", bucket="@ + text::int_text(b.bucket as int) + ")"@,
        b.partition_id matches Some(p) ==> b.text() == "TableBucket(table_id="@ + text::int_text(
            b.table_id as int,
        ) + ", partition_id="@ + text::int_text(p as int) + ", bucket="@ + text::int_text(
            b.bucket as int,
        ) + ")"@,
        b == c ==> b.text() == c.text(),
{
}

} // verus!
