//! Records of a scan, and batches of them.

use vstd::prelude::*;

use crate::metadata::bucket::{self, BucketMap, TableBucket, TableBucketView};
use crate::record::change_type::ChangeType;
use crate::record::record_batch::{ColumnarRow, RecordBatch};

verus! {

/// A row of a log, with its place in the log and what it did.
#[derive(Debug, Clone)]
pub struct ScanRecord {
    pub row: ColumnarRow,
    offset: i64,
    timestamp: i64,
    change_type: ChangeType,
}

/// The offset and timestamp of a record that has none.
pub const INVALID: i64 = -1;

/// A [`ScanRecord`] as a value.
pub struct ScanRecordView {
    pub row: ColumnarRow,
    pub offset: i64,
    pub timestamp: i64,
    pub change_type: ChangeType,
}

impl View for ScanRecord {
    type V = ScanRecordView;

    closed spec fn view(&self) -> ScanRecordView {
        ScanRecordView {
            row: self.row,
            offset: self.offset,
            timestamp: self.timestamp,
            change_type: self.change_type,
        }
    }
}

impl ScanRecord {
    pub fn new_default(row: ColumnarRow) -> (r: Self)
        ensures
            r@ == (ScanRecordView {
                row,
                offset: INVALID,
                timestamp: INVALID,
                change_type: ChangeType::Insert,
            }),
    {
        ScanRecord {
            row,
            offset: INVALID,
            timestamp: INVALID,
            change_type: ChangeType::Insert,
        }
    }

    pub fn new(row: ColumnarRow, offset: i64, timestamp: i64, change_type: ChangeType) -> (r: Self)
        ensures
            r@ == (ScanRecordView { row, offset, timestamp, change_type }),
    {
        ScanRecord { row, offset, timestamp, change_type }
    }

    pub fn row(&self) -> (r: &ColumnarRow)
        ensures
            *r == self@.row,
    {
        &self.row
    }

    /// Returns the position in the log
    pub fn offset(&self) -> (r: i64)
        ensures
            r == self@.offset,
    {
        self.offset
    }

    /// Returns the timestamp
    pub fn timestamp(&self) -> (r: i64)
        ensures
            r == self@.timestamp,
    {
        self.timestamp
    }

    /// Returns the change type
    pub fn change_type(&self) -> (r: &ChangeType)
        ensures
            *r == self@.change_type,
    {
        &self.change_type
    }
}

/// The records of all buckets, one bucket after the other.
pub open spec fn all_records(pairs: Seq<(TableBucketView, Vec<ScanRecord>)>) -> Seq<ScanRecord>
    decreases pairs.len(),
{
    if pairs.len() == 0 {
        Seq::empty()
    } else {
        all_records(pairs.drop_last()) + pairs.last().1@
    }
}

/// The records of a bucket; none where the bucket was not scanned.
pub open spec fn bucket_records(
    pairs: Seq<(TableBucketView, Vec<ScanRecord>)>,
    b: TableBucketView,
) -> Seq<ScanRecord> {
    match bucket::find_bucket(pairs, b) {
        Some(i) => pairs[i].1@,
        None => Seq::empty(),
    }
}

/// How many records the given buckets have together.
pub open spec fn total_records(
    pairs: Seq<(TableBucketView, Vec<ScanRecord>)>,
    buckets: Seq<TableBucketView>,
) -> nat
    decreases buckets.len(),
{
    if buckets.len() == 0 {
        0
    } else {
        total_records(pairs, buckets.drop_last()) + bucket_records(pairs, buckets.last()).len()
    }
}

/// The buckets that were scanned.
pub open spec fn scanned_buckets(pairs: Seq<(TableBucketView, Vec<ScanRecord>)>) -> Seq<
    TableBucketView,
> {
    Seq::new(pairs.len(), |i: int| pairs[i].0)
}

/// All records are those of each scanned bucket together, and what is kept for a
/// bucket is what is found for it. A bucket that was not scanned has none.
pub proof fn count_is_sum(pairs: Seq<(TableBucketView, Vec<ScanRecord>)>)
    requires
        bucket::distinct_buckets(pairs),
    ensures
        all_records(pairs).len() == total_records(pairs, scanned_buckets(pairs)),
        forall|i: int|
            0 <= i < pairs.len() ==> bucket_records(pairs, (#[trigger] pairs[i]).0)
                == pairs[i].1@,
        forall|b: TableBucketView|
            !scanned_buckets(pairs).contains(b) ==> #[trigger] bucket_records(pairs, b)
                == Seq::<ScanRecord>::empty(),
{
    let buckets = scanned_buckets(pairs);
    assert forall|i: int| 0 <= i < pairs.len() implies bucket_records(pairs, (#[trigger] pairs[i]).0)
        == pairs[i].1@ by {
        bucket::find_bucket_is_first(pairs, pairs[i].0);
    }
    assert forall|b: TableBucketView| !buckets.contains(b) implies #[trigger] bucket_records(
        pairs,
        b,
    ) == Seq::<ScanRecord>::empty() by {
        bucket::find_bucket_is_first(pairs, b);
        if let Some(i) = bucket::find_bucket(pairs, b) {
            assert(buckets[i] == b);
        }
    }
    lemma_count_of_first(pairs, pairs.len() as int);
    assert(pairs.take(pairs.len() as int) =~= pairs);
    assert(buckets.take(pairs.len() as int) =~= buckets);
}

proof fn lemma_count_of_first(pairs: Seq<(TableBucketView, Vec<ScanRecord>)>, n: int)
    requires
        0 <= n <= pairs.len(),
        forall|i: int|
            0 <= i < pairs.len() ==> bucket_records(pairs, (#[trigger] pairs[i]).0)
                == pairs[i].1@,
    ensures
        all_records(pairs.take(n)).len() == total_records(pairs, scanned_buckets(pairs).take(n)),
    decreases n,
{
    let buckets = scanned_buckets(pairs);
    if n > 0 {
        lemma_count_of_first(pairs, n - 1);
        assert(pairs.take(n).drop_last() =~= pairs.take(n - 1));
        assert(pairs.take(n).last() == pairs[n - 1]);
        assert(buckets.take(n).drop_last() =~= buckets.take(n - 1));
        assert(buckets.take(n).last() == pairs[n - 1].0);
    }
}

/// The records of a scan, by bucket. No bucket occurs twice.
#[derive(Debug, Clone)]
pub struct ScanRecords {
    records: BucketMap<Vec<ScanRecord>>,
}

impl View for ScanRecords {
    type V = Seq<(TableBucketView, Vec<ScanRecord>)>;

    closed spec fn view(&self) -> Seq<(TableBucketView, Vec<ScanRecord>)> {
        self.records@
    }
}

impl ScanRecords {
    pub fn empty() -> (r: Self)
        ensures
            r@ == Seq::<(TableBucketView, Vec<ScanRecord>)>::empty(),
    {
        ScanRecords { records: BucketMap::new() }
    }

    pub fn new(records: BucketMap<Vec<ScanRecord>>) -> (r: Self)
        ensures
            r@ == records@,
            bucket::distinct_buckets(r@),
    {
        proof {
            use_type_invariant(&records);
        }
        ScanRecords { records }
    }

    /// The records of a bucket; none for a bucket that was not scanned.
    pub fn records(&self, scan_bucket: &TableBucket) -> (r: &[ScanRecord])
        ensures
            r@ == bucket_records(self@, scan_bucket@),
    {
        match self.records.get(scan_bucket) {
            Some(records) => records.as_slice(),
            None => {
                let none: &[ScanRecord] = &[];
                assert(none@ =~= Seq::<ScanRecord>::empty());
                none
            },
        }
    }

    /// How many records there are.
    pub fn count(&self) -> (r: usize)
        requires
            all_records(self@).len() <= usize::MAX,
        ensures
            r == all_records(self@).len(),
            r == total_records(self@, scanned_buckets(self@)),
    {
        let pairs = self.records.pairs();
        let ghost all = self@;
        let mut total: usize = 0;
        let mut i: usize = 0;
        assert(all.take(0) =~= Seq::<(TableBucketView, Vec<ScanRecord>)>::empty());
        while i < pairs.len()
            invariant
                i <= pairs@.len(),
                all == pairs@.map_values(|e: (TableBucket, Vec<ScanRecord>)| (e.0@, e.1)),
                all_records(all).len() <= usize::MAX,
                total == all_records(all.take(i as int)).len(),
            decreases pairs@.len() - i,
        {
            proof {
                assert(all.take(i + 1).drop_last() =~= all.take(i as int));
                assert(all.take(i + 1).last() == all[i as int]);
                lemma_fewer_records(all, i + 1);
            }
            total = total + pairs[i].1.len();
            i = i + 1;
        }
        assert(all.take(i as int) =~= all);
        proof {
            count_is_sum(all);
        }
        total
    }

    /// Whether no bucket was scanned.
    pub fn is_empty(&self) -> (r: bool)
        ensures
            r == (self@.len() == 0),
    {
        self.records.len() == 0
    }

    pub fn records_by_buckets(&self) -> (r: &BucketMap<Vec<ScanRecord>>)
        ensures
            r@ == self@,
            bucket::distinct_buckets(self@),
    {
        proof {
            use_type_invariant(&self.records);
        }
        &self.records
    }

    pub fn into_records_by_buckets(self) -> (r: BucketMap<Vec<ScanRecord>>)
        ensures
            r@ == self@,
            bucket::distinct_buckets(self@),
    {
        proof {
            use_type_invariant(&self.records);
        }
        self.records
    }

    /// The records of all buckets, one bucket after the other.
    pub fn into_records(self) -> (r: Vec<ScanRecord>)
        ensures
            r@ == all_records(self@),
    {
        let ghost all = self@;
        let pairs = self.records.into_pairs();
        let ghost list = pairs@;
        let mut out: Vec<ScanRecord> = Vec::new();
        assert(all.take(0) =~= Seq::<(TableBucketView, Vec<ScanRecord>)>::empty());
        for pair in it: pairs
            invariant
                it.seq() == list,
                all == list.map_values(|e: (TableBucket, Vec<ScanRecord>)| (e.0@, e.1)),
                out@ == all_records(all.take(it.index() as int)),
        {
            proof {
                let i = it.index() as int;
                assert(all.take(i + 1).drop_last() =~= all.take(i));
                assert(all.take(i + 1).last() == all[i]);
                assert(all[i].1 == list[i].1);
            }
            let mut records = pair.1;
            out.append(&mut records);
        }
        assert(all.take(all.len() as int) =~= all);
        out
    }
}

proof fn lemma_fewer_records(pairs: Seq<(TableBucketView, Vec<ScanRecord>)>, n: int)
    requires
        0 <= n <= pairs.len(),
    ensures
        all_records(pairs.take(n)).len() <= all_records(pairs).len(),
    decreases pairs.len(),
{
    if n < pairs.len() {
        assert(pairs.drop_last().take(n) =~= pairs.take(n));
        lemma_fewer_records(pairs.drop_last(), n);
    } else {
        assert(pairs.take(n) =~= pairs);
    }
}

/// A batch of records with metadata about bucket and offsets.
///
/// This is the batch-level equivalent of [`ScanRecord`], providing efficient
/// access to record batches while preserving the bucket and offset information
/// needed for tracking consumption progress.
#[derive(Debug, Clone)]
pub struct ScanBatch {
    /// The bucket this batch belongs to
    bucket: TableBucket,
    /// The record batch containing the data
    batch: RecordBatch,
    /// Offset of the first record in this batch
    base_offset: i64,
}

impl ScanBatch {
    pub closed spec fn bucket_view(&self) -> TableBucketView {
        self.bucket@
    }

    pub closed spec fn batch_view(&self) -> RecordBatch {
        self.batch
    }

    pub closed spec fn base_view(&self) -> i64 {
        self.base_offset
    }

    pub fn new(bucket: TableBucket, batch: RecordBatch, base_offset: i64) -> (r: Self)
        ensures
            r.bucket_view() == bucket@,
            r.batch_view() == batch,
            r.base_view() == base_offset,
    {
        ScanBatch { bucket, batch, base_offset }
    }

    pub fn bucket(&self) -> (r: &TableBucket)
        ensures
            r@ == self.bucket_view(),
    {
        &self.bucket
    }

    pub fn batch(&self) -> (r: &RecordBatch)
        ensures
            *r == self.batch_view(),
    {
        &self.batch
    }

    pub fn into_batch(self) -> (r: RecordBatch)
        ensures
            r == self.batch_view(),
    {
        self.batch
    }

    pub fn base_offset(&self) -> (r: i64)
        ensures
            r == self.base_view(),
    {
        self.base_offset
    }

    pub fn num_records(&self) -> (r: usize)
        ensures
            r == self.batch_view()@.row_count,
    {
        self.batch.num_rows()
    }

    /// Returns the offset of the last record in this batch. Offsets must not go
    /// beyond 64 bits.
    pub fn last_offset(&self) -> (r: i64)
        requires
            i64::MIN <= self.base_view() + self.batch_view()@.row_count - 1 <= i64::MAX,
        ensures
            r == self.base_view() + self.batch_view()@.row_count - 1,
    {
        if self.batch.num_rows() == 0 {
            self.base_offset - 1
        } else {
            let last: i128 = self.base_offset as i128 + self.batch.num_rows() as i128 - 1;
            last as i64
        }
    }
}

/// All records are those of the buckets, one bucket after the other, in their
/// order; a bucket has those that stand with it, and none where it was not scanned.
pub proof fn records_go_bucket_by_bucket(
    first: Seq<(TableBucketView, Vec<ScanRecord>)>,
    second: Seq<(TableBucketView, Vec<ScanRecord>)>,
    pair: (TableBucketView, Vec<ScanRecord>),
    b: TableBucketView,
)
    ensures
        all_records(first + second) == all_records(first) + all_records(second),
        all_records(seq![pair]) == pair.1@,
        scanned_buckets(first + second) == scanned_buckets(first) + scanned_buckets(second),
        scanned_buckets(seq![pair]) == seq![pair.0],
        bucket::distinct_buckets(first) ==> forall|i: int|
            0 <= i < first.len() ==> bucket_records(first, (#[trigger] first[i]).0) == first[i].1@,
        !scanned_buckets(first).contains(b) ==> bucket_records(first, b).len() == 0,
    decreases second.len(),
{
    assert(seq![pair].drop_last() =~= Seq::<(TableBucketView, Vec<ScanRecord>)>::empty());
    reveal_with_fuel(all_records, 2);
    assert(Seq::<ScanRecord>::empty() + pair.1@ =~= pair.1@);
    if second.len() > 0 {
        let front = second.drop_last();
        records_go_bucket_by_bucket(first, front, pair, b);
        assert((first + second).drop_last() =~= first + front);
        assert((first + second).last() == second.last());
        assert(all_records(first) + all_records(front) + second.last().1@ =~= all_records(first) + (
        all_records(front) + second.last().1@));
    } else {
        assert(first + second =~= first);
        assert(all_records(first) + Seq::<ScanRecord>::empty() =~= all_records(first));
    }
    if bucket::distinct_buckets(first) {
        assert forall|i: int| 0 <= i < first.len() implies bucket_records(
            first,
            (#[trigger] first[i]).0,
        ) == first[i].1@ by {
            bucket::find_bucket_is_first(first, first[i].0);
        }
    }
    bucket::find_bucket_is_first(first, b);
    if let Some(i) = bucket::find_bucket(first, b) {
        assert(scanned_buckets(first)[i] == b);
    }
}

} // verus!
