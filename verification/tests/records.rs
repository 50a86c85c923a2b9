use std::sync::Arc;

use fluss::metadata::{BucketMap, TableBucket};
use fluss::record::{ChangeType, ColumnarRow, RecordBatch, ScanBatch, ScanRecord, ScanRecords};
use fluss::row::Datum;

fn int_batch(values: Vec<i32>) -> RecordBatch {
    RecordBatch::try_new(vec![values.into_iter().map(Datum::Int32).collect()])
        .expect("record batch")
}

fn make_row(values: Vec<i32>, row_id: usize) -> ColumnarRow {
    ColumnarRow::new_with_row_id(Arc::new(int_batch(values)), row_id)
}

#[test]
fn change_type_round_trip() {
    let cases = [
        (ChangeType::AppendOnly, "+A", 0),
        (ChangeType::Insert, "+I", 1),
        (ChangeType::UpdateBefore, "-U", 2),
        (ChangeType::UpdateAfter, "+U", 3),
        (ChangeType::Delete, "-D", 4),
    ];

    for (change_type, short, byte) in cases {
        assert_eq!(change_type.short_string(), short);
        assert_eq!(change_type.to_byte_value(), byte);
        assert_eq!(ChangeType::from_byte_value(byte).unwrap(), change_type);
    }

    let err = ChangeType::from_byte_value(9).unwrap_err();
    assert!(err.contains("Unsupported byte value"));
}

#[test]
fn scan_records_counts_and_iterates() {
    let bucket0 = TableBucket::new(1, 0);
    let bucket1 = TableBucket::new(1, 1);
    let record0 = ScanRecord::new(make_row(vec![10, 11], 0), 5, 7, ChangeType::Insert);
    let record1 = ScanRecord::new(make_row(vec![10, 11], 1), 6, 8, ChangeType::Delete);

    let mut records = BucketMap::new();
    records.insert(bucket0.clone(), vec![record0.clone(), record1.clone()]);

    let scan_records = ScanRecords::new(records);
    assert_eq!(scan_records.records(&bucket0).len(), 2);
    assert!(scan_records.records(&bucket1).is_empty());
    assert_eq!(scan_records.count(), 2);

    let collected: Vec<_> = scan_records.into_records();
    assert_eq!(collected.len(), 2);
}

#[test]
fn scan_record_default_values() {
    let record = ScanRecord::new_default(make_row(vec![1], 0));
    assert_eq!(record.offset(), -1);
    assert_eq!(record.timestamp(), -1);
    assert_eq!(record.change_type(), &ChangeType::Insert);
}

#[test]
fn scan_batch_last_offset() {
    let bucket = TableBucket::new(1, 0);

    // Batch with 3 records starting at offset 100 -> last_offset = 102
    let batch = int_batch(vec![1, 2, 3]);
    let scan_batch = ScanBatch::new(bucket.clone(), batch, 100);
    assert_eq!(scan_batch.num_records(), 3);
    assert_eq!(scan_batch.last_offset(), 102);

    // Empty batch -> last_offset = base_offset - 1
    let empty_batch = RecordBatch::new_empty(1);
    let empty_scan_batch = ScanBatch::new(bucket, empty_batch, 100);
    assert_eq!(empty_scan_batch.num_records(), 0);
    assert_eq!(empty_scan_batch.last_offset(), 99);
}

#[test]
fn the_count_is_that_of_all_buckets() {
    let record = ScanRecord::new_default(make_row(vec![1], 0));
    let buckets = [
        TableBucket::new(1, 0),
        TableBucket::new(1, 1),
        TableBucket::new_with_partition(1, Some(2), 0),
    ];
    let mut records = BucketMap::new();
    records.insert(buckets[0], vec![record.clone(); 5]);
    records.insert(buckets[1], vec![]);
    records.insert(buckets[2], vec![record.clone(); 3]);
    records.insert(buckets[0], vec![record.clone(); 2]);
    let copy = records.clone();
    assert_eq!(copy.len(), 3);
    let scan = ScanRecords::new(copy);
    let sum: usize = buckets.iter().map(|b| scan.records(b).len()).sum();
    assert_eq!(sum, 5);
    assert_eq!(scan.count(), 5);
    assert_eq!(scan.into_records().len(), 5);

    let mut no_records = BucketMap::new();
    no_records.insert(buckets[1], vec![]);
    let scan = ScanRecords::new(no_records);
    assert_eq!(scan.count(), 0);
    assert!(!scan.is_empty());
}

#[test]
fn the_last_offset_may_be_the_largest() {
    let bucket = TableBucket::new(1, 0);
    let batch = ScanBatch::new(bucket, int_batch(vec![1]), i64::MAX);
    assert_eq!(batch.last_offset(), i64::MAX);
}
