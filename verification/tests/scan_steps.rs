use fluss::client::table::kv_scanner::{PollAction, PollEvent};
use fluss::client::{KvBatchScanner, KvScanBatch};
use fluss::error::Error;
use fluss::metadata::{
    DataTypes, KvFormat, Schema, TableBucket, TableDescriptor, TableInfo, TablePath,
};
use fluss::row::encode::{RowEncoder, RowEncoderFactory};
use fluss::row::{Datum, InternalRow};
use fluss::rpc::message::{LimitScanRequest, LimitScanResponse, RequestBody};
use fluss::rpc::ApiKey;

fn schema() -> Schema {
    Schema::builder()
        .column("id", DataTypes::integer())
        .primary_key(vec!["id"])
        .build()
        .unwrap()
}

fn scanner(properties: &[(&str, &str)]) -> KvBatchScanner {
    let mut builder = TableDescriptor::builder()
        .schema(schema())
        .distributed_by(Some(1), vec![]);
    for (k, v) in properties {
        builder = builder.property(*k, *v);
    }
    let info = TableInfo::of(
        TablePath::new("db", "t"),
        5,
        1,
        builder.build().unwrap(),
        0,
        0,
    );
    KvBatchScanner::new(info, TableBucket::new_with_partition(5, Some(6), 7), 8)
}

fn batch(ids: &[i32]) -> Vec<u8> {
    let mut body = Vec::new();
    for id in ids {
        let mut encoder =
            RowEncoderFactory::create(KvFormat::COMPACTED, schema().row_type().clone()).unwrap();
        encoder.start_new_row().unwrap();
        encoder.encode_field(0, Datum::Int32(*id)).unwrap();
        let row = encoder.finish_row().unwrap();
        body.extend_from_slice(&(row.len() as i32 + 2).to_le_bytes());
        body.extend_from_slice(&1i16.to_le_bytes());
        body.extend_from_slice(&row);
    }
    let mut bytes = (body.len() as i32 + 5).to_le_bytes().to_vec();
    bytes.push(0);
    bytes.extend_from_slice(&(ids.len() as i32).to_le_bytes());
    bytes.extend(body);
    bytes
}

fn answer(records: Option<Vec<u8>>) -> LimitScanResponse {
    LimitScanResponse {
        error_code: None,
        error_message: None,
        is_log_table: None,
        records,
    }
}

fn returned(action: PollAction) -> KvScanBatch {
    match action {
        PollAction::Return(batch) => batch,
        other => panic!("expected a batch, got {other:?}"),
    }
}

#[test]
fn a_scan_returns_one_batch() {
    let mut scanner = scanner(&[]);
    match scanner.poll_batch(PollEvent::Started).unwrap() {
        PollAction::FindLeader(path, bucket) => {
            assert_eq!(path.to_string(), "db.t");
            assert_eq!(bucket.bucket_id(), 7);
        }
        other => panic!("{other:?}"),
    }
    match scanner.poll_batch(PollEvent::LeaderFound(Some(3))).unwrap() {
        PollAction::FindServer(id) => assert_eq!(id, 3),
        other => panic!("{other:?}"),
    }
    match scanner
        .poll_batch(PollEvent::ServerLookedUp(3, true))
        .unwrap()
    {
        PollAction::Send(request) => assert_eq!(request, LimitScanRequest::new(5, Some(6), 7, 8)),
        other => panic!("{other:?}"),
    }
    let response = answer(Some(batch(&[4, -5])));
    assert!(scanner.can_take(&response));
    assert!(!scanner.is_closed());
    let first = returned(scanner.poll_batch(PollEvent::Answered(response)).unwrap());
    assert!(!first.has_more_results());
    let rows = first.get_rows();
    assert_eq!(rows.len(), 2);
    assert_eq!(rows[0].get_int(0).unwrap(), 4);
    assert_eq!(rows[1].get_int(0).unwrap(), -5);

    assert!(scanner.is_closed());
    let second = returned(scanner.poll_batch(PollEvent::Started).unwrap());
    assert!(second.is_empty());
    assert!(!second.has_more_results());
}

#[test]
fn an_answer_without_records_is_empty() {
    let mut scanner = scanner(&[]);
    let empty = returned(
        scanner
            .poll_batch(PollEvent::Answered(answer(None)))
            .unwrap(),
    );
    assert_eq!(empty.len(), 0);
    assert!(scanner.is_closed());
}

#[test]
fn scans_fail() {
    let mut scanner = scanner(&[]);
    let bucket = "TableBucket(table_id=5, partition_id=6, bucket=7)";
    match scanner.poll_batch(PollEvent::LeaderFound(None)) {
        Err(Error::LeaderNotAvailable { message }) => assert_eq!(
            message,
            format!("No leader found for table bucket: {bucket}")
        ),
        other => panic!("{other:?}"),
    }
    match scanner.poll_batch(PollEvent::ServerLookedUp(3, false)) {
        Err(Error::LeaderNotAvailable { message }) => {
            assert_eq!(message, "Tablet server 3 is not found in metadata cache")
        }
        other => panic!("{other:?}"),
    }
    match scanner.poll_batch(PollEvent::TimedOut) {
        Err(Error::UnexpectedError { message }) => assert_eq!(
            message,
            format!("LimitScan request timed out after 30s for {bucket}")
        ),
        other => panic!("{other:?}"),
    }
    let mut failed = answer(None);
    failed.error_code = Some(9);
    match scanner.poll_batch(PollEvent::Answered(failed.clone())) {
        Err(Error::FlussAPIError { api_error }) => {
            assert_eq!(api_error.code, 9);
            assert_eq!(api_error.message, "");
        }
        other => panic!("{other:?}"),
    }
    failed.error_message = Some("gone".to_string());
    assert_eq!(
        scanner
            .poll_batch(PollEvent::Answered(failed))
            .err()
            .unwrap()
            .message(),
        "gone"
    );
    let mut log = answer(Some(batch(&[1])));
    log.error_code = Some(0);
    log.is_log_table = Some(true);
    match scanner.poll_batch(PollEvent::Answered(log)) {
        Err(Error::UnsupportedOperation { message }) => assert_eq!(
            message,
            format!("LimitScan returned log records for {bucket}, expected KV records for PK table")
        ),
        other => panic!("{other:?}"),
    }
    assert!(!scanner.is_closed());
}

#[test]
fn broken_records_leave_a_scanner_open() {
    let mut scanner = scanner(&[]);
    let mut broken = batch(&[1]);
    broken[9] = 0;
    let response = answer(Some(broken));
    assert!(scanner.can_take(&response));
    assert_eq!(
        scanner
            .poll_batch(PollEvent::Answered(response))
            .err()
            .unwrap()
            .message(),
        "Invalid value record length: 0"
    );
    assert!(!scanner.is_closed());
    let whole = batch(&[1]);
    assert!(!scanner.can_take(&answer(Some(whole[..whole.len() - 1].to_vec()))));
    let mut failed = answer(Some(whole[..9].to_vec()));
    failed.error_code = Some(1);
    failed.error_message = Some("not here".to_string());
    assert!(scanner.can_take(&failed));
    assert_eq!(
        scanner
            .poll_batch(PollEvent::Answered(failed))
            .err()
            .unwrap()
            .message(),
        "not here"
    );
    let mut log = answer(Some(whole[..9].to_vec()));
    log.is_log_table = Some(true);
    assert!(scanner.can_take(&log));
    assert!(scanner.poll_batch(PollEvent::Answered(log)).is_err());
    scanner.keep_alive().unwrap();
    assert!(!scanner.is_closed());
    scanner.close().unwrap();
    assert!(scanner.is_closed());
    assert_eq!(scanner.table_info().get_table_id(), 5);
}

#[test]
fn unknown_row_formats_are_taken_for_compacted() {
    let mut unknown = scanner(&[("table.kv.format", "whatever")]);
    let rows = unknown.decode_limit_scan_records(batch(&[2])).unwrap();
    assert_eq!(rows.len(), 1);
    let mut indexed = scanner(&[("table.kv.format", "INDEXED")]);
    assert_eq!(
        indexed
            .decode_limit_scan_records(batch(&[2]))
            .err()
            .unwrap()
            .message(),
        "RowDecoder for INDEXED format is not yet implemented"
    );
}

#[test]
fn limit_scans_have_their_key() {
    assert_eq!(LimitScanRequest::API_KEY, ApiKey::LimitScan);
    assert_eq!(<&LimitScanRequest as RequestBody>::API_KEY, ApiKey::LimitScan);
}
