use std::sync::atomic::{AtomicUsize, Ordering};
use std::sync::Arc;

use bytes::Bytes;

use fluss::error::{Error, ErrorView, IoErrorKind, Result};
use fluss::metadata::schema::SchemaView;
use fluss::metadata::{DataTypes, KvFormat, Schema};
use fluss::record::kv::{SchemaGetter, StaticSchemaGetter};
use fluss::record::{DefaultValueRecordBatch, ValueRecordReadContext};
use fluss::row::encode::{RowEncoder, RowEncoderFactory};
use fluss::row::{Datum, InternalRow};

fn schema() -> Schema {
    Schema::builder()
        .column("id", DataTypes::integer())
        .build()
        .unwrap()
}

fn context(format: KvFormat) -> ValueRecordReadContext<StaticSchemaGetter> {
    ValueRecordReadContext::new(
        format,
        Arc::new(StaticSchemaGetter::new(Arc::new(schema()))),
    )
}

fn row(id: i32) -> Vec<u8> {
    let mut encoder =
        RowEncoderFactory::create(KvFormat::COMPACTED, schema().row_type().clone()).unwrap();
    encoder.start_new_row().unwrap();
    encoder.encode_field(0, Datum::Int32(id)).unwrap();
    encoder.finish_row().unwrap().to_vec()
}

fn batch(records: &[(i16, Vec<u8>)]) -> Vec<u8> {
    let mut body = Vec::new();
    for (id, value) in records {
        body.extend_from_slice(&(value.len() as i32 + 2).to_le_bytes());
        body.extend_from_slice(&id.to_le_bytes());
        body.extend_from_slice(value);
    }
    let mut bytes = Vec::new();
    bytes.extend_from_slice(&(body.len() as i32 + 5).to_le_bytes());
    bytes.push(7);
    bytes.extend_from_slice(&(records.len() as i32).to_le_bytes());
    bytes.extend_from_slice(&body);
    bytes
}

fn read(bytes: Vec<u8>, position: usize) -> Result<Vec<(i16, usize, Vec<u8>)>> {
    let records = DefaultValueRecordBatch::new(Bytes::from(bytes), position)
        .records(&mut context(KvFormat::COMPACTED))?;
    Ok(records
        .iter()
        .map(|r| (r.schema_id(), r.size_in_bytes(), r.value_bytes().to_vec()))
        .collect())
}

fn io_error<T: std::fmt::Debug>(r: Result<T>) -> (String, IoErrorKind, String) {
    match r {
        Err(Error::IoUnexpectedError { message, source }) => (message, source.kind, source.message),
        other => panic!("expected a failed read, got {other:?}"),
    }
}

#[test]
fn batches_come_back_wherever_they_stand() {
    let records = vec![(1i16, row(5)), (-2i16, row(-6)), (1i16, vec![])];
    let mut bytes = vec![9, 9, 9];
    bytes.extend(batch(&records));
    bytes.extend([8, 8]);
    let read_back = read(bytes.clone(), 3).unwrap();
    assert_eq!(read_back.len(), 3);
    for (i, (id, value)) in records.iter().enumerate() {
        assert_eq!(read_back[i], (*id, value.len() + 6, value.clone()));
    }
    let whole = DefaultValueRecordBatch::new(Bytes::from(bytes), 3);
    assert_eq!(whole.magic().unwrap(), 7);
    assert_eq!(whole.record_count().unwrap(), 3);
    assert_eq!(whole.size_in_bytes().unwrap(), batch(&records).len());
    assert!(whole.is_complete());
}

#[test]
fn records_hold_rows() {
    let bytes = batch(&[(1, row(5))]);
    let mut context = context(KvFormat::COMPACTED);
    let records = DefaultValueRecordBatch::new(Bytes::from(bytes), 0)
        .records(&mut context)
        .unwrap();
    let decoder = context.get_row_decoder(1).unwrap();
    assert_eq!(records[0].row(&decoder).get_int(0).unwrap(), 5);
    let again = context.get_row_decoder(1).unwrap();
    assert!(Arc::ptr_eq(&decoder, &again));
}

/// Counts how often it is asked, and knows no negative id.
struct CountingGetter {
    asked: AtomicUsize,
}

impl SchemaGetter for CountingGetter {
    fn schema_of(&self, _schema_id: i16) -> std::result::Result<SchemaView, ErrorView> {
        unreachable!("only contracts speak of it")
    }

    fn get_schema(&self, schema_id: i16) -> Result<Arc<Schema>> {
        self.asked.fetch_add(1, Ordering::SeqCst);
        if schema_id < 0 {
            Err(Error::illegal_argument("no such schema"))
        } else {
            Ok(Arc::new(schema()))
        }
    }
}

#[test]
fn decoders_that_were_found_are_kept() {
    let getter = Arc::new(CountingGetter {
        asked: AtomicUsize::new(0),
    });
    let mut context = ValueRecordReadContext::new(KvFormat::COMPACTED, getter.clone());
    let first = context.get_row_decoder(4).unwrap();
    assert!(context.get_row_decoder(-1).is_err());
    assert_eq!(
        context.get_row_decoder(-1).err().unwrap().message(),
        "no such schema"
    );
    assert_eq!(getter.asked.load(Ordering::SeqCst), 3);
    let second = context.get_row_decoder(4).unwrap();
    assert!(Arc::ptr_eq(&first, &second));
    assert_eq!(getter.asked.load(Ordering::SeqCst), 3);
    let bytes = batch(&[(4, row(5)), (6, row(7)), (6, row(8))]);
    DefaultValueRecordBatch::new(Bytes::from(bytes), 0)
        .records(&mut context)
        .unwrap();
    assert_eq!(getter.asked.load(Ordering::SeqCst), 4);
    context.get_row_decoder(6).unwrap();
    assert_eq!(getter.asked.load(Ordering::SeqCst), 4);
}

#[test]
fn short_batches_are_refused() {
    let empty = DefaultValueRecordBatch::new(Bytes::new(), 0);
    let e = empty.size_in_bytes().unwrap_err();
    assert_eq!(e.message, "Not enough bytes to read batch length");
    assert_eq!(e.kind, IoErrorKind::UnexpectedEof);
    assert_eq!(
        empty.magic().unwrap_err().message,
        "Not enough bytes to read magic"
    );
    assert_eq!(
        io_error(read(vec![], 0)).0,
        "Not enough bytes to read record count"
    );
    let far = DefaultValueRecordBatch::new(Bytes::from(vec![0; 20]), usize::MAX);
    assert!(far.size_in_bytes().is_err());
    assert!(far.magic().is_err());
    assert!(far.record_count().is_err());
}

#[test]
fn broken_batches_are_refused() {
    let mut negative = batch(&[(1, row(5))]);
    negative[..4].copy_from_slice(&(-1i32).to_le_bytes());
    let e = DefaultValueRecordBatch::new(Bytes::from(negative), 0)
        .size_in_bytes()
        .unwrap_err();
    assert_eq!(e.message, "Invalid batch length: -1");
    assert_eq!(e.kind, IoErrorKind::InvalidData);

    // Two records are counted and one is there.
    let mut counted = batch(&[(1, row(5))]);
    counted[5] = 2;
    assert_eq!(
        io_error(read(counted, 0)),
        (
            "Not enough bytes to read value record length".to_string(),
            IoErrorKind::UnexpectedEof,
            "value record length".to_string()
        )
    );

    let mut tiny = batch(&[(1, row(5))]);
    tiny[9] = 1;
    assert_eq!(
        io_error(read(tiny, 0)),
        (
            "Invalid value record length: 1".to_string(),
            IoErrorKind::InvalidData,
            "value record length".to_string()
        )
    );

    let mut long = batch(&[(1, row(5))]);
    long[9] = 100;
    assert_eq!(
        io_error(read(long, 0)),
        (
            "Not enough bytes to read value record".to_string(),
            IoErrorKind::UnexpectedEof,
            "value record".to_string()
        )
    );
}

#[test]
fn batches_without_records_are_empty() {
    assert_eq!(read(batch(&[]), 0).unwrap().len(), 0);
    let mut negative = batch(&[]);
    negative[5..9].copy_from_slice(&(-4i32).to_le_bytes());
    assert_eq!(read(negative, 0).unwrap().len(), 0);
}

#[test]
fn cut_batches_are_not_complete() {
    let bytes = batch(&[(1, row(5)), (1, row(6))]);
    let cut = DefaultValueRecordBatch::new(Bytes::from(bytes[..bytes.len() - 1].to_vec()), 0);
    assert!(!cut.is_complete());
    assert!(cut
        .read_records(&mut context(KvFormat::COMPACTED))
        .unwrap()
        .is_none());
}

#[test]
fn records_need_a_decoder() {
    let bytes = batch(&[(1, row(5))]);
    let e = DefaultValueRecordBatch::new(Bytes::from(bytes), 0)
        .records(&mut context(KvFormat::INDEXED))
        .unwrap_err();
    assert_eq!(
        e.message(),
        "RowDecoder for INDEXED format is not yet implemented"
    );
    let getter = StaticSchemaGetter::new(Arc::new(schema()));
    assert_eq!(getter.get_schema(77).unwrap().columns().len(), 1);
}
