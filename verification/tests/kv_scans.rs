use std::sync::Arc;

use fluss::client::KvScanBatch;
use fluss::metadata::{DataField, DataTypes, KvFormat, RowType};
use fluss::row::encode::{RowEncoder, RowEncoderFactory};
use fluss::row::{Datum, InternalRow};

fn build_row_type() -> Arc<RowType> {
    Arc::new(RowType::new(vec![
        DataField::new("id", DataTypes::integer(), None),
        DataField::new("name", DataTypes::string(), None),
    ]))
}

fn encode_compacted_row(row_type: &RowType, id: i32, name: &str) -> Vec<u8> {
    let mut encoder =
        RowEncoderFactory::create(KvFormat::COMPACTED, row_type.clone()).expect("create encoder");
    encoder.start_new_row().expect("start row");
    encoder
        .encode_field(0, Datum::Int32(id))
        .expect("encode id field");
    encoder
        .encode_field(1, Datum::String(name.into()))
        .expect("encode name field");
    encoder.finish_row().expect("finish row").to_vec()
}

#[test]
fn kv_scan_batch_rows_are_decodable() {
    let row_type = build_row_type();
    let rows = vec![encode_compacted_row(&row_type, 1, "alice")];
    let batch = KvScanBatch::new(rows, Arc::clone(&row_type), false);

    assert_eq!(batch.len(), 1);
    assert!(!batch.is_empty());
    assert!(!batch.has_more_results());

    let decoded = batch.get_rows();
    assert_eq!(decoded.len(), 1);
    assert_eq!(decoded[0].get_int(0).unwrap(), 1);
    assert_eq!(decoded[0].get_string(1).unwrap(), "alice");
}
