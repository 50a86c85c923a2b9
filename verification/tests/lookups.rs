use std::sync::Arc;

use fluss::client::{DecoderCache, LookupResult};
use fluss::metadata::{Column, DataType, DataTypes, KvFormat, Schema};
use fluss::record::kv::SCHEMA_ID_LENGTH;
use fluss::row::binary::binary_writer::BinaryWriter;
use fluss::row::compacted::compacted_row_writer::CompactedRowWriter;
use fluss::row::{Datum, FixedSchemaDecoder, InternalRow};

fn make_row_bytes(schema_id: i16, row_data: &[u8]) -> Vec<u8> {
    let mut bytes = Vec::with_capacity(SCHEMA_ID_LENGTH + row_data.len());
    bytes.extend_from_slice(&schema_id.to_le_bytes());
    bytes.extend_from_slice(row_data);
    bytes
}

fn schema_with_ids(columns: &[(i32, &str, DataType)]) -> Schema {
    let cols: Vec<Column> = columns
        .iter()
        .map(|(id, name, dt)| Column::new(*name, dt.clone()).with_id(*id))
        .collect();
    Schema::builder().with_columns(cols).build().unwrap()
}

fn cache_with(
    target_id: i16,
    target_decoder: FixedSchemaDecoder,
    others: Vec<(i16, FixedSchemaDecoder)>,
) -> Arc<DecoderCache> {
    let mut cache = DecoderCache::new(target_id, Arc::new(target_decoder));
    for (id, decoder) in others {
        cache.insert(id, Arc::new(decoder));
    }
    Arc::new(cache)
}

fn lookup_result_from(
    rows: Vec<Vec<u8>>,
    target_schema: &Schema,
    decoders: Arc<DecoderCache>,
) -> LookupResult {
    LookupResult::new(rows, Arc::new(target_schema.row_type().clone()), decoders)
}

#[test]
fn test_to_record_batch_empty() {
    let target = schema_with_ids(&[(0, "id", DataTypes::integer())]);
    let decoder = FixedSchemaDecoder::new_no_projection(KvFormat::COMPACTED, &target).unwrap();
    let result = lookup_result_from(Vec::new(), &target, cache_with(0, decoder, vec![]));
    let batch = result.to_record_batch().unwrap();
    assert_eq!(batch.num_rows(), 0);
    assert_eq!(batch.num_columns(), 1);
}

#[test]
fn test_to_record_batch_with_row_at_target_schema() {
    let target = schema_with_ids(&[(0, "id", DataTypes::integer())]);

    let mut writer = CompactedRowWriter::new(1);
    writer.write_int(42);
    let row_bytes = make_row_bytes(0, writer.buffer());

    let decoder = FixedSchemaDecoder::new_no_projection(KvFormat::COMPACTED, &target).unwrap();
    let result = lookup_result_from(vec![row_bytes], &target, cache_with(0, decoder, vec![]));

    let batch = result.to_record_batch().unwrap();
    assert_eq!(batch.num_rows(), 1);
    let col = batch.column(0);
    assert!(matches!(col[0], Datum::Int32(42)));
}

#[test]
fn test_get_rows_decodes_per_row_schema_id_with_projection() {
    let source = schema_with_ids(&[(0, "a", DataTypes::integer())]);
    let target = schema_with_ids(&[
        (0, "a", DataTypes::integer()),
        (1, "b", DataTypes::string()),
    ]);

    let mut w = CompactedRowWriter::new(1);
    w.write_int(7);
    let old_row = make_row_bytes(3, w.buffer());

    let mut w = CompactedRowWriter::new(2);
    w.write_int(8);
    w.write_string("eight");
    let new_row = make_row_bytes(7, w.buffer());

    let target_decoder =
        FixedSchemaDecoder::new_no_projection(KvFormat::COMPACTED, &target).unwrap();
    let projection_decoder =
        FixedSchemaDecoder::new(KvFormat::COMPACTED, &source, &target).unwrap();
    let cache = cache_with(7, target_decoder, vec![(3, projection_decoder)]);
    let result = lookup_result_from(vec![old_row, new_row], &target, cache);

    let rows = result.get_rows().unwrap();
    assert_eq!(rows.len(), 2);
    assert_eq!(rows[0].get_int(0).unwrap(), 7);
    assert!(rows[0].is_null_at(1).unwrap());
    assert_eq!(rows[1].get_int(0).unwrap(), 8);
    assert_eq!(rows[1].get_string(1).unwrap(), "eight");
}

#[test]
fn test_to_record_batch_payload_too_short() {
    let target = schema_with_ids(&[(0, "id", DataTypes::integer())]);
    let decoder = FixedSchemaDecoder::new_no_projection(KvFormat::COMPACTED, &target).unwrap();
    let result = lookup_result_from(vec![vec![0u8]], &target, cache_with(0, decoder, vec![]));
    assert!(result.to_record_batch().is_err());
}

#[test]
fn test_get_rows_errors_when_no_decoder_for_schema_id() {
    let target = schema_with_ids(&[(0, "id", DataTypes::integer())]);
    let decoder = FixedSchemaDecoder::new_no_projection(KvFormat::COMPACTED, &target).unwrap();
    let mut w = CompactedRowWriter::new(1);
    w.write_int(1);
    let row = make_row_bytes(99, w.buffer());
    let result = lookup_result_from(vec![row], &target, cache_with(0, decoder, vec![]));

    let err = result
        .get_rows()
        .map(|_| ())
        .map_err(|e| e.message().to_string())
        .unwrap_err();
    assert!(err.contains("schema id 99"), "{err}");
}

#[test]
fn test_read_schema_id_rejects_negative() {
    let bytes = [0xFFu8, 0xFFu8, 0u8];
    let err = LookupResult::read_schema_id(&bytes).unwrap_err();
    assert!(
        err.message().contains("Invalid negative schema id"),
        "{err:?}"
    );
}

#[test]
fn test_decoder_cache_target_lookup_skips_lock() {
    let target = schema_with_ids(&[(0, "a", DataTypes::integer())]);
    let target_decoder =
        Arc::new(FixedSchemaDecoder::new_no_projection(KvFormat::COMPACTED, &target).unwrap());
    let cache = DecoderCache::new(7, Arc::clone(&target_decoder));

    let returned = cache.get(7).expect("target id must hit the cache");
    assert!(Arc::ptr_eq(&returned, &target_decoder));
    assert!(cache.get(99).is_none());
}
