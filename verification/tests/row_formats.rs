use std::borrow::Cow;

use bytes::Bytes;

use fluss::metadata::{Column, DataField, DataType, DataTypes, KvFormat, RowType, Schema};
use fluss::row::binary::binary_writer::BinaryWriter;
use fluss::row::compacted::compacted_row_writer::CompactedRowWriter;
use fluss::row::encode::{RowEncoder, RowEncoderFactory};
use fluss::row::field_kind::ValueWriter;
use fluss::row::{
    BinaryDataWrapper, BinaryRow, CompactedRow, Date, Datum, Decimal, FixedSchemaDecoder,
    FlussArray, GenericRow, InternalRow, RowDecoderFactory, Time, TimestampLtz, TimestampNtz,
};

fn all_types() -> RowType {
    RowType::with_data_types(vec![
        DataTypes::boolean(),
        DataTypes::tinyint(),
        DataTypes::smallint(),
        DataTypes::integer(),
        DataTypes::bigint(),
        DataTypes::float(),
        DataTypes::double(),
        DataTypes::string(),
        DataTypes::decimal(10, 2),
        DataTypes::date(),
        DataTypes::time(),
        DataTypes::timestamp(),
        DataTypes::timestamp_ltz(),
        DataTypes::bytes(),
        DataTypes::array(DataTypes::integer()),
        DataTypes::character(4),
        DataTypes::binary(4),
        DataTypes::decimal(30, 3),
        DataTypes::integer(),
    ])
}

fn all_values() -> Vec<Datum<'static>> {
    vec![
        Datum::Bool(true),
        Datum::Int8(-3),
        Datum::Int16(-300),
        Datum::Int32(-70_000),
        Datum::Int64(i64::MIN),
        Datum::Float32(1.5f32.to_bits()),
        Datum::Float64(f64::MAX.to_bits()),
        Datum::String(Cow::Borrowed("h\u{e9}llo")),
        Datum::Decimal(Decimal::from_unscaled(-12345, 10, 2).unwrap()),
        Datum::Date(Date::new(19_000)),
        Datum::Time(Time::new(86_399_999)),
        Datum::TimestampNtz(TimestampNtz::from_millis_nanos(-5, 999_999).unwrap()),
        Datum::TimestampLtz(TimestampLtz::from_millis_nanos(7, 1).unwrap()),
        Datum::Blob(Cow::Borrowed(&[0, 255, 7])),
        Datum::Array(FlussArray {
            data: vec![1, 2, 3],
        }),
        Datum::String(Cow::Borrowed("ab")),
        Datum::Blob(Cow::Borrowed(&[1, 2])),
        Datum::Decimal(
            Decimal::from_unscaled(123_456_789_012_345_678_901_234_567_890, 30, 3).unwrap(),
        ),
        Datum::Null,
    ]
}

fn encode(row_type: &RowType, values: &[Datum<'static>]) -> Vec<u8> {
    let mut encoder = RowEncoderFactory::create(KvFormat::COMPACTED, row_type.clone()).unwrap();
    encoder.start_new_row().unwrap();
    for (i, value) in values.iter().enumerate() {
        encoder.encode_field(i, value.clone()).unwrap();
    }
    let bytes = encoder.finish_row().unwrap().to_vec();
    encoder.close().unwrap();
    bytes
}

#[test]
fn compacted_rows_come_back() {
    let row_type = all_types();
    let values = all_values();
    let bytes = encode(&row_type, &values);
    let row = CompactedRow::from_bytes(&row_type, &bytes);
    assert_eq!(row.as_bytes(), bytes.as_slice());
    assert_eq!(row.into_values().unwrap(), GenericRow { values });
}

#[test]
fn compacted_rows_start_with_their_nulls() {
    let row_type = RowType::with_data_types(vec![DataTypes::integer(), DataTypes::integer()]);
    assert_eq!(
        encode(&row_type, &[Datum::Null, Datum::Int32(1)]),
        vec![0b01, 1]
    );
    let mut writer = CompactedRowWriter::new(2);
    writer.write_int(128);
    writer.set_null_at(1);
    assert_eq!(writer.buffer(), &[0b10, 0x80, 0x01]);
}

#[test]
fn broken_compacted_rows_are_refused() {
    let row_type = RowType::with_data_types(vec![DataTypes::integer(), DataTypes::string()]);
    let bytes = encode(&row_type, &[Datum::Int32(5), Datum::from("abc")]);
    let short = CompactedRow::from_bytes(&row_type, &bytes[..bytes.len() - 1]);
    assert_eq!(short.as_bytes(), &bytes[..bytes.len() - 1]);
    assert_eq!(short.get_field_count(), 2);
    assert_eq!(
        short.get_int(0).unwrap_err().message(),
        "Bytes are not a compacted row"
    );
    assert!(short.is_null_at(0).is_err());
    assert_eq!(
        short.get_int(2).unwrap_err().message(),
        "position 2 out of bounds (row has 2 fields)"
    );
    assert!(short.into_values().is_err());
    let mut not_text = bytes.clone();
    *not_text.last_mut().unwrap() = 0xff;
    assert!(CompactedRow::from_bytes(&row_type, &not_text)
        .into_values()
        .is_err());
    assert!(RowDecoderFactory::create(KvFormat::INDEXED, row_type.clone()).is_err());
    let decoder = RowDecoderFactory::create(KvFormat::COMPACTED, row_type).unwrap();
    assert_eq!(decoder.decode(&bytes).get_string(1).unwrap(), "abc");
}

#[test]
fn row_encoders_refuse_fields() {
    let row_type = RowType::with_data_types(vec![DataTypes::integer()]);
    let mut encoder = RowEncoderFactory::create(KvFormat::COMPACTED, row_type).unwrap();
    encoder.start_new_row().unwrap();
    assert_eq!(
        encoder
            .encode_field(3, Datum::Int32(1))
            .unwrap_err()
            .message(),
        "invalid position 3 when attempting to encode value Int32(1)"
    );
    assert_eq!(
        encoder
            .encode_field(0, Datum::Bool(true))
            .unwrap_err()
            .message(),
        "Int used to write value Bool(true)"
    );
    assert!(ValueWriter::create_value_writer(&DataTypes::row(vec![])).is_err());
}

#[test]
fn rows_are_projected_by_column_id() {
    let source = Schema::builder()
        .with_columns(vec![
            Column::new("a", DataTypes::integer()).with_id(0),
            Column::new("b", DataTypes::string()).with_id(4),
        ])
        .build()
        .unwrap();
    let target = Schema::builder()
        .with_columns(vec![
            Column::new("renamed", DataTypes::string()).with_id(4),
            Column::new("new", DataTypes::bigint()).with_id(5),
            Column::new("a", DataTypes::integer()).with_id(0),
        ])
        .build()
        .unwrap();
    let decoder = FixedSchemaDecoder::new(KvFormat::COMPACTED, &source, &target).unwrap();
    let mut bytes = vec![1, 0];
    bytes.extend(encode(
        source.row_type(),
        &[Datum::Int32(8), Datum::from("x")],
    ));
    let row = decoder.decode(&bytes).unwrap();
    assert_eq!(row.get_field_count(), 3);
    assert_eq!(row.get_string(0).unwrap(), "x");
    assert!(row.is_null_at(1).unwrap());
    assert_eq!(row.get_int(2).unwrap(), 8);
    assert_eq!(
        decoder.decode(&[1]).err().unwrap().message(),
        "Row payload too short: 1 bytes, need at least 2 for schema id"
    );
    assert!(FixedSchemaDecoder::new(KvFormat::INDEXED, &source, &target).is_err());
}

#[test]
fn generic_rows_are_read_by_kind() {
    let row = GenericRow { values: all_values() };
    assert_eq!(row.get_boolean(0).unwrap(), true);
    assert_eq!(row.get_byte(1).unwrap(), -3);
    assert_eq!(row.get_short(2).unwrap(), -300);
    assert_eq!(row.get_long(4).unwrap(), i64::MIN);
    assert_eq!(f32::from_bits(row.get_float(5).unwrap()), 1.5);
    assert_eq!(f64::from_bits(row.get_double(6).unwrap()), f64::MAX);
    assert_eq!(row.get_char(7, 2).unwrap(), "h\u{e9}llo");
    assert_eq!(row.get_decimal(8, 10, 2).unwrap().unscaled(), -12345);
    assert_eq!(row.get_date(9).unwrap(), Date::new(19_000));
    assert_eq!(row.get_date(3).unwrap(), Date::new(-70_000));
    assert_eq!(row.get_time(10).unwrap(), Time::new(86_399_999));
    assert_eq!(row.get_timestamp_ltz(12, 9).unwrap().get_epoch_millisecond(), 7);
    assert_eq!(row.get_binary(13, 2).unwrap(), &[0, 255, 7]);
    assert_eq!(row.get_bytes(13).unwrap(), &[0, 255, 7]);
    assert_eq!(row.get_array(14).unwrap().data, vec![1, 2, 3]);
    assert_eq!(
        row.get_row(0).unwrap_err().message(),
        "type mismatch at position 0: expected Row, got Bool(true)"
    );
    let nested = GenericRow {
        values: vec![Datum::Row(Box::new(GenericRow::from_data(vec![1i32])))],
    };
    assert_eq!(nested.get_row(0).unwrap().get_int(0).unwrap(), 1);
    assert_eq!(nested.clone().into_owned(), nested);
}

#[test]
fn row_types_are_projected() {
    let row_type = RowType::new(vec![
        DataField::new("a", DataTypes::integer(), None),
        DataField::new("b", DataTypes::string(), Some("text".to_string())),
    ]);
    let names = vec!["b".to_string()];
    let projected = row_type.project_with_field_names(&names).unwrap();
    assert_eq!(projected.fields().len(), 1);
    assert_eq!(projected.fields()[0].name(), "b");
    assert!(matches!(projected.fields()[0].data_type(), DataType::String(_)));
    assert_eq!(
        row_type
            .project_with_field_names(&["z".to_string()])
            .unwrap_err()
            .message(),
        "Field 'z' does not exist in the row type"
    );
}

#[test]
fn binary_rows_hand_out_their_bytes() {
    let shared = BinaryRow::new(BinaryDataWrapper::Bytes(Bytes::from(vec![1, 2])));
    assert_eq!(shared.as_bytes(), &[1, 2]);
    let held = [3u8, 4];
    let borrowed = BinaryRow::new(BinaryDataWrapper::Ref(&held));
    assert_eq!(borrowed.as_bytes(), &[3, 4]);
}

#[test]
fn decimals_keep_to_their_precision() {
    assert!(Decimal::from_unscaled(1000, 3, 0).is_err());
    assert!(Decimal::from_unscaled(999, 3, 4).is_err());
    let d = Decimal::from_unscaled(-128, 3, 1).unwrap();
    assert_eq!(d.to_unscaled_bytes(), vec![0x80]);
    assert_eq!(Decimal::from_unscaled_bytes(&[0x80], 3, 1).unwrap(), d);
    assert_eq!(
        Decimal::from_unscaled_bytes(&[0xff, 0xff, 0x80], 3, 1).unwrap(),
        d
    );
    assert!(Decimal::from_unscaled_bytes(&[0x7f; 20], 38, 0).is_err());
}

#[test]
fn values_are_printed() {
    let mut values = all_values();
    values.push(Datum::Bool(false));
    values.push(Datum::from("a \"quote\""));
    values.push(Datum::Blob(Cow::Borrowed(&[])));
    values.push(Datum::Row(Box::new(GenericRow { values: vec![] })));
    let nested = Datum::Row(Box::new(GenericRow {
        values: values.clone(),
    }));
    values.push(nested);
    for value in &values {
        assert_eq!(value.to_debug_string(), format!("{value:?}"));
    }
    assert_eq!(
        Datum::Decimal(Decimal::from_unscaled(-7, 5, 1).unwrap()).to_debug_string(),
        "Decimal(Decimal { unscaled: -7, precision: 5, scale: 1 })"
    );
    let row = GenericRow::from_data(vec![Datum::Date(Date::new(3))]);
    assert_eq!(
        row.get_string(0).unwrap_err().message(),
        "type mismatch at position 0: expected String, got Date(Date(3))"
    );
}
