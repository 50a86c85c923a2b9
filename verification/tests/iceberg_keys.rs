use bigdecimal::num_bigint::BigInt;
use bigdecimal::BigDecimal;

use fluss::metadata::{DataType, DataTypes, RowType, TableConfig, TimestampType};
use fluss::property_map::PropertyMap;
use fluss::row::encode::KeyEncoderFactory;
use fluss::row::{
    Datum, Decimal, GenericRow, IcebergKeyDecoder, IcebergKeyEncoder, InternalRow, KeyDecoder,
    KeyEncoder, Time, TimestampNtz,
};

#[test]
fn iceberg_key_decoder_single_key_field_requirement() {
    let row_type = RowType::with_data_types_and_field_names(
        vec![DataTypes::integer(), DataTypes::string()],
        vec!["id", "name"],
    );

    assert!(IcebergKeyDecoder::new(&row_type, &["id".to_string()]).is_ok());

    let err = IcebergKeyDecoder::new(&row_type, &["id".to_string(), "name".to_string()])
        .err()
        .expect("expected error for multiple keys");
    assert!(err.message().contains("exactly one field"), "{err:?}");
}

#[test]
fn round_trip_int() {
    let row_type = RowType::with_data_types(vec![DataTypes::integer()]);
    let keys = vec!["f0".to_string()];
    let mut enc = IcebergKeyEncoder::create_key_encoder(&row_type, &keys).unwrap();
    let dec = IcebergKeyDecoder::new(&row_type, &keys).unwrap();

    for v in [0i32, -42, 42, i32::MAX, i32::MIN] {
        let row = GenericRow::from_data(vec![Datum::from(v)]);
        let bytes = enc.encode_key(&row).unwrap();
        let out = dec.decode_key(bytes.as_ref()).unwrap();
        assert_eq!(out.get_int(0).unwrap(), v);
    }
}

#[test]
fn round_trip_long() {
    let row_type = RowType::with_data_types(vec![DataTypes::bigint()]);
    let keys = vec!["f0".to_string()];
    let mut enc = IcebergKeyEncoder::create_key_encoder(&row_type, &keys).unwrap();
    let dec = IcebergKeyDecoder::new(&row_type, &keys).unwrap();

    for v in [0i64, -999i64, 1234567890123456789i64, i64::MAX] {
        let row = GenericRow::from_data(vec![Datum::from(v)]);
        let bytes = enc.encode_key(&row).unwrap();
        let out = dec.decode_key(bytes.as_ref()).unwrap();
        assert_eq!(out.get_long(0).unwrap(), v);
    }
}

#[test]
fn round_trip_string() {
    let row_type = RowType::with_data_types(vec![DataTypes::string()]);
    let keys = vec!["f0".to_string()];
    let mut enc = IcebergKeyEncoder::create_key_encoder(&row_type, &keys).unwrap();
    let dec = IcebergKeyDecoder::new(&row_type, &keys).unwrap();

    for s in ["", "a", "Hello", "Hello Iceberg!", "UTF-8: 你好世界"] {
        let row = GenericRow::from_data(vec![Datum::from(s)]);
        let bytes = enc.encode_key(&row).unwrap();
        let out = dec.decode_key(bytes.as_ref()).unwrap();
        assert_eq!(out.get_string(0).unwrap(), s);
    }
}

#[test]
fn round_trip_timestamp() {
    let row_type = RowType::with_data_types(vec![DataType::Timestamp(
        TimestampType::with_nullable(false, 6).unwrap(),
    )]);
    let keys = vec!["f0".to_string()];
    let mut enc = IcebergKeyEncoder::create_key_encoder(&row_type, &keys).unwrap();
    let dec = IcebergKeyDecoder::new(&row_type, &keys).unwrap();

    let millis_values = [0i64, 1000i64, 1698235273182i64];
    let nanos_values = [0i32, 0i32, 123000i32];

    for i in 0..millis_values.len() {
        let ts = TimestampNtz::from_millis_nanos(millis_values[i], nanos_values[i]).unwrap();
        let row = GenericRow::from_data(vec![Datum::TimestampNtz(ts)]);
        let bytes = enc.encode_key(&row).unwrap();
        let out = dec.decode_key(bytes.as_ref()).unwrap();
        let got = out.get_timestamp_ntz(0, 6).unwrap();
        assert_eq!(got.get_millisecond(), millis_values[i]);
        assert_eq!(got.get_nano_of_millisecond(), nanos_values[i]);
    }
}

#[test]
fn round_trip_decimal_high_precision() {
    let row_type = RowType::with_data_types(vec![DataTypes::decimal(38, 10)]);
    let keys = vec!["f0".to_string()];
    let mut enc = IcebergKeyEncoder::create_key_encoder(&row_type, &keys).unwrap();
    let dec = IcebergKeyDecoder::new(&row_type, &keys).unwrap();

    let bd: BigDecimal = "1234567890123456789012345678.1234567890".parse().unwrap();
    let (digits, exponent) = bd.clone().into_bigint_and_exponent();
    assert_eq!(exponent, 10);
    let unscaled: i128 = digits.to_string().parse().unwrap();
    let d = Decimal::from_unscaled(unscaled, 38, 10).unwrap();
    let row = GenericRow::from_data(vec![Datum::Decimal(d)]);
    let bytes = enc.encode_key(&row).unwrap();
    let out = dec.decode_key(bytes.as_ref()).unwrap();
    let got = out.get_decimal(0, 38, 10).unwrap();
    assert_eq!(
        BigDecimal::new(BigInt::from(got.unscaled()), got.scale() as i64),
        bd
    );
}

#[test]
fn iceberg_key_encoder_single_key_field_requirement() {
    let row_type = RowType::with_data_types_and_field_names(
        vec![DataTypes::integer(), DataTypes::string()],
        vec!["id", "name"],
    );

    assert!(IcebergKeyEncoder::create_key_encoder(&row_type, &["id".to_string()]).is_ok());

    let err = IcebergKeyEncoder::create_key_encoder(
        &row_type,
        &["id".to_string(), "name".to_string()],
    )
    .err()
    .expect("expected error for multiple keys");
    assert!(
        err.message().contains("exactly one field"),
        "unexpected: {err:?}"
    );
}

#[test]
fn test_integer_encoding() {
    let row_type = RowType::with_data_types(vec![DataTypes::integer()]);
    let mut encoder =
        IcebergKeyEncoder::create_key_encoder(&row_type, &["f0".to_string()]).unwrap();
    let row = GenericRow::from_data(vec![Datum::from(42i32)]);
    let encoded = encoder.encode_key(&row).unwrap();
    assert_eq!(encoded.as_ref(), (42i64).to_le_bytes());
}

#[test]
fn test_long_encoding() {
    let row_type = RowType::with_data_types(vec![DataTypes::bigint()]);
    let mut encoder =
        IcebergKeyEncoder::create_key_encoder(&row_type, &["f0".to_string()]).unwrap();
    let v: i64 = 1234567890123456789;
    let row = GenericRow::from_data(vec![Datum::from(v)]);
    let encoded = encoder.encode_key(&row).unwrap();
    assert_eq!(encoded.as_ref(), v.to_le_bytes());
}

#[test]
fn test_string_encoding() {
    let row_type = RowType::with_data_types(vec![DataTypes::string()]);
    let mut encoder =
        IcebergKeyEncoder::create_key_encoder(&row_type, &["f0".to_string()]).unwrap();
    let s = "Hello Iceberg, Fluss this side!";
    let row = GenericRow::from_data(vec![Datum::from(s)]);
    let encoded = encoder.encode_key(&row).unwrap();
    assert_eq!(encoded.as_ref(), s.as_bytes());
}

#[test]
fn test_decimal_encoding() {
    let row_type = RowType::with_data_types(vec![DataTypes::decimal(10, 2)]);
    let mut encoder =
        IcebergKeyEncoder::create_key_encoder(&row_type, &["f0".to_string()]).unwrap();
    let dec = Decimal::from_unscaled(12345, 10, 2).unwrap();
    let row = GenericRow::from_data(vec![Datum::Decimal(dec)]);
    let encoded = encoder.encode_key(&row).unwrap();
    let expected = BigDecimal::new(BigInt::from(12345), 2)
        .into_bigint_and_exponent()
        .0
        .to_signed_bytes_be();
    assert_eq!(encoded.as_ref(), expected.as_slice());
}

#[test]
fn test_timestamp_encoding() {
    let row_type = RowType::with_data_types(vec![DataType::Timestamp(
        TimestampType::with_nullable(false, 6).unwrap(),
    )]);
    let mut encoder =
        IcebergKeyEncoder::create_key_encoder(&row_type, &["f0".to_string()]).unwrap();
    let millis = 1698235273182i64;
    let nanos = 123000;
    let micros = millis * 1000 + (nanos as i64 / 1000);
    let ts = TimestampNtz::from_millis_nanos(millis, nanos).unwrap();
    let row = GenericRow::from_data(vec![Datum::TimestampNtz(ts)]);
    let encoded = encoder.encode_key(&row).unwrap();
    assert_eq!(encoded.as_ref(), micros.to_le_bytes());
}

#[test]
fn test_date_encoding() {
    let row_type = RowType::with_data_types(vec![DataTypes::date()]);
    let mut encoder =
        IcebergKeyEncoder::create_key_encoder(&row_type, &["f0".to_string()]).unwrap();
    let date_value = 19655i32;
    let row = GenericRow::from_data(vec![Datum::from(date_value)]);
    let encoded = encoder.encode_key(&row).unwrap();
    assert_eq!(encoded.as_ref(), (date_value as i64).to_le_bytes());
}

#[test]
fn test_time_encoding() {
    let row_type = RowType::with_data_types(vec![DataTypes::time()]);
    let mut encoder =
        IcebergKeyEncoder::create_key_encoder(&row_type, &["f0".to_string()]).unwrap();
    let time_millis = 34200000i32;
    let row = GenericRow::from_data(vec![Datum::Time(Time::new(time_millis))]);
    let encoded = encoder.encode_key(&row).unwrap();
    let micros = (time_millis as i64) * 1000;
    assert_eq!(encoded.as_ref(), micros.to_le_bytes());
}

#[test]
fn test_binary_encoding() {
    let row_type = RowType::with_data_types(vec![DataTypes::bytes()]);
    let mut encoder =
        IcebergKeyEncoder::create_key_encoder(&row_type, &["f0".to_string()]).unwrap();
    let data: &[u8] = b"Hello i only understand binary data";
    let row = GenericRow::from_data(vec![Datum::from(data)]);
    let encoded = encoder.encode_key(&row).unwrap();
    assert_eq!(encoded.as_ref(), data);
}

fn table_config(pairs: &[(&str, &str)]) -> TableConfig {
    let mut properties = PropertyMap::new();
    for (k, v) in pairs {
        properties.insert(*k, *v);
    }
    TableConfig::from_properties(properties)
}

#[test]
fn primary_key_kv2_default_bucket_iceberg_uses_iceberg_encoding() {
    let cfg = table_config(&[
        ("table.kv.format-version", "2"),
        ("table.datalake.format", "iceberg"),
    ]);
    let row_type = RowType::with_data_types(vec![DataTypes::integer()]);
    let mut enc =
        KeyEncoderFactory::of_primary_key(&row_type, &["f0".to_string()], &cfg, true).unwrap();
    let row = GenericRow::from_data(vec![Datum::from(7i32)]);
    let bytes = enc.encode_key(&row).unwrap();
    assert_eq!(bytes.as_ref(), (7i64).to_le_bytes());
}

#[test]
fn primary_key_kv2_custom_bucket_uses_compacted_even_with_iceberg() {
    let cfg = table_config(&[
        ("table.kv.format-version", "2"),
        ("table.datalake.format", "iceberg"),
    ]);
    let row_type = RowType::with_data_types(vec![DataTypes::integer(), DataTypes::string()]);
    let mut enc = KeyEncoderFactory::of_primary_key(
        &row_type,
        &["f0".to_string(), "f1".to_string()],
        &cfg,
        false,
    )
    .unwrap();
    let row = GenericRow::from_data(vec![Datum::from(1i32), Datum::from("x")]);
    let bytes = enc.encode_key(&row).unwrap();
    assert_ne!(bytes.as_ref(), (1i64).to_le_bytes());
}

#[test]
fn primary_key_invalid_kv_format_version_defaults_to_v1() {
    let cfg = table_config(&[
        ("table.kv.format-version", "99"),
        ("table.datalake.format", "iceberg"),
    ]);
    let row_type = RowType::with_data_types(vec![DataTypes::integer()]);
    let mut enc =
        KeyEncoderFactory::of_primary_key(&row_type, &["f0".to_string()], &cfg, false).unwrap();
    let row = GenericRow::from_data(vec![Datum::from(7i32)]);
    assert_eq!(enc.encode_key(&row).unwrap().as_ref(), (7i64).to_le_bytes());
}
