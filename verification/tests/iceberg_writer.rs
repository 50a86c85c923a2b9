use bigdecimal::num_bigint::BigInt;

use fluss::metadata::{DataType, DataTypes, SmallIntType, TinyIntType};
use fluss::row::binary::binary_writer::BinaryWriter;
use fluss::row::binary::iceberg_binary_row_writer::IcebergBinaryRowWriter;
use fluss::row::{Decimal, TimestampLtz, TimestampNtz};

const MICROS_PER_MILLI: i64 = 1_000;

fn assert_unsupported_type(dt: DataType, expected_fragment: &str) {
    match IcebergBinaryRowWriter::create_value_writer(&dt) {
        Err(e) => assert!(
            e.message().contains(expected_fragment),
            "unexpected error for {dt:?}: {e:?}"
        ),
        Ok(_) => panic!("expected error for unsupported type {dt:?}, got Ok"),
    }
}

#[test]
fn test_write_int_as_i64_le() {
    let mut w = IcebergBinaryRowWriter::new();
    w.write_int(42);
    assert_eq!(w.buffer(), &42i64.to_le_bytes());
}

#[test]
fn test_write_int_negative() {
    let mut w = IcebergBinaryRowWriter::new();
    w.write_int(-1);
    assert_eq!(w.buffer(), &(-1i64).to_le_bytes());
}

#[test]
fn test_write_long() {
    let mut w = IcebergBinaryRowWriter::new();
    w.write_long(123456789012345i64);
    assert_eq!(w.buffer(), &123456789012345i64.to_le_bytes());
}

#[test]
fn test_write_float() {
    let mut w = IcebergBinaryRowWriter::new();
    let val = 1.23f32;
    w.write_float(val.to_bits());
    assert_eq!(w.buffer(), &val.to_le_bytes());
}

#[test]
fn test_write_double() {
    let mut w = IcebergBinaryRowWriter::new();
    let val = 9.876543210f64;
    w.write_double(val.to_bits());
    assert_eq!(w.buffer(), &val.to_le_bytes());
}

#[test]
fn test_write_string_no_length_prefix() {
    let mut w = IcebergBinaryRowWriter::new();
    w.write_string("hello");
    assert_eq!(w.buffer(), b"hello");
}

#[test]
fn test_write_bytes_no_length_prefix() {
    let mut w = IcebergBinaryRowWriter::new();
    let data = &[0xDE, 0xAD, 0xBE, 0xEF];
    w.write_bytes(data);
    assert_eq!(w.buffer(), data);
}

#[test]
fn test_write_binary_no_length_prefix() {
    let mut w = IcebergBinaryRowWriter::new();
    let data = &[1, 2, 3, 4, 5];
    w.write_binary(data, 3);
    assert_eq!(w.buffer(), &[1, 2, 3]);
}

#[test]
fn test_write_time_millis_to_micros() {
    let mut w = IcebergBinaryRowWriter::new();
    // 1000 ms = 1_000_000 us
    w.write_time(1000, 0);
    assert_eq!(w.buffer(), &1_000_000i64.to_le_bytes());
}

#[test]
fn test_write_timestamp_ntz_compact() {
    let mut w = IcebergBinaryRowWriter::new();
    let ts = TimestampNtz::new(1672531200000); // 2023-01-01 00:00:00 UTC
    w.write_timestamp_ntz(&ts, 3);
    let expected_micros = 1672531200000i64 * 1000;
    assert_eq!(w.buffer(), &expected_micros.to_le_bytes());
}

#[test]
fn test_write_timestamp_ntz_with_nanos() {
    let mut w = IcebergBinaryRowWriter::new();
    let ts = TimestampNtz::from_millis_nanos(1000, 500_000).unwrap();
    w.write_timestamp_ntz(&ts, 6);
    // 1000ms * 1000 + 500_000ns / 1000 = 1_000_000 + 500 = 1_000_500 us
    assert_eq!(w.buffer(), &1_000_500i64.to_le_bytes());
}

#[test]
fn test_write_timestamp_ltz() {
    let mut w = IcebergBinaryRowWriter::new();
    let ts = TimestampLtz::from_millis_nanos(2000, 300_000).unwrap();
    w.write_timestamp_ltz(&ts, 6);
    // 2000ms * 1000 + 300_000ns / 1000 = 2_000_000 + 300 = 2_000_300 us
    assert_eq!(w.buffer(), &2_000_300i64.to_le_bytes());
}

#[test]
fn test_write_timestamp_ntz_overflow_wraps_like_java() {
    let mut w = IcebergBinaryRowWriter::new();
    let ts = TimestampNtz::from_millis_nanos(i64::MAX, 999_999).unwrap();
    w.write_timestamp_ntz(&ts, 9);

    let expected = i64::MAX.wrapping_mul(MICROS_PER_MILLI).wrapping_add(999);
    assert_eq!(w.buffer(), &expected.to_le_bytes());
}

#[test]
fn test_write_timestamp_ltz_overflow_wraps_like_java() {
    let mut w = IcebergBinaryRowWriter::new();
    let ts = TimestampLtz::from_millis_nanos(i64::MIN, 999_999).unwrap();
    w.write_timestamp_ltz(&ts, 9);

    let expected = i64::MIN.wrapping_mul(MICROS_PER_MILLI).wrapping_add(999);
    assert_eq!(w.buffer(), &expected.to_le_bytes());
}

#[test]
fn test_write_decimal_compact() {
    let mut w = IcebergBinaryRowWriter::new();
    let decimal = Decimal::from_unscaled(12345, 10, 2).unwrap(); // 123.45
    w.write_decimal(&decimal, 10);

    let expected = BigInt::from(12345).to_signed_bytes_be();
    assert_eq!(w.buffer(), expected.as_slice());
}

#[test]
fn test_write_decimal_non_compact() {
    let mut w = IcebergBinaryRowWriter::new();
    let decimal = Decimal::from_unscaled(12345, 28, 0).unwrap();
    w.write_decimal(&decimal, 28);

    let expected = BigInt::from(12345).to_signed_bytes_be();
    assert_eq!(w.buffer(), expected.as_slice());
}

#[test]
fn test_write_boolean() {
    let mut w = IcebergBinaryRowWriter::new();
    w.write_boolean(true);
    assert_eq!(w.buffer(), &[1u8]);

    w.reset();
    w.write_boolean(false);
    assert_eq!(w.buffer(), &[0u8]);
}

#[test]
fn test_reset_clears_position() {
    let mut w = IcebergBinaryRowWriter::new();
    w.write_int(42);
    assert_eq!(w.position(), 8);
    w.reset();
    assert_eq!(w.position(), 0);
    assert_eq!(w.buffer().len(), 0);
}

#[test]
fn test_to_bytes() {
    let mut w = IcebergBinaryRowWriter::new();
    w.write_string("test");
    let bytes = w.to_bytes();
    assert_eq!(bytes.as_ref(), b"test");
}

#[test]
fn test_multiple_writes() {
    let mut w = IcebergBinaryRowWriter::new();
    w.write_int(1);
    w.write_string("ab");
    let buf = w.buffer().to_vec();
    // 8 bytes for int-as-i64 + 2 bytes for "ab"
    assert_eq!(buf.len(), 10);
    assert_eq!(&buf[..8], &1i64.to_le_bytes());
    assert_eq!(&buf[8..], b"ab");
}

#[test]
fn test_buffer_growth() {
    let mut w = IcebergBinaryRowWriter::new();
    // Write more than 64 bytes to trigger buffer growth
    let large = vec![0xAAu8; 128];
    w.write_bytes(&large);
    assert_eq!(w.buffer(), large.as_slice());
}

#[test]
fn test_create_value_writer_rejects_tinyint() {
    let dt = DataType::TinyInt(TinyIntType::new());
    match IcebergBinaryRowWriter::create_value_writer(&dt) {
        Err(e) => assert!(
            e.message()
                .contains("Unsupported type for Iceberg binary row writer"),
            "unexpected error: {e:?}",
        ),
        Ok(_) => panic!("expected error for TinyInt, got Ok"),
    }
}

#[test]
fn test_create_value_writer_rejects_smallint() {
    let dt = DataType::SmallInt(SmallIntType::new());
    match IcebergBinaryRowWriter::create_value_writer(&dt) {
        Err(e) => assert!(
            e.message()
                .contains("Unsupported type for Iceberg binary row writer"),
            "unexpected error: {e:?}",
        ),
        Ok(_) => panic!("expected error for SmallInt, got Ok"),
    }
}

#[test]
fn test_create_value_writer_rejects_boolean() {
    assert_unsupported_type(
        DataTypes::boolean(),
        "Unsupported type for Iceberg binary row writer",
    );
}

#[test]
fn test_create_value_writer_rejects_timestamp_ltz() {
    assert_unsupported_type(
        DataTypes::timestamp_ltz(),
        "Unsupported type for Iceberg binary row writer",
    );
}

#[test]
fn test_create_value_writer_rejects_array() {
    assert_unsupported_type(
        DataTypes::array(DataTypes::integer()),
        "Array types cannot be used as bucket keys",
    );
}

#[test]
fn test_create_value_writer_rejects_map() {
    assert_unsupported_type(
        DataTypes::map(DataTypes::string(), DataTypes::integer()),
        "Map types cannot be used as bucket keys",
    );
}

#[test]
fn test_create_value_writer_rejects_row() {
    assert_unsupported_type(
        DataTypes::row(vec![DataTypes::field("f0", DataTypes::integer())]),
        "Unsupported type for Iceberg binary row writer",
    );
}

#[test]
fn test_create_value_writer_accepts_java_supported_scalar_types() {
    let supported_types = vec![
        ("int", DataTypes::integer()),
        ("date", DataTypes::date()),
        ("time", DataTypes::time()),
        ("bigint", DataTypes::bigint()),
        ("float", DataTypes::float()),
        ("double", DataTypes::double()),
        ("timestamp_ntz", DataTypes::timestamp()),
        ("decimal", DataTypes::decimal(10, 2)),
        ("string", DataTypes::string()),
        ("char", DataTypes::character(16)),
        ("binary", DataTypes::binary(8)),
        ("bytes", DataTypes::bytes()),
    ];

    for (name, data_type) in supported_types {
        let res = IcebergBinaryRowWriter::create_value_writer(&data_type);
        if let Err(e) = res {
            panic!("expected {name} to be supported, got error: {e:?}");
        }
    }
}

#[test]
fn test_write_char_same_as_string() {
    let mut w1 = IcebergBinaryRowWriter::new();
    w1.write_char("hello", 10);

    let mut w2 = IcebergBinaryRowWriter::new();
    w2.write_string("hello");

    assert_eq!(w1.buffer(), w2.buffer());
}

#[test]
fn test_write_date_as_int() {
    // Dates are written as integers, which Iceberg widens to 64 bits.
    let mut w = IcebergBinaryRowWriter::new();
    let days_since_epoch = 19000i32; // ~2022-01-06
    w.write_int(days_since_epoch);
    assert_eq!(w.buffer(), &(days_since_epoch as i64).to_le_bytes());
}
