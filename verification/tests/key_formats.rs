use fluss::error::Error;
use fluss::metadata::{
    ArrayType, BinaryType, DataLakeFormat, DataType, DataTypes, IntType, RowType, TimestampType,
};
use fluss::row::decode::iceberg_key_decoder::{read_i64_le, IcebergKeyFieldReader};
use fluss::row::encode::compacted_key_encoder::CompactedKeyEncoder;
use fluss::row::encode::KeyEncoderFactory;
use fluss::row::{
    Datum, Decimal, GenericRow, IcebergKeyDecoder, IcebergKeyEncoder, InternalRow, KeyDecoder,
    KeyDecoderFactory, KeyEncoder, TimestampNtz,
};

fn strings(names: &[&str]) -> Vec<String> {
    names.iter().map(|n| n.to_string()).collect()
}

fn iceberg(data_type: DataType, value: Datum) -> Result<Vec<u8>, Error> {
    let row_type = RowType::with_data_types(vec![data_type]);
    let mut encoder = IcebergKeyEncoder::create_key_encoder(&row_type, &strings(&["f0"])).unwrap();
    encoder
        .encode_key(&GenericRow::from_data(vec![value]))
        .map(|bytes| bytes.to_vec())
}

#[test]
fn iceberg_keys_of_every_kind() {
    assert_eq!(
        iceberg(DataTypes::float(), Datum::Float32(1.5f32.to_bits())).unwrap(),
        1.5f32.to_le_bytes()
    );
    assert_eq!(
        iceberg(DataTypes::double(), Datum::Float64((-2.5f64).to_bits())).unwrap(),
        (-2.5f64).to_le_bytes()
    );
    assert_eq!(
        iceberg(DataTypes::character(3), Datum::from("abcd")).unwrap(),
        b"abcd"
    );
    let binary = DataType::Binary(BinaryType::new(2));
    assert_eq!(
        iceberg(binary, Datum::from(vec![1u8, 2, 3])).unwrap(),
        vec![1, 2]
    );
    let negative = Decimal::from_unscaled(-129, 5, 0).unwrap();
    assert_eq!(
        iceberg(DataTypes::decimal(5, 0), Datum::Decimal(negative)).unwrap(),
        vec![0xff, 0x7f]
    );
}

#[test]
fn iceberg_keys_are_refused() {
    assert_eq!(
        iceberg(DataTypes::integer(), Datum::Null)
            .unwrap_err()
            .message(),
        "Cannot encode Iceberg key with null value"
    );
    assert_eq!(
        iceberg(DataTypes::integer(), Datum::from("x"))
            .unwrap_err()
            .message(),
        "type mismatch at position 0: expected Int, got String(\"x\")"
    );
    let row_type = RowType::with_data_types(vec![DataTypes::integer()]);
    let missing = IcebergKeyEncoder::create_key_encoder(&row_type, &strings(&["id"]));
    assert!(missing
        .err()
        .unwrap()
        .message()
        .starts_with("Field \"id\" not found in input row type "));
    let array = RowType::with_data_types(vec![DataType::Array(ArrayType {
        nullable: true,
        element_type: Box::new(DataTypes::integer()),
    })]);
    assert_eq!(
        IcebergKeyEncoder::create_key_encoder(&array, &strings(&["f0"]))
            .err()
            .unwrap()
            .message(),
        "Array types cannot be used as bucket keys. Bucket keys must be scalar types."
    );
}

#[test]
fn iceberg_keys_do_not_come_back_when_broken() {
    let int = IcebergKeyFieldReader::IntOrDate;
    assert_eq!(
        int.read(&[1, 2, 3]).unwrap_err().message(),
        "Iceberg key payload too short: need 8 bytes for fixed-width type, got 3"
    );
    assert_eq!(read_i64_le(&(-2i64).to_le_bytes()).unwrap(), -2);
    let text = IcebergKeyFieldReader::Utf8String;
    assert_eq!(
        text.read(&[0x61, 0xff]).unwrap_err().message(),
        "Iceberg key string is not valid UTF-8: invalid utf-8 sequence of 1 bytes from index 1"
    );
    let row_type = RowType::with_data_types(vec![DataTypes::double()]);
    assert_eq!(
        IcebergKeyDecoder::new(&row_type, &strings(&["f0"]))
            .err()
            .unwrap()
            .message(),
        "Unsupported type for Iceberg key decoder: Double(DoubleType { nullable: true })"
    );
}

#[test]
fn timestamps_before_1970_come_back() {
    let reader = IcebergKeyFieldReader::TimestampNtz;
    for (millis, nanos) in [(-1, 500_000), (-1, 0), (-1, 999_000), (-1001, 1_000), (0, 0)] {
        let at = TimestampNtz::from_millis_nanos(millis, nanos).unwrap();
        let bytes = iceberg(DataTypes::timestamp(), Datum::TimestampNtz(at)).unwrap();
        assert_eq!(reader.read(&bytes).unwrap(), Datum::TimestampNtz(at));
    }
    assert_eq!(
        reader.read(&(-500i64).to_le_bytes()).unwrap(),
        Datum::TimestampNtz(TimestampNtz::from_millis_nanos(-1, 500_000).unwrap())
    );
}

#[test]
fn an_encoder_forgets_earlier_rows() {
    let row_type = RowType::with_data_types_and_field_names(
        vec![DataTypes::string(), DataTypes::integer()],
        vec!["k", "v"],
    );
    let keys = strings(&["k"]);
    let mut used = IcebergKeyEncoder::create_key_encoder(&row_type, &keys).unwrap();
    let long = "x".repeat(200);
    used.encode_key(&GenericRow::from_data(vec![
        Datum::from(long.as_str()),
        Datum::Int32(1),
    ]))
    .unwrap();
    let null = used.encode_key(&GenericRow::from_data(vec![Datum::Null, Datum::Int32(1)]));
    assert!(matches!(null, Err(Error::IllegalArgument { .. })));
    let mut fresh = IcebergKeyEncoder::create_key_encoder(&row_type, &keys).unwrap();
    let a = GenericRow::from_data(vec![Datum::from("ab"), Datum::Int32(1)]);
    let b = GenericRow::from_data(vec![Datum::from("ab"), Datum::Null]);
    assert_eq!(
        used.encode_key(&a).unwrap(),
        fresh.encode_key(&b).unwrap()
    );
}

#[test]
fn a_row_key_comes_back_as_its_value() {
    let row_type = RowType::with_data_types_and_field_names(
        vec![
            DataTypes::string(),
            DataType::Timestamp(TimestampType::with_nullable(false, 6).unwrap()),
        ],
        vec!["name", "at"],
    );
    let keys = strings(&["at"]);
    let lake = Some(DataLakeFormat::Iceberg);
    let mut encoder = KeyEncoderFactory::of(&row_type, &keys, &lake).unwrap();
    let decoder = KeyDecoderFactory::of(&row_type, &keys, &lake).unwrap();
    let at = TimestampNtz::from_millis_nanos(5, 123_456).unwrap();
    let row = GenericRow::from_data(vec![Datum::from("x"), Datum::TimestampNtz(at)]);
    let bytes = encoder.encode_key(&row).unwrap();
    assert_eq!(bytes.as_ref(), 5_123i64.to_le_bytes());
    let back = decoder.decode_key(&bytes).unwrap();
    assert_eq!(back.get_field_count(), 1);
    assert_eq!(
        back.get_timestamp_ntz(0, 6).unwrap(),
        TimestampNtz::from_millis_nanos(5, 123_000).unwrap()
    );
}

#[test]
fn formats_without_keys_are_refused() {
    let row_type = RowType::with_data_types(vec![DataTypes::integer()]);
    let keys = strings(&["f0"]);
    assert_eq!(
        KeyEncoderFactory::of(&row_type, &keys, &Some(DataLakeFormat::Paimon))
            .err()
            .unwrap()
            .message(),
        "KeyEncoder for Paimon format is not yet implemented"
    );
    assert_eq!(
        KeyDecoderFactory::of(&row_type, &keys, &Some(DataLakeFormat::Paimon))
            .err()
            .unwrap()
            .message(),
        "KeyDecoder for Paimon format is not yet implemented"
    );
    assert!(KeyDecoderFactory::of(&row_type, &keys, &None).is_err());
    assert!(KeyEncoderFactory::of(&row_type, &keys, &Some(DataLakeFormat::Lance)).is_ok());
}

#[test]
fn compacted_keys_stand_one_after_the_other() {
    let row_type = RowType::with_data_types(vec![
        DataType::Int(IntType::with_nullable(false)),
        DataTypes::string(),
        DataTypes::boolean(),
    ]);
    let row = GenericRow::from_data(vec![Datum::from(300i32), Datum::from("ab"), Datum::Bool(true)]);
    let mut all =
        CompactedKeyEncoder::create_key_encoder(&row_type, &strings(&["f0", "f1", "f2"])).unwrap();
    // 300 in groups of seven bits, then the length of the text and the text.
    assert_eq!(
        all.encode_key(&row).unwrap().as_ref(),
        &[0xac, 0x02, 2, b'a', b'b', 1]
    );
    let mut first =
        CompactedKeyEncoder::create_key_encoder(&row_type, &strings(&["f0"])).unwrap();
    assert_eq!(first.encode_key(&row).unwrap().as_ref(), &[0xac, 0x02]);

    let null = GenericRow::from_data(vec![Datum::from(1i32), Datum::Null, Datum::Bool(true)]);
    assert_eq!(
        all.encode_key(&null).unwrap_err().message(),
        "Cannot encode key with null value at position: 1"
    );
    let map = RowType::with_data_types(vec![DataTypes::map(
        DataTypes::string(),
        DataTypes::integer(),
    )]);
    assert!(CompactedKeyEncoder::create_key_encoder(&map, &strings(&["f0"]))
        .err()
        .unwrap()
        .message()
        .starts_with("Unsupported type for value writer: "));
}
