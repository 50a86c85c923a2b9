//! Decoder for Iceberg-encoded primary key bytes (single key column).

use std::borrow::Cow;

use vstd::prelude::*;

use crate::error::{Error, ErrorView, Result};
use crate::little_endian::{self, read_i64_at};
use crate::metadata::datatype::{DataType, RowType, RowView, TypeView};
use crate::metadata::type_text;
use crate::row::binary::iceberg_binary_row_writer;
use crate::row::datum::{
    copy_slice, Datum, DatumView, Time, TimestampNtz, MAX_NANO_OF_MILLISECOND,
};
use crate::row::decimal::{self, Decimal, DecimalView};
use crate::row::decode::KeyDecoder;
use crate::row::encode::iceberg_key_encoder;
use crate::row::field_kind::{self, missing_field};
use crate::row::generic_row::GenericRow;
use crate::row::internal_row;
use crate::text::{self, u64_to_text};

verus! {

/// Decodes key bytes that an Iceberg key encoder made.
pub struct IcebergKeyDecoder {
    reader: IcebergKeyFieldReader,
}

/// How the bytes of a key are read.
#[derive(Debug, Clone, Copy, PartialEq, Eq, Structural)]
pub enum IcebergKeyFieldReader {
    IntOrDate,
    Time,
    BigInt,
    TimestampNtz,
    Decimal { precision: u32, scale: u32 },
    Utf8String,
    RawBytes,
}

/// How the bytes of a key of some type are read, where keys can have that type.
pub open spec fn reader_of(t: TypeView) -> Option<IcebergKeyFieldReader> {
    match t {
        TypeView::Int(_) | TypeView::Date(_) => Some(IcebergKeyFieldReader::IntOrDate),
        TypeView::Time(_) => Some(IcebergKeyFieldReader::Time),
        TypeView::BigInt(_) => Some(IcebergKeyFieldReader::BigInt),
        TypeView::Timestamp(_) => Some(IcebergKeyFieldReader::TimestampNtz),
        TypeView::Decimal(d) => Some(
            IcebergKeyFieldReader::Decimal { precision: d.precision, scale: d.scale },
        ),
        TypeView::String(_) | TypeView::Char(_) => Some(IcebergKeyFieldReader::Utf8String),
        TypeView::Binary(_) | TypeView::Bytes(_) => Some(IcebergKeyFieldReader::RawBytes),
        _ => None,
    }
}

/// The error for fewer bytes than a number takes.
pub open spec fn too_short(bytes: Seq<u8>) -> ErrorView {
    ErrorView::IllegalArgument(
        "Iceberg key payload too short: need 8 bytes for fixed-width type, got "@
            + text::nat_text(bytes.len()),
    )
}

/// The error for a type that cannot be decoded.
pub open spec fn undecodable(t: TypeView) -> ErrorView {
    ErrorView::IllegalArgument(
        "Unsupported type for Iceberg key decoder: "@ + type_text::type_text(t),
    )
}

/// The error for bytes that are not UTF-8.
pub open spec fn not_text(bytes: Seq<u8>) -> ErrorView {
    ErrorView::IllegalArgument(
        "Iceberg key string is not valid UTF-8: "@ + text::utf8_fault(bytes),
    )
}

/// Division that cuts off the rest, whatever the sign.
pub open spec fn cut_div(x: int, d: int) -> int {
    if x >= 0 {
        x / d
    } else {
        -((-x) / d)
    }
}

/// The value of key bytes, or why they have none.
pub open spec fn decoded(
    reader: IcebergKeyFieldReader,
    bytes: Seq<u8>,
) -> core::result::Result<DatumView, ErrorView> {
    let number = little_endian::le_signed(bytes.take(8));
    let fixed_width = !(reader is Decimal || reader is Utf8String || reader is RawBytes);
    if fixed_width && bytes.len() < 8 {
        Err(too_short(bytes))
    } else {
        match reader {
            IcebergKeyFieldReader::IntOrDate => Ok(DatumView::Int32(number as i32)),
            IcebergKeyFieldReader::Time => Ok(DatumView::Time(cut_div(number, 1000) as i32)),
            IcebergKeyFieldReader::BigInt => Ok(DatumView::Int64(number as i64)),
            IcebergKeyFieldReader::TimestampNtz => Ok(
                DatumView::TimestampNtz(
                    TimestampNtz {
                        millisecond: (number / 1000) as i64,
                        nano_of_millisecond: (1000 * (number % 1000)) as i32,
                    },
                ),
            ),
            IcebergKeyFieldReader::Decimal { precision, scale } => match decimal::decimal_of(
                decimal::signed_value(bytes),
                precision,
                scale,
            ) {
                Ok(d) => Ok(DatumView::Decimal(d)),
                Err(e) => Err(e),
            },
            IcebergKeyFieldReader::Utf8String => if vstd::utf8::valid_utf8(bytes) {
                Ok(DatumView::String(vstd::utf8::decode_utf8(bytes)))
            } else {
                Err(not_text(bytes))
            },
            IcebergKeyFieldReader::RawBytes => Ok(DatumView::Blob(bytes)),
        }
    }
}

/// Reads the first 8 bytes as an integer.
pub fn read_i64_le(key_bytes: &[u8]) -> (r: Result<i64>)
    ensures
        match r {
            Ok(v) => key_bytes@.len() >= 8 && v == little_endian::le_signed(key_bytes@.take(8)),
            Err(e) => key_bytes@.len() < 8 && e@ == too_short(key_bytes@),
        },
{
    if key_bytes.len() < 8 {
        let mut message =
            "Iceberg key payload too short: need 8 bytes for fixed-width type, got ".to_owned();
        message.append(u64_to_text(key_bytes.len() as u64).as_str());
        return Err(Error::illegal_argument(message));
    }
    assert(key_bytes@.subrange(0, 8) =~= key_bytes@.take(8));
    Ok(read_i64_at(key_bytes, 0))
}

/// How the bytes of a key of some type are read.
pub fn create_field_reader(field_type: &DataType) -> (r: Result<IcebergKeyFieldReader>)
    ensures
        match r {
            Ok(reader) => reader_of(field_type@) == Some(reader),
            Err(e) => reader_of(field_type@) is None && e@ == undecodable(field_type@),
        },
{
    match field_type {
        DataType::Int(_) | DataType::Date(_) => Ok(IcebergKeyFieldReader::IntOrDate),
        DataType::Time(_) => Ok(IcebergKeyFieldReader::Time),
        DataType::BigInt(_) => Ok(IcebergKeyFieldReader::BigInt),
        DataType::Timestamp(_) => Ok(IcebergKeyFieldReader::TimestampNtz),
        DataType::Decimal(d) => Ok(
            IcebergKeyFieldReader::Decimal { precision: d.precision(), scale: d.scale() },
        ),
        DataType::String(_) | DataType::Char(_) => Ok(IcebergKeyFieldReader::Utf8String),
        DataType::Binary(_) | DataType::Bytes(_) => Ok(IcebergKeyFieldReader::RawBytes),
        _ => {
            let shown = field_type.to_debug_string();
            let mut message = "Unsupported type for Iceberg key decoder: ".to_owned();
            message.append(shown.as_str());
            Err(Error::illegal_argument(message))
        },
    }
}

impl IcebergKeyFieldReader {
    pub fn read(&self, key_bytes: &[u8]) -> (r: Result<Datum<'static>>)
        ensures
            internal_row::result_view(r) == decoded(*self, key_bytes@),
    {
        match self {
            IcebergKeyFieldReader::IntOrDate => match read_i64_le(key_bytes) {
                Ok(v) => Ok(Datum::Int32(v as i32)),
                Err(e) => Err(e),
            },
            IcebergKeyFieldReader::Time => match read_i64_le(key_bytes) {
                Ok(micros) => {
                    let millis: i32 = (micros / 1000) as i32;
                    Ok(Datum::Time(Time::new(millis)))
                },
                Err(e) => Err(e),
            },
            IcebergKeyFieldReader::BigInt => match read_i64_le(key_bytes) {
                Ok(v) => Ok(Datum::Int64(v)),
                Err(e) => Err(e),
            },
            IcebergKeyFieldReader::TimestampNtz => match read_i64_le(key_bytes) {
                Ok(micros) => {
                    let whole: i64 = micros / 1000;
                    let rest: i64 = micros % 1000;
                    let (millis, nano_of_millis): (i64, i32) = if rest < 0 {
                        (whole - 1, ((rest + 1000) * 1000) as i32)
                    } else {
                        (whole, (rest * 1000) as i32)
                    };
                    match TimestampNtz::from_millis_nanos(millis, nano_of_millis) {
                        Ok(ts) => Ok(Datum::TimestampNtz(ts)),
                        Err(e) => Err(e),
                    }
                },
                Err(e) => Err(e),
            },
            IcebergKeyFieldReader::Decimal { precision, scale } => {
                match Decimal::from_unscaled_bytes(key_bytes, *precision, *scale) {
                    Ok(d) => Ok(Datum::Decimal(d)),
                    Err(e) => Err(e),
                }
            },
            IcebergKeyFieldReader::Utf8String => match text::utf8_text(key_bytes) {
                Ok(s) => Ok(Datum::String(Cow::Owned(s.to_owned()))),
                Err(reason) => {
                    let mut message = "Iceberg key string is not valid UTF-8: ".to_owned();
                    message.append(reason.as_str());
                    Err(Error::illegal_argument(message))
                },
            },
            IcebergKeyFieldReader::RawBytes => Ok(
                Datum::Blob(Cow::Owned(copy_slice(key_bytes))),
            ),
        }
    }
}

/// Whether an error says why columns cannot be the key of a row type.
pub open spec fn refuses_key(e: ErrorView, row: RowView, keys: Seq<Seq<char>>) -> bool {
    if keys.len() != 1 {
        e == iceberg_key_encoder::not_one_key(keys)
    } else {
        match iceberg_key_encoder::key_place(row, keys) {
            None => e == field_kind::field_not_found(keys[0], row),
            Some(i) => reader_of(row.fields[i].data_type) is None && e == undecodable(
                row.fields[i].data_type,
            ),
        }
    }
}

impl IcebergKeyDecoder {
    /// How the bytes of a key are read.
    pub closed spec fn reader(&self) -> IcebergKeyFieldReader {
        self.reader
    }

    pub fn new(row_type: &RowType, keys: &[String]) -> (r: Result<Self>)
        ensures
            match r {
                Ok(decoder) => {
                    let place = iceberg_key_encoder::key_place(row_type@, text::names(keys@));
                    &&& place is Some
                    &&& reader_of(row_type@.fields[place->0].data_type) == Some(decoder.reader())
                },
                Err(e) => refuses_key(e@, row_type@, text::names(keys@)),
            },
    {
        if keys.len() != 1 {
            let mut message =
                "Key fields must have exactly one field for iceberg format, but got: ".to_owned();
            message.append(text::print_list(keys).as_str());
            return Err(Error::illegal_argument(message));
        }
        let key_name = keys[0].as_str();
        let key_index: usize = match row_type.get_field_index(key_name) {
            Some(i) => i,
            None => {
                return Err(missing_field(key_name, row_type));
            },
        };
        let data_type = row_type.fields[key_index].data_type();
        match create_field_reader(data_type) {
            Ok(reader) => Ok(IcebergKeyDecoder { reader }),
            Err(e) => Err(e),
        }
    }

    fn decode_inner(&self, key_bytes: &[u8]) -> (r: Result<Datum<'static>>)
        ensures
            internal_row::result_view(r) == decoded(self.reader(), key_bytes@),
    {
        self.reader.read(key_bytes)
    }
}

/// The row of the key column alone that key bytes hold, or why they hold none.
pub open spec fn decoded_row(reader: IcebergKeyFieldReader, bytes: Seq<u8>) -> core::result::Result<
    Seq<DatumView>,
    ErrorView,
> {
    match decoded(reader, bytes) {
        Ok(value) => Ok(seq![value]),
        Err(e) => Err(e),
    }
}

impl KeyDecoder for IcebergKeyDecoder {
    open spec fn row_of(&self, key_bytes: Seq<u8>) -> core::result::Result<
        Seq<DatumView>,
        ErrorView,
    > {
        decoded_row(self.reader(), key_bytes)
    }

    fn decode_key(&self, key_bytes: &[u8]) -> (r: Result<GenericRow<'static>>) {
        match self.decode_inner(key_bytes) {
            Ok(value) => {
                let mut values: Vec<Datum<'static>> = Vec::new();
                values.push(value);
                let row = GenericRow { values };
                assert(row@ =~= seq![value@]);
                Ok(row)
            },
            Err(e) => Err(e),
        }
    }
}

/// A type that an encoder takes can be decoded too, but for floating-point
/// numbers; and a type that can be decoded is taken by an encoder.
pub proof fn same_key_types(t: TypeView)
    ensures
        reader_of(t) is Some <==> iceberg_binary_row_writer::iceberg_kind(t) is Some && !(
        t is Float || t is Double),
{
}

/// The value that a key comes back as: a day comes back as a plain number, and
/// of a timestamp the part below a microsecond is cut off.
pub open spec fn comes_back_as(value: DatumView) -> DatumView {
    match value {
        DatumView::Date(days) => DatumView::Int32(days),
        DatumView::TimestampNtz(t) => DatumView::TimestampNtz(
            TimestampNtz {
                millisecond: t.millisecond,
                nano_of_millisecond: (t.nano_of_millisecond - t.nano_of_millisecond
                    % 1000) as i32,
            },
        ),
        _ => value,
    }
}

/// Whether a key value keeps to its type: a timestamp fits into 64 bits as
/// microseconds, a decimal has the precision and scale of the type, and bytes are
/// not longer than the type.
pub open spec fn keeps_to_type(t: TypeView, value: DatumView) -> bool {
    match (t, value) {
        (TypeView::Timestamp(_), DatumView::TimestampNtz(ts)) => {
            let micros = iceberg_binary_row_writer::micros(
                ts.millisecond as int,
                ts.nano_of_millisecond as int,
            );
            &&& 0 <= ts.nano_of_millisecond <= MAX_NANO_OF_MILLISECOND
            &&& i64::MIN <= micros <= i64::MAX
        },
        (TypeView::Decimal(d), DatumView::Decimal(v)) => decimal::decimal_of(
            v.unscaled,
            d.precision,
            d.scale,
        ) == Ok::<DecimalView, ErrorView>(v),
        (TypeView::Binary(b), DatumView::Blob(v)) => v.len() <= b.length,
        _ => true,
    }
}

/// A key value that keeps to its type comes back from its bytes.
pub proof fn key_round_trip(t: TypeView, value: DatumView)
    requires
        reader_of(t) is Some,
        keeps_to_type(t, value),
        field_kind::kind_of(t)->0.item(value) is Some,
    ensures
        decoded(
            reader_of(t)->0,
            iceberg_binary_row_writer::iceberg_bytes(field_kind::kind_of(t)->0.item(value)->0),
        ) == Ok::<DatumView, ErrorView>(comes_back_as(value)),
{
    let item = field_kind::kind_of(t)->0.item(value)->0;
    let bytes = iceberg_binary_row_writer::iceberg_bytes(item);
    little_endian::span_values();
    match value {
        DatumView::Int32(v) => {
            lemma_number(v as int);
        },
        DatumView::Date(v) => {
            lemma_number(v as int);
        },
        DatumView::Int64(v) => {
            lemma_number(v as int);
        },
        DatumView::Time(v) => {
            lemma_number(1000 * v);
            assert(cut_div(1000 * v, 1000) == v);
        },
        DatumView::TimestampNtz(ts) => {
            let millis = ts.millisecond as int;
            let nanos = ts.nano_of_millisecond as int;
            let micros = iceberg_binary_row_writer::micros(millis, nanos);
            lemma_number(micros);
            assert(micros == 1000 * millis + nanos / 1000);
            assert(micros / 1000 == millis);
            assert(1000 * (micros % 1000) == nanos - nanos % 1000);
        },
        DatumView::Decimal(v) => {
            decimal::minimal_bytes_read_back(v.unscaled);
        },
        DatumView::String(v) => {
            vstd::utf8::encode_utf8_valid_utf8(v);
            vstd::utf8::encode_utf8_decode_utf8(v);
        },
        DatumView::Blob(v) => {
            assert(bytes =~= v);
        },
        _ => {},
    }
}

/// The key that an encoder makes of a row comes back from a decoder for the same
/// column as a row of the key value alone.
pub proof fn row_key_round_trip(row_type: RowView, keys: Seq<Seq<char>>, row: Seq<DatumView>)
    requires
        iceberg_key_encoder::key_field(row_type, keys) is Some,
        reader_of(
            row_type.fields[iceberg_key_encoder::key_place(row_type, keys)->0].data_type,
        ) is Some,
        iceberg_key_encoder::row_key(
            iceberg_key_encoder::key_field(row_type, keys)->0,
            row,
        ) is Some,
        keeps_to_type(
            row_type.fields[iceberg_key_encoder::key_place(row_type, keys)->0].data_type,
            iceberg_key_encoder::key_field(row_type, keys)->0.found(row)->0,
        ),
    ensures
        decoded_row(
            reader_of(
                row_type.fields[iceberg_key_encoder::key_place(row_type, keys)->0].data_type,
            )->0,
            iceberg_key_encoder::row_key(
                iceberg_key_encoder::key_field(row_type, keys)->0,
                row,
            )->0,
        ) == Ok::<Seq<DatumView>, ErrorView>(
            seq![
                comes_back_as(iceberg_key_encoder::key_field(row_type, keys)->0.found(row)->0),
            ],
        ),
{
    let t = row_type.fields[iceberg_key_encoder::key_place(row_type, keys)->0].data_type;
    let field = iceberg_key_encoder::key_field(row_type, keys)->0;
    same_key_types(t);
    field_kind::read_values_are_written(field.kind, row[field.pos as int]);
    key_round_trip(t, field.found(row)->0);
}

proof fn lemma_number(x: int)
    requires
        i64::MIN <= x <= i64::MAX,
    ensures
        little_endian::le_bytes(x, 8).len() == 8,
        little_endian::le_signed(little_endian::le_bytes(x, 8).take(8)) == x,
{
    little_endian::span_values();
    little_endian::le_bytes_len(x, 8);
    little_endian::le_signed_of_bytes(x, 8);
    assert(little_endian::le_bytes(x, 8).take(8) =~= little_endian::le_bytes(x, 8));
}

/// What comes back of a key value: of a timestamp the same millisecond and all
/// nanoseconds but those below a microsecond, of a day the same number, and
/// everything else as it was.
pub proof fn how_values_come_back(value: DatumView)
    requires
        value matches DatumView::TimestampNtz(t) ==> 0 <= t.nano_of_millisecond <= 999_999,
    ensures
        match value {
            DatumView::TimestampNtz(t) => comes_back_as(value) matches DatumView::TimestampNtz(u)
                && {
                &&& u.millisecond == t.millisecond
                &&& 0 <= t.nano_of_millisecond - u.nano_of_millisecond < 1000
                &&& u.nano_of_millisecond % 1000 == 0
            },
            DatumView::Date(days) => comes_back_as(value) == DatumView::Int32(days),
            _ => comes_back_as(value) == value,
        },
{
}

/// Which keys can be read: numbers, times and timestamps from eight bytes or more,
/// of which the first eight count; texts from UTF-8; bytes from anything; decimals
/// from what fits into their digits.
pub proof fn keys_that_can_be_read(t: TypeView, bytes: Seq<u8>, more: Seq<u8>)
    ensures
        t is Int || t is Date || t is BigInt || t is Time || t is Timestamp ==> {
            let reader = reader_of(t)->0;
            &&& reader_of(t) is Some
            &&& decoded(reader, bytes) is Ok <==> bytes.len() >= 8
            &&& decoded(reader, bytes) matches Err(e) ==> e is IllegalArgument
            &&& bytes.len() >= 8 ==> decoded(reader, bytes + more) == decoded(reader, bytes)
        },
        t is BigInt && bytes.len() == 8 ==> decoded(reader_of(t)->0, bytes) == Ok::<
            DatumView,
            ErrorView,
        >(DatumView::Int64(little_endian::le_signed(bytes) as i64)),
        t is String || t is Char ==> {
            &&& reader_of(t) is Some
            &&& decoded(reader_of(t)->0, bytes) is Ok <==> vstd::utf8::valid_utf8(bytes)
            &&& decoded(reader_of(t)->0, bytes) matches Err(e) ==> e is IllegalArgument
            &&& decoded(reader_of(t)->0, bytes) matches Ok(v) ==> v == DatumView::String(
                vstd::utf8::decode_utf8(bytes),
            )
        },
        t is Binary || t is Bytes ==> {
            &&& reader_of(t) is Some
            &&& decoded(reader_of(t)->0, bytes) == Ok::<DatumView, ErrorView>(
                DatumView::Blob(bytes),
            )
        },
        t matches TypeView::Decimal(d) ==> {
            let n = decimal::signed_value(bytes);
            &&& reader_of(t) is Some
            &&& decoded(reader_of(t)->0, bytes) is Ok <==> decimal::decimal_of(
                n,
                d.precision,
                d.scale,
            ) is Ok
            &&& decoded(reader_of(t)->0, bytes) matches Ok(v) ==> (v matches DatumView::Decimal(x)
                && x.unscaled == n && x.precision == d.precision && x.scale == d.scale)
        },
{
    if bytes.len() >= 8 {
        assert((bytes + more).take(8) =~= bytes.take(8));
    }
    if bytes.len() == 8 {
        assert(bytes.take(8) =~= bytes);
    }
}

} // verus!
