//! Reading rows in the compacted format.

use std::borrow::Cow;

use vstd::prelude::*;

use crate::error::{Error, ErrorView, Result};
use crate::little_endian::{self, read_i16_at, read_u32_at, read_u64_at};
use crate::metadata::datatype::{RowType, RowView};
use crate::row::binary::binary_writer::Item;
use crate::row::compacted::compacted_row_writer::{
    self, MAX_COMPACT_TIMESTAMP_PRECISION,
};
use crate::row::compacted::varint::{self, read_varint};
use crate::row::datum::{
    self, Date, Datum, DatumView, FlussArray, Time, TimestampLtz, TimestampNtz,
    MAX_NANO_OF_MILLISECOND,
};
use crate::row::decimal::{self, Decimal, DecimalView, MAX_COMPACT_PRECISION};
use crate::row::field_kind::{self, FieldKind, ValueWriter};
use crate::row::generic_row::{out_of_bounds_error, GenericRow};
use crate::row::internal_row::{self, InternalRow};
use crate::text;

verus! {

/// The 32-bit integer at the start of bytes, and how many bytes it takes.
pub open spec fn int_at(bytes: Seq<u8>) -> Option<(int, nat)> {
    match varint::varint_at(bytes, 5) {
        Some((v, n)) => if v < 0x8000_0000 {
            Some((v as int, n))
        } else if v < 0x1_0000_0000 {
            Some((v - 0x1_0000_0000, n))
        } else {
            None
        },
        None => None,
    }
}

/// The 64-bit integer at the start of bytes, and how many bytes it takes.
pub open spec fn long_at(bytes: Seq<u8>) -> Option<(int, nat)> {
    match varint::varint_at(bytes, 10) {
        Some((v, n)) => if v < 0x8000_0000_0000_0000 {
            Some((v as int, n))
        } else if v < 0x1_0000_0000_0000_0000 {
            Some((v - 0x1_0000_0000_0000_0000, n))
        } else {
            None
        },
        None => None,
    }
}

/// The bytes after their length at the start of bytes, and how many bytes that
/// takes.
pub open spec fn sized_at(bytes: Seq<u8>) -> Option<(Seq<u8>, nat)> {
    match varint::varint_at(bytes, 10) {
        Some((len, n)) => if n + len <= bytes.len() {
            Some((bytes.subrange(n as int, (n + len) as int), n + len))
        } else {
            None
        },
        None => None,
    }
}

/// The milliseconds and nanoseconds at the start of bytes, and how many bytes
/// they take.
pub open spec fn instant_at(precision: u32, bytes: Seq<u8>) -> Option<(int, int, nat)> {
    match long_at(bytes) {
        Some((millis, n)) => if precision <= MAX_COMPACT_TIMESTAMP_PRECISION {
            Some((millis, 0, n))
        } else {
            match int_at(bytes.skip(n as int)) {
                Some((nanos, m)) => if 0 <= nanos <= MAX_NANO_OF_MILLISECOND {
                    Some((millis, nanos, n + m))
                } else {
                    None
                },
                None => None,
            }
        },
        None => None,
    }
}

/// A value of a kind at the start of bytes, and how many bytes it takes.
pub open spec fn read_at(kind: FieldKind, bytes: Seq<u8>) -> Option<(DatumView, nat)> {
    match kind {
        FieldKind::Boolean => if bytes.len() >= 1 {
            Some((DatumView::Bool(bytes[0] != 0), 1nat))
        } else {
            None
        },
        FieldKind::TinyInt => if bytes.len() >= 1 {
            Some((DatumView::Int8(bytes[0] as i8), 1nat))
        } else {
            None
        },
        FieldKind::SmallInt => if bytes.len() >= 2 {
            Some((DatumView::Int16(little_endian::le_signed(bytes.take(2)) as i16), 2nat))
        } else {
            None
        },
        FieldKind::Int => match int_at(bytes) {
            Some((v, n)) => Some((DatumView::Int32(v as i32), n)),
            None => None,
        },
        FieldKind::Date => match int_at(bytes) {
            Some((v, n)) => Some((DatumView::Date(v as i32), n)),
            None => None,
        },
        FieldKind::Time { .. } => match int_at(bytes) {
            Some((v, n)) => Some((DatumView::Time(v as i32), n)),
            None => None,
        },
        FieldKind::BigInt => match long_at(bytes) {
            Some((v, n)) => Some((DatumView::Int64(v as i64), n)),
            None => None,
        },
        FieldKind::Float => if bytes.len() >= 4 {
            Some((DatumView::Float32(little_endian::le_value(bytes.take(4)) as u32), 4nat))
        } else {
            None
        },
        FieldKind::Double => if bytes.len() >= 8 {
            Some((DatumView::Float64(little_endian::le_value(bytes.take(8)) as u64), 8nat))
        } else {
            None
        },
        FieldKind::Char { .. } | FieldKind::String => match sized_at(bytes) {
            Some((v, n)) => if vstd::utf8::valid_utf8(v) {
                Some((DatumView::String(vstd::utf8::decode_utf8(v)), n))
            } else {
                None
            },
            None => None,
        },
        FieldKind::Decimal { precision, scale } => if precision <= MAX_COMPACT_PRECISION {
            match long_at(bytes) {
                Some((v, n)) => match decimal::decimal_of(v, precision, scale) {
                    Ok(d) => Some((DatumView::Decimal(d), n)),
                    Err(_) => None,
                },
                None => None,
            }
        } else {
            match sized_at(bytes) {
                Some((v, n)) => match decimal::decimal_of(
                    decimal::signed_value(v),
                    precision,
                    scale,
                ) {
                    Ok(d) => Some((DatumView::Decimal(d), n)),
                    Err(_) => None,
                },
                None => None,
            }
        },
        FieldKind::TimestampNtz { precision } => match instant_at(precision, bytes) {
            Some((millis, nanos, n)) => Some(
                (
                    DatumView::TimestampNtz(
                        TimestampNtz {
                            millisecond: millis as i64,
                            nano_of_millisecond: nanos as i32,
                        },
                    ),
                    n,
                ),
            ),
            None => None,
        },
        FieldKind::TimestampLtz { precision } => match instant_at(precision, bytes) {
            Some((millis, nanos, n)) => Some(
                (
                    DatumView::TimestampLtz(
                        TimestampLtz {
                            epoch_millisecond: millis as i64,
                            nano_of_millisecond: nanos as i32,
                        },
                    ),
                    n,
                ),
            ),
            None => None,
        },
        FieldKind::Bytes | FieldKind::Binary { .. } => match sized_at(bytes) {
            Some((v, n)) => Some((DatumView::Blob(v), n)),
            None => None,
        },
        FieldKind::Array => match sized_at(bytes) {
            Some((v, n)) => Some((DatumView::Array(v), n)),
            None => None,
        },
    }
}

/// Whether a value of a kind keeps to its type, so that nothing of it is lost:
/// a decimal has the precision and scale of the type, bytes are not longer than
/// the type, a timestamp has no nanoseconds that the type has no room for; and
/// lengths fit the machine.
pub open spec fn keeps_to_kind(kind: FieldKind, v: DatumView) -> bool {
    match (kind, v) {
        (FieldKind::Decimal { precision, scale }, DatumView::Decimal(d)) => decimal::decimal_of(
            d.unscaled,
            precision,
            scale,
        ) == Ok::<DecimalView, ErrorView>(d),
        (FieldKind::Binary { length }, DatumView::Blob(b)) => b.len() <= length,
        (FieldKind::Bytes, DatumView::Blob(b)) => b.len() <= usize::MAX,
        (FieldKind::Array, DatumView::Array(b)) => b.len() <= usize::MAX,
        (FieldKind::Char { .. }, DatumView::String(s)) => vstd::utf8::encode_utf8(s).len()
            <= usize::MAX,
        (FieldKind::String, DatumView::String(s)) => vstd::utf8::encode_utf8(s).len()
            <= usize::MAX,
        (FieldKind::TimestampNtz { precision }, DatumView::TimestampNtz(t)) => if precision
            <= MAX_COMPACT_TIMESTAMP_PRECISION {
            t.nano_of_millisecond == 0
        } else {
            0 <= t.nano_of_millisecond <= MAX_NANO_OF_MILLISECOND
        },
        (FieldKind::TimestampLtz { precision }, DatumView::TimestampLtz(t)) => if precision
            <= MAX_COMPACT_TIMESTAMP_PRECISION {
            t.nano_of_millisecond == 0
        } else {
            0 <= t.nano_of_millisecond <= MAX_NANO_OF_MILLISECOND
        },
        _ => true,
    }
}

proof fn lemma_int_back(v: int, rest: Seq<u8>)
    requires
        i32::MIN <= v <= i32::MAX,
    ensures
        int_at(compacted_row_writer::int_bytes(v) + rest) == Some(
            (v, compacted_row_writer::int_bytes(v).len()),
        ),
{
    varint::pow128_values();
    varint::varint_reads_back((v % 0x1_0000_0000) as nat, rest, 5);
}

proof fn lemma_long_back(v: int, rest: Seq<u8>)
    requires
        i64::MIN <= v <= i64::MAX,
    ensures
        long_at(compacted_row_writer::long_bytes(v) + rest) == Some(
            (v, compacted_row_writer::long_bytes(v).len()),
        ),
{
    varint::pow128_values();
    varint::varint_reads_back((v % 0x1_0000_0000_0000_0000) as nat, rest, 10);
}

proof fn lemma_sized_back(v: Seq<u8>, rest: Seq<u8>)
    requires
        v.len() <= usize::MAX,
    ensures
        sized_at(compacted_row_writer::sized_bytes(v) + rest) == Some(
            (v, compacted_row_writer::sized_bytes(v).len()),
        ),
{
    varint::pow128_values();
    let all = compacted_row_writer::sized_bytes(v) + rest;
    assert(all =~= varint::varint(v.len()) + (v + rest));
    varint::varint_reads_back(v.len(), v + rest, 10);
    let n = varint::varint(v.len()).len() as int;
    assert(all.subrange(n, n + v.len()) =~= v);
}

proof fn lemma_instant_back(millis: int, nanos: int, precision: u32, rest: Seq<u8>)
    requires
        i64::MIN <= millis <= i64::MAX,
        if precision <= MAX_COMPACT_TIMESTAMP_PRECISION {
            nanos == 0
        } else {
            0 <= nanos <= MAX_NANO_OF_MILLISECOND
        },
    ensures
        ({
            let bytes = if precision <= MAX_COMPACT_TIMESTAMP_PRECISION {
                compacted_row_writer::long_bytes(millis)
            } else {
                compacted_row_writer::long_bytes(millis) + compacted_row_writer::int_bytes(nanos)
            };
            instant_at(precision, bytes + rest) == Some((millis, nanos, bytes.len()))
        }),
{
    let first = compacted_row_writer::long_bytes(millis);
    let second = compacted_row_writer::int_bytes(nanos);
    if precision <= MAX_COMPACT_TIMESTAMP_PRECISION {
        lemma_long_back(millis, rest);
    } else {
        lemma_long_back(millis, second + rest);
        lemma_int_back(nanos, rest);
        let all = (first + second) + rest;
        assert(all =~= first + (second + rest));
        assert(all.skip(first.len() as int) =~= second + rest);
    }
}

/// A value that keeps to its kind comes back from its bytes, whatever follows
/// them.
#[verifier::spinoff_prover]
#[verifier::rlimit(60)]
pub proof fn value_reads_back(kind: FieldKind, v: DatumView, rest: Seq<u8>)
    requires
        kind.item(v) is Some,
        keeps_to_kind(kind, v),
    ensures
        read_at(kind, compacted_row_writer::compacted_bytes(kind.item(v)->0) + rest) == Some(
            (v, compacted_row_writer::compacted_bytes(kind.item(v)->0).len()),
        ),
{
    let item = kind.item(v)->0;
    let bytes = compacted_row_writer::compacted_bytes(item);
    let all = bytes + rest;
    little_endian::span_values();
    match v {
        DatumView::Bool(x) => {
            assert(all[0] == bytes[0]);
        },
        DatumView::Int8(x) => {
            assert(all[0] == bytes[0]);
            assert((x as u8) as i8 == x) by (bit_vector);
        },
        DatumView::Int16(x) => {
            little_endian::le_bytes_len(x as int, 2);
            little_endian::le_signed_of_bytes(x as int, 2);
            assert(all.take(2) =~= bytes);
        },
        DatumView::Int32(x) => {
            lemma_int_back(x as int, rest);
        },
        DatumView::Date(x) => {
            lemma_int_back(x as int, rest);
        },
        DatumView::Time(x) => {
            lemma_int_back(x as int, rest);
        },
        DatumView::Int64(x) => {
            lemma_long_back(x as int, rest);
        },
        DatumView::Float32(x) => {
            little_endian::le_bytes_len(x as int, 4);
            little_endian::le_value_of_bytes(x as int, 4);
            assert(all.take(4) =~= bytes);
        },
        DatumView::Float64(x) => {
            little_endian::le_bytes_len(x as int, 8);
            little_endian::le_value_of_bytes(x as int, 8);
            assert(all.take(8) =~= bytes);
        },
        DatumView::String(s) => {
            vstd::utf8::encode_utf8_valid_utf8(s);
            vstd::utf8::encode_utf8_decode_utf8(s);
            lemma_sized_back(vstd::utf8::encode_utf8(s), rest);
        },
        DatumView::Decimal(d) => {
            lemma_decimal_back(kind->Decimal_precision, kind->scale, d, rest);
        },
        DatumView::TimestampNtz(t) => {
            lemma_instant_back(
                t.millisecond as int,
                t.nano_of_millisecond as int,
                kind->TimestampNtz_precision,
                rest,
            );
        },
        DatumView::TimestampLtz(t) => {
            lemma_instant_back(
                t.epoch_millisecond as int,
                t.nano_of_millisecond as int,
                kind->TimestampLtz_precision,
                rest,
            );
        },
        DatumView::Blob(b) => {
            if let FieldKind::Binary { length } = kind {
                assert(b.take(
                    if (length as int) < b.len() {
                        length as int
                    } else {
                        b.len() as int
                    },
                ) =~= b);
            }
            lemma_sized_back(b, rest);
        },
        DatumView::Array(b) => {
            lemma_sized_back(b, rest);
        },
        _ => {},
    }
}

proof fn lemma_decimal_back(precision: u32, scale: u32, d: DecimalView, rest: Seq<u8>)
    requires
        decimal::decimal_of(d.unscaled, precision, scale) == Ok::<DecimalView, ErrorView>(d),
    ensures
        ({
            let bytes = compacted_row_writer::compacted_bytes(Item::Decimal(d, precision));
            read_at(FieldKind::Decimal { precision, scale }, bytes + rest) == Some(
                (DatumView::Decimal(d), bytes.len()),
            )
        }),
{
    if precision <= MAX_COMPACT_PRECISION {
        decimal::pow10_fits_long(precision as nat);
        lemma_long_back(d.unscaled, rest);
    } else {
        decimal::minimal_bytes_read_back(d.unscaled);
        decimal::minimal_bytes_of_decimal(d.unscaled, precision as nat);
        lemma_sized_back(decimal::minimal_bytes(d.unscaled), rest);
    }
}

/// What is written of each field of a row type, where every field has a kind.
pub open spec fn fields_of(row: RowView) -> Option<Seq<ValueWriter>> {
    if forall|i: int|
        0 <= i < row.fields.len() ==> field_kind::kind_of(
            (#[trigger] row.fields[i]).data_type,
        ) is Some {
        Some(
            Seq::new(
                row.fields.len(),
                |i: int| ValueWriter {
                    kind: field_kind::kind_of(row.fields[i].data_type)->0,
                    nullable: row.fields[i].data_type.nullable(),
                },
            ),
        )
    } else {
        None
    }
}

/// What is written of each field of a row type, where every field has a kind.
pub fn row_fields(row_type: &RowType) -> (r: Option<Vec<ValueWriter>>)
    ensures
        match r {
            Some(fields) => fields_of(row_type@) == Some(fields@),
            None => fields_of(row_type@) is None,
        },
{
    let mut out: Vec<ValueWriter> = Vec::new();
    let mut i: usize = 0;
    while i < row_type.fields.len()
        invariant
            i <= row_type.fields@.len(),
            out@.len() == i,
            forall|j: int|
                0 <= j < i ==> field_kind::kind_of((#[trigger] row_type@.fields[j]).data_type)
                    is Some,
            forall|j: int|
                0 <= j < i ==> (#[trigger] out@[j]) == (ValueWriter {
                    kind: field_kind::kind_of(row_type@.fields[j].data_type)->0,
                    nullable: row_type@.fields[j].data_type.nullable(),
                }),
        decreases row_type.fields@.len() - i,
    {
        let data_type = &row_type.fields[i].data_type;
        assert(row_type@.fields[i as int].data_type == data_type@);
        match FieldKind::of(data_type) {
            Some(kind) => {
                out.push(ValueWriter { kind, nullable: data_type.is_nullable() });
            },
            None => {
                return None;
            },
        }
        i = i + 1;
    }
    assert(out@ =~= fields_of(row_type@)->0);
    Some(out)
}

/// Whether the bit of a field says that it is null.
pub open spec fn null_bit(bytes: Seq<u8>, i: int) -> bool {
    compacted_row_writer::has_bit(bytes[i / 8], i % 8)
}

/// The values of the first `n` fields, and the place behind them.
pub open spec fn read_fields(fields: Seq<ValueWriter>, bytes: Seq<u8>, n: nat) -> Option<
    (Seq<DatumView>, int),
>
    decreases n,
{
    if n == 0 {
        if compacted_row_writer::header_size(fields.len() as int) <= bytes.len() {
            Some((Seq::empty(), compacted_row_writer::header_size(fields.len() as int)))
        } else {
            None
        }
    } else {
        match read_fields(fields, bytes, (n - 1) as nat) {
            Some((values, place)) => if fields[n - 1].nullable && null_bit(bytes, n - 1) {
                Some((values.push(DatumView::Null), place))
            } else {
                match read_at(fields[n - 1].kind, bytes.skip(place)) {
                    Some((v, k)) => Some((values.push(v), place + k)),
                    None => None,
                }
            },
            None => None,
        }
    }
}

/// The values of a row in the compacted format.
pub open spec fn decoded_row(fields: Seq<ValueWriter>, bytes: Seq<u8>) -> Option<Seq<DatumView>> {
    match read_fields(fields, bytes, fields.len()) {
        Some((values, _)) => Some(values),
        None => None,
    }
}

/// The bytes of a row once the field at place `i` was written behind `before`.
pub open spec fn write_field(f: ValueWriter, before: Seq<u8>, i: int, v: DatumView) -> Seq<u8> {
    if f.nullable && v is Null {
        before.update(i / 8, compacted_row_writer::with_bit(before[i / 8], i % 8))
    } else {
        before + compacted_row_writer::compacted_bytes(f.kind.item(v)->0)
    }
}

/// The bytes of a row once its first `n` fields were written.
pub open spec fn written_fields(
    fields: Seq<ValueWriter>,
    values: Seq<DatumView>,
    n: nat,
) -> Seq<u8>
    decreases n,
{
    if n == 0 {
        Seq::new(compacted_row_writer::header_size(fields.len() as int) as nat, |i: int| 0u8)
    } else {
        write_field(
            fields[n - 1],
            written_fields(fields, values, (n - 1) as nat),
            n - 1,
            values[n - 1],
        )
    }
}

/// The bytes of a row in the compacted format.
pub open spec fn encoded_row(fields: Seq<ValueWriter>, values: Seq<DatumView>) -> Seq<u8> {
    written_fields(fields, values, fields.len())
}

/// Whether values can be those of a row with these fields.
pub open spec fn row_keeps_to_fields(fields: Seq<ValueWriter>, values: Seq<DatumView>) -> bool {
    &&& values.len() == fields.len()
    &&& forall|i: int|
        0 <= i < fields.len() ==> {
            ||| (#[trigger] fields[i]).nullable && values[i] is Null
            ||| fields[i].kind.item(values[i]) is Some && keeps_to_kind(fields[i].kind, values[i])
        }
}

/// Whether bytes go on from those of the first `n` fields: nothing of these
/// fields changed.
spec fn goes_on(fields: Seq<ValueWriter>, first: Seq<u8>, all: Seq<u8>, n: nat) -> bool {
    let header = compacted_row_writer::header_size(fields.len() as int);
    &&& header <= first.len() <= all.len()
    &&& forall|k: int| header <= k < first.len() ==> #[trigger] all[k] == first[k]
    &&& forall|i: int| 0 <= i < n ==> #[trigger] null_bit(all, i) == null_bit(first, i)
}

proof fn lemma_written(fields: Seq<ValueWriter>, values: Seq<DatumView>, n: nat)
    requires
        n <= fields.len(),
        row_keeps_to_fields(fields, values),
    ensures
        compacted_row_writer::header_size(fields.len() as int) <= written_fields(
            fields,
            values,
            n,
        ).len(),
        forall|i: int|
            0 <= i < fields.len() ==> #[trigger] null_bit(written_fields(fields, values, n), i)
                == (i < n && fields[i].nullable && values[i] is Null),
    decreases n,
{
    let header = compacted_row_writer::header_size(fields.len() as int);
    let bytes = written_fields(fields, values, n);
    if n == 0 {
        assert forall|i: int| 0 <= i < fields.len() implies !#[trigger] null_bit(bytes, i) by {
            assert(i / 8 < header);
            compacted_row_writer::bit_is_set(0, i % 8, 0);
        }
    } else {
        let before = written_fields(fields, values, (n - 1) as nat);
        let last = n - 1;
        lemma_written(fields, values, (n - 1) as nat);
        assert forall|i: int| 0 <= i < fields.len() implies #[trigger] null_bit(bytes, i) == (i < n
            && fields[i].nullable && values[i] is Null) by {
            assert(i / 8 < header);
            assert(last / 8 < header);
            assert(null_bit(before, i) == (i < last && fields[i].nullable && values[i] is Null));
            if fields[last].nullable && values[last] is Null {
                compacted_row_writer::bit_is_set(before[last / 8], last % 8, i % 8);
                if i / 8 == last / 8 && i % 8 == last % 8 {
                    assert(i == last);
                }
            }
        }
    }
}

proof fn lemma_reads_back(
    fields: Seq<ValueWriter>,
    values: Seq<DatumView>,
    all: Seq<u8>,
    n: nat,
)
    requires
        n <= fields.len(),
        row_keeps_to_fields(fields, values),
        goes_on(fields, written_fields(fields, values, n), all, n),
    ensures
        read_fields(fields, all, n) == Some(
            (values.take(n as int), written_fields(fields, values, n).len() as int),
        ),
    decreases n,
{
    let header = compacted_row_writer::header_size(fields.len() as int);
    let bytes = written_fields(fields, values, n);
    if n == 0 {
        assert(values.take(0) =~= Seq::<DatumView>::empty());
    } else {
        let m = (n - 1) as nat;
        let before = written_fields(fields, values, m);
        let f = fields[n - 1];
        let v = values[n - 1];
        lemma_written(fields, values, m);
        lemma_written(fields, values, n);
        assert(goes_on(fields, before, all, m)) by {
            assert forall|i: int| 0 <= i < m implies #[trigger] null_bit(all, i) == null_bit(
                before,
                i,
            ) by {
                assert(null_bit(all, i) == null_bit(bytes, i));
            }
            assert forall|k: int| header <= k < before.len() implies #[trigger] all[k]
                == before[k] by {
                assert((n - 1) / 8 < header);
                assert(all[k] == bytes[k]);
            }
        }
        lemma_reads_back(fields, values, all, m);
        assert(values.take(n as int) =~= values.take(m as int).push(v));
        assert(null_bit(all, n - 1) == null_bit(bytes, n - 1));
        if f.nullable && v is Null {
        } else {
            let own = compacted_row_writer::compacted_bytes(f.kind.item(v)->0);
            let place = before.len() as int;
            let rest = all.skip(place + own.len());
            assert forall|k: int| 0 <= k < own.len() implies all.skip(place)[k] == own[k] by {
                assert(all[place + k] == bytes[place + k]);
            }
            assert(all.skip(place) =~= own + rest);
            value_reads_back(f.kind, v, rest);
        }
    }
}

/// A row comes back from its bytes.
pub proof fn row_reads_back(fields: Seq<ValueWriter>, values: Seq<DatumView>)
    requires
        row_keeps_to_fields(fields, values),
    ensures
        decoded_row(fields, encoded_row(fields, values)) == Some(values),
{
    lemma_written(fields, values, fields.len());
    lemma_reads_back(fields, values, encoded_row(fields, values), fields.len());
    assert(values.take(fields.len() as int) =~= values);
}

fn read_int(bytes: &[u8], start: usize) -> (r: Option<(i32, usize)>)
    requires
        start <= bytes@.len(),
    ensures
        match r {
            Some((v, next)) => start < next <= bytes@.len() && int_at(bytes@.skip(start as int))
                == Some((v as int, (next - start) as nat)),
            None => int_at(bytes@.skip(start as int)) is None,
        },
{
    match read_varint(bytes, start, 5) {
        Some((v, next)) => {
            if v < 0x8000_0000 {
                Some((v as i32, next))
            } else if v < 0x1_0000_0000 {
                Some(((v as i64 - 0x1_0000_0000) as i32, next))
            } else {
                None
            }
        },
        None => None,
    }
}

fn read_long(bytes: &[u8], start: usize) -> (r: Option<(i64, usize)>)
    requires
        start <= bytes@.len(),
    ensures
        match r {
            Some((v, next)) => start < next <= bytes@.len() && long_at(bytes@.skip(start as int))
                == Some((v as int, (next - start) as nat)),
            None => long_at(bytes@.skip(start as int)) is None,
        },
{
    match read_varint(bytes, start, 10) {
        Some((v, next)) => {
            if v < 0x8000_0000_0000_0000 {
                Some((v as i64, next))
            } else if v < 0x1_0000_0000_0000_0000 {
                Some(((v as i128 - 0x1_0000_0000_0000_0000) as i64, next))
            } else {
                None
            }
        },
        None => None,
    }
}

fn read_sized<'a>(bytes: &'a [u8], start: usize) -> (r: Option<(&'a [u8], usize)>)
    requires
        start <= bytes@.len(),
    ensures
        match r {
            Some((v, next)) => start < next <= bytes@.len() && sized_at(bytes@.skip(start as int))
                == Some((v@, (next - start) as nat)),
            None => sized_at(bytes@.skip(start as int)) is None,
        },
{
    match read_varint(bytes, start, 10) {
        Some((len, next)) => {
            if len <= (bytes.len() - next) as u128 {
                let end: usize = next + len as usize;
                let v = vstd::slice::slice_subrange(bytes, next, end);
                assert(v@ =~= bytes@.skip(start as int).subrange(next - start, end - start));
                Some((v, end))
            } else {
                None
            }
        },
        None => None,
    }
}

fn read_instant(precision: u32, bytes: &[u8], start: usize) -> (r: Option<(i64, i32, usize)>)
    requires
        start <= bytes@.len(),
    ensures
        match r {
            Some((millis, nanos, next)) => start < next <= bytes@.len() && instant_at(
                precision,
                bytes@.skip(start as int),
            ) == Some((millis as int, nanos as int, (next - start) as nat)),
            None => instant_at(precision, bytes@.skip(start as int)) is None,
        },
{
    match read_long(bytes, start) {
        Some((millis, next)) => {
            if precision <= MAX_COMPACT_TIMESTAMP_PRECISION {
                Some((millis, 0, next))
            } else {
                assert(bytes@.skip(start as int).skip(next - start) =~= bytes@.skip(next as int));
                match read_int(bytes, next) {
                    Some((nanos, end)) => {
                        if nanos >= 0 && nanos <= MAX_NANO_OF_MILLISECOND {
                            Some((millis, nanos, end))
                        } else {
                            None
                        }
                    },
                    None => None,
                }
            }
        },
        None => None,
    }
}

/// Reads a value of a kind, and gives the place behind it.
pub fn read_value<'a>(kind: FieldKind, bytes: &'a [u8], start: usize) -> (r: Option<
    (Datum<'a>, usize),
>)
    requires
        start <= bytes@.len(),
    ensures
        match r {
            Some((v, next)) => start <= next <= bytes@.len() && read_at(
                kind,
                bytes@.skip(start as int),
            ) == Some((v@, (next - start) as nat)),
            None => read_at(kind, bytes@.skip(start as int)) is None,
        },
{
    let ghost part = bytes@.skip(start as int);
    match kind {
        FieldKind::Boolean => {
            if start < bytes.len() {
                Some((Datum::Bool(bytes[start] != 0), start + 1))
            } else {
                None
            }
        },
        FieldKind::TinyInt => {
            if start < bytes.len() {
                Some((Datum::Int8(bytes[start] as i8), start + 1))
            } else {
                None
            }
        },
        FieldKind::SmallInt => {
            if bytes.len() - start >= 2 {
                assert(part.take(2) =~= bytes@.subrange(start as int, start + 2));
                Some((Datum::Int16(read_i16_at(bytes, start)), start + 2))
            } else {
                None
            }
        },
        FieldKind::Int => match read_int(bytes, start) {
            Some((v, next)) => Some((Datum::Int32(v), next)),
            None => None,
        },
        FieldKind::Date => match read_int(bytes, start) {
            Some((v, next)) => Some((Datum::Date(Date::new(v)), next)),
            None => None,
        },
        FieldKind::Time { .. } => match read_int(bytes, start) {
            Some((v, next)) => Some((Datum::Time(Time::new(v)), next)),
            None => None,
        },
        FieldKind::BigInt => match read_long(bytes, start) {
            Some((v, next)) => Some((Datum::Int64(v), next)),
            None => None,
        },
        FieldKind::Float => {
            if bytes.len() - start >= 4 {
                assert(part.take(4) =~= bytes@.subrange(start as int, start + 4));
                Some((Datum::Float32(read_u32_at(bytes, start)), start + 4))
            } else {
                None
            }
        },
        FieldKind::Double => {
            if bytes.len() - start >= 8 {
                assert(part.take(8) =~= bytes@.subrange(start as int, start + 8));
                Some((Datum::Float64(read_u64_at(bytes, start)), start + 8))
            } else {
                None
            }
        },
        FieldKind::Char { .. } | FieldKind::String => match read_sized(bytes, start) {
            Some((v, next)) => match text::utf8_text(v) {
                Ok(s) => Some((Datum::String(Cow::Borrowed(s)), next)),
                Err(_) => None,
            },
            None => None,
        },
        FieldKind::Decimal { precision, scale } => {
            if precision <= MAX_COMPACT_PRECISION {
                match read_long(bytes, start) {
                    Some((v, next)) => match Decimal::from_unscaled(v as i128, precision, scale) {
                        Ok(d) => Some((Datum::Decimal(d), next)),
                        Err(_) => None,
                    },
                    None => None,
                }
            } else {
                match read_sized(bytes, start) {
                    Some((v, next)) => match Decimal::from_unscaled_bytes(v, precision, scale) {
                        Ok(d) => Some((Datum::Decimal(d), next)),
                        Err(_) => None,
                    },
                    None => None,
                }
            }
        },
        FieldKind::TimestampNtz { precision } => match read_instant(precision, bytes, start) {
            Some((millisecond, nano_of_millisecond, next)) => Some(
                (Datum::TimestampNtz(TimestampNtz { millisecond, nano_of_millisecond }), next),
            ),
            None => None,
        },
        FieldKind::TimestampLtz { precision } => match read_instant(precision, bytes, start) {
            Some((epoch_millisecond, nano_of_millisecond, next)) => Some(
                (Datum::TimestampLtz(TimestampLtz { epoch_millisecond, nano_of_millisecond }), next),
            ),
            None => None,
        },
        FieldKind::Bytes | FieldKind::Binary { .. } => match read_sized(bytes, start) {
            Some((v, next)) => Some((Datum::Blob(Cow::Borrowed(v)), next)),
            None => None,
        },
        FieldKind::Array => match read_sized(bytes, start) {
            Some((v, next)) => Some((Datum::Array(FlussArray { data: datum::copy_slice(v) }), next)),
            None => None,
        },
    }
}

/// Reads a row.
pub fn decode_row<'a>(fields: &Vec<ValueWriter>, bytes: &'a [u8]) -> (r: Option<GenericRow<'a>>)
    ensures
        match r {
            Some(row) => decoded_row(fields@, bytes@) == Some(row@),
            None => decoded_row(fields@, bytes@) is None,
        },
{
    let count: usize = fields.len();
    let header: usize = count / 8 + if count % 8 == 0 {
        0
    } else {
        1
    };
    if bytes.len() < header {
        proof {
            lemma_no_row(fields@, bytes@, 0, fields@.len());
        }
        return None;
    }
    let mut values: Vec<Datum<'a>> = Vec::new();
    let mut place: usize = header;
    let mut i: usize = 0;
    assert(datum::datum_views(values@) =~= Seq::<DatumView>::empty());
    while i < count
        invariant
            i <= count == fields@.len(),
            header == compacted_row_writer::header_size(count as int),
            header <= bytes@.len(),
            place <= bytes@.len(),
            read_fields(fields@, bytes@, i as nat) == Some(
                (datum::datum_views(values@), place as int),
            ),
        decreases count - i,
    {
        let f = fields[i];
        let ghost before = values@;
        let bit: u8 = (i % 8) as u8;
        if f.nullable && (bytes[i / 8] >> bit) & 1u8 == 1u8 {
            values.push(Datum::Null);
            assert(datum::datum_views(values@) =~= datum::datum_views(before).push(
                DatumView::Null,
            ));
        } else {
            match read_value(f.kind, bytes, place) {
                Some((v, next)) => {
                    let ghost view = v@;
                    values.push(v);
                    assert(datum::datum_views(values@) =~= datum::datum_views(before).push(view));
                    place = next;
                },
                None => {
                    proof {
                        lemma_no_row(fields@, bytes@, (i + 1) as nat, fields@.len());
                    }
                    return None;
                },
            }
        }
        i = i + 1;
    }
    Some(GenericRow { values })
}

proof fn lemma_no_row(fields: Seq<ValueWriter>, bytes: Seq<u8>, m: nat, n: nat)
    requires
        m <= n,
        read_fields(fields, bytes, m) is None,
    ensures
        read_fields(fields, bytes, n) is None,
    decreases n,
{
    if m < n {
        lemma_no_row(fields, bytes, m, (n - 1) as nat);
    }
}

/// Why bytes are no row of a type.
#[derive(Debug, Clone, Copy, PartialEq, Eq, Structural)]
pub enum RowFault {
    NotARow,
    UnsupportedType,
}

impl RowFault {
    /// What the fault is reported as.
    pub open spec fn error_view(self) -> ErrorView {
        match self {
            RowFault::NotARow => ErrorView::RowConvertError("Bytes are not a compacted row"@),
            RowFault::UnsupportedType => ErrorView::RowConvertError(
                "Row type is not supported in compacted rows"@,
            ),
        }
    }

    fn error(self) -> (r: Error)
        ensures
            r@ == self.error_view(),
    {
        match self {
            RowFault::NotARow => Error::row_convert("Bytes are not a compacted row"),
            RowFault::UnsupportedType => Error::row_convert(
                "Row type is not supported in compacted rows",
            ),
        }
    }
}

/// A row in the compacted format. Where its bytes are no row, none of its fields
/// can be read.
pub struct CompactedRow<'a> {
    data: &'a [u8],
    field_count: usize,
    values: core::result::Result<GenericRow<'a>, RowFault>,
}

/// The values of a row of some type, or why it has none.
pub open spec fn row_values(row: RowView, bytes: Seq<u8>) -> core::result::Result<
    Seq<DatumView>,
    ErrorView,
> {
    match fields_of(row) {
        Some(fields) => match decoded_row(fields, bytes) {
            Some(values) => Ok(values),
            None => Err(RowFault::NotARow.error_view()),
        },
        None => Err(RowFault::UnsupportedType.error_view()),
    }
}

/// The fields of a row of some type: its values, or as many fields as the type
/// has that cannot be read.
pub open spec fn readable_row(row: RowView, bytes: Seq<u8>) -> Seq<DatumView> {
    match row_values(row, bytes) {
        Ok(values) => values,
        Err(e) => Seq::new(row.fields.len(), |i: int| DatumView::Unreadable(e)),
    }
}

impl<'a> CompactedRow<'a> {
    /// The bytes of the row.
    pub closed spec fn bytes(&self) -> Seq<u8> {
        self.data@
    }

    /// The values of the row, or why it has none.
    pub closed spec fn values_view(&self) -> core::result::Result<Seq<DatumView>, ErrorView> {
        match self.values {
            Ok(values) => Ok(values@),
            Err(fault) => Err(fault.error_view()),
        }
    }

    pub fn from_bytes(row_type: &RowType, data: &'a [u8]) -> (r: Self)
        ensures
            r.bytes() == data@,
            r.values_view() == row_values(row_type@, data@),
            r.row() == readable_row(row_type@, data@),
    {
        let field_count: usize = row_type.fields.len();
        let values = match row_fields(row_type) {
            Some(fields) => match decode_row(&fields, data) {
                Some(values) => Ok(values),
                None => Err(RowFault::NotARow),
            },
            None => Err(RowFault::UnsupportedType),
        };
        let r = CompactedRow { data, field_count, values };
        assert(r.row() =~= readable_row(row_type@, data@));
        r
    }

    pub fn as_bytes(&self) -> (r: &'a [u8])
        ensures
            r@ == self.bytes(),
    {
        self.data
    }

    /// The values of the row, or why it has none.
    pub fn into_values(self) -> (r: Result<GenericRow<'a>>)
        ensures
            internal_row::result_view(r) == self.values_view(),
    {
        match self.values {
            Ok(values) => Ok(values),
            Err(fault) => Err(fault.error()),
        }
    }

    /// The error for a field that cannot be read.
    fn unreadable(&self, fault: &RowFault, pos: usize) -> (r: Error)
        ensures
            r@ == if pos >= self.field_count {
                internal_row::out_of_bounds(pos as int, self.field_count as int)
            } else {
                fault.error_view()
            },
    {
        if pos >= self.field_count {
            out_of_bounds_error(pos, self.field_count)
        } else {
            fault.error()
        }
    }
}

impl<'a> InternalRow for CompactedRow<'a> {
    closed spec fn row(&self) -> Seq<DatumView> {
        match self.values {
            Ok(values) => values@,
            Err(fault) => Seq::new(
                self.field_count as nat,
                |i: int| DatumView::Unreadable(fault.error_view()),
            ),
        }
    }

    fn get_field_count(&self) -> (r: usize) {
        match &self.values {
            Ok(values) => values.get_field_count(),
            Err(_) => self.field_count,
        }
    }

    fn is_null_at(&self, pos: usize) -> (r: Result<bool>) {
        match &self.values {
            Ok(values) => values.is_null_at(pos),
            Err(fault) => Err(self.unreadable(fault, pos)),
        }
    }

    fn get_boolean(&self, pos: usize) -> (r: Result<bool>) {
        match &self.values {
            Ok(values) => values.get_boolean(pos),
            Err(fault) => Err(self.unreadable(fault, pos)),
        }
    }

    fn get_byte(&self, pos: usize) -> (r: Result<i8>) {
        match &self.values {
            Ok(values) => values.get_byte(pos),
            Err(fault) => Err(self.unreadable(fault, pos)),
        }
    }

    fn get_short(&self, pos: usize) -> (r: Result<i16>) {
        match &self.values {
            Ok(values) => values.get_short(pos),
            Err(fault) => Err(self.unreadable(fault, pos)),
        }
    }

    fn get_int(&self, pos: usize) -> (r: Result<i32>) {
        match &self.values {
            Ok(values) => values.get_int(pos),
            Err(fault) => Err(self.unreadable(fault, pos)),
        }
    }

    fn get_long(&self, pos: usize) -> (r: Result<i64>) {
        match &self.values {
            Ok(values) => values.get_long(pos),
            Err(fault) => Err(self.unreadable(fault, pos)),
        }
    }

    fn get_float(&self, pos: usize) -> (r: Result<u32>) {
        match &self.values {
            Ok(values) => values.get_float(pos),
            Err(fault) => Err(self.unreadable(fault, pos)),
        }
    }

    fn get_double(&self, pos: usize) -> (r: Result<u64>) {
        match &self.values {
            Ok(values) => values.get_double(pos),
            Err(fault) => Err(self.unreadable(fault, pos)),
        }
    }

    fn get_char(&self, pos: usize, length: usize) -> (r: Result<&str>) {
        match &self.values {
            Ok(values) => values.get_char(pos, length),
            Err(fault) => Err(self.unreadable(fault, pos)),
        }
    }

    fn get_string(&self, pos: usize) -> (r: Result<&str>) {
        match &self.values {
            Ok(values) => values.get_string(pos),
            Err(fault) => Err(self.unreadable(fault, pos)),
        }
    }

    fn get_decimal(&self, pos: usize, precision: usize, scale: usize) -> (r: Result<Decimal>) {
        match &self.values {
            Ok(values) => values.get_decimal(pos, precision, scale),
            Err(fault) => Err(self.unreadable(fault, pos)),
        }
    }

    fn get_date(&self, pos: usize) -> (r: Result<Date>) {
        match &self.values {
            Ok(values) => values.get_date(pos),
            Err(fault) => Err(self.unreadable(fault, pos)),
        }
    }

    fn get_time(&self, pos: usize) -> (r: Result<Time>) {
        match &self.values {
            Ok(values) => values.get_time(pos),
            Err(fault) => Err(self.unreadable(fault, pos)),
        }
    }

    fn get_timestamp_ntz(&self, pos: usize, precision: u32) -> (r: Result<TimestampNtz>) {
        match &self.values {
            Ok(values) => values.get_timestamp_ntz(pos, precision),
            Err(fault) => Err(self.unreadable(fault, pos)),
        }
    }

    fn get_timestamp_ltz(&self, pos: usize, precision: u32) -> (r: Result<TimestampLtz>) {
        match &self.values {
            Ok(values) => values.get_timestamp_ltz(pos, precision),
            Err(fault) => Err(self.unreadable(fault, pos)),
        }
    }

    fn get_binary(&self, pos: usize, length: usize) -> (r: Result<&[u8]>) {
        match &self.values {
            Ok(values) => values.get_binary(pos, length),
            Err(fault) => Err(self.unreadable(fault, pos)),
        }
    }

    fn get_bytes(&self, pos: usize) -> (r: Result<&[u8]>) {
        match &self.values {
            Ok(values) => values.get_bytes(pos),
            Err(fault) => Err(self.unreadable(fault, pos)),
        }
    }

    fn get_array(&self, pos: usize) -> (r: Result<FlussArray>) {
        match &self.values {
            Ok(values) => values.get_array(pos),
            Err(fault) => Err(self.unreadable(fault, pos)),
        }
    }

    fn get_row(&self, pos: usize) -> (r: Result<&GenericRow<'_>>) {
        match &self.values {
            Ok(values) => values.get_row(pos),
            Err(fault) => Err(self.unreadable(fault, pos)),
        }
    }
}

proof fn lemma_value_count(fields: Seq<ValueWriter>, bytes: Seq<u8>, n: nat)
    ensures
        read_fields(fields, bytes, n) matches Some((values, _)) ==> values.len() == n,
    decreases n,
{
    if n > 0 {
        lemma_value_count(fields, bytes, (n - 1) as nat);
    }
}

/// A row has a value for each field of its type.
pub proof fn as_many_values_as_fields(row: RowView, bytes: Seq<u8>)
    ensures
        row_values(row, bytes) matches Ok(values) ==> values.len() == row.fields.len(),
{
    if let Some(fields) = fields_of(row) {
        lemma_value_count(fields, bytes, fields.len());
    }
}

/// The bytes of the values of the first `n` fields that are not null, one after
/// the other.
pub open spec fn value_bytes(fields: Seq<ValueWriter>, values: Seq<DatumView>, n: nat) -> Seq<u8>
    decreases n,
{
    if n == 0 {
        Seq::empty()
    } else if values[n - 1] is Null {
        value_bytes(fields, values, (n - 1) as nat)
    } else {
        value_bytes(fields, values, (n - 1) as nat) + compacted_row_writer::compacted_bytes(
            fields[n - 1].kind.item(values[n - 1])->0,
        )
    }
}

/// How a row lies in bytes: as many bytes as take a bit for every field, the bit of
/// a field set where it is null, and then the values of the other fields, in their
/// order.
pub proof fn rows_are_bits_and_values(fields: Seq<ValueWriter>, values: Seq<DatumView>)
    requires
        row_keeps_to_fields(fields, values),
    ensures
        ({
            let bytes = encoded_row(fields, values);
            let header = (fields.len() + 7) / 8;
            &&& header <= bytes.len()
            &&& bytes.skip(header as int) == value_bytes(fields, values, fields.len())
            &&& forall|i: int|
                0 <= i < fields.len() ==> compacted_row_writer::has_bit(bytes[i / 8], i % 8)
                    == #[trigger] (values[i] is Null)
        }),
{
    lemma_written(fields, values, fields.len());
    lemma_values_follow(fields, values, fields.len());
    let bytes = encoded_row(fields, values);
    assert forall|i: int| 0 <= i < fields.len() implies compacted_row_writer::has_bit(
        bytes[i / 8],
        i % 8,
    ) == #[trigger] (values[i] is Null) by {
        assert(null_bit(bytes, i) == (i < fields.len() && fields[i].nullable && values[i] is Null));
        if values[i] is Null && !fields[i].nullable {
            field_kind::nulls_are_no_items(fields[i].kind);
        }
    }
}

proof fn lemma_values_follow(fields: Seq<ValueWriter>, values: Seq<DatumView>, n: nat)
    requires
        n <= fields.len(),
        row_keeps_to_fields(fields, values),
    ensures
        compacted_row_writer::header_size(fields.len() as int) <= written_fields(
            fields,
            values,
            n,
        ).len(),
        written_fields(fields, values, n).skip(
            compacted_row_writer::header_size(fields.len() as int),
        ) == value_bytes(fields, values, n),
    decreases n,
{
    let header = compacted_row_writer::header_size(fields.len() as int);
    if n == 0 {
        assert(written_fields(fields, values, n).skip(header) =~= Seq::<u8>::empty());
    } else {
        let m = (n - 1) as nat;
        let before = written_fields(fields, values, m);
        lemma_values_follow(fields, values, m);
        assert(m as int / 8 < header);
        field_kind::nulls_are_no_items(fields[m as int].kind);
        if values[m as int] is Null {
            assert(fields[m as int].nullable);
            assert(written_fields(fields, values, n).skip(header) =~= before.skip(header));
        } else {
            let own = compacted_row_writer::compacted_bytes(
                fields[m as int].kind.item(values[m as int])->0,
            );
            assert((before + own).skip(header) =~= before.skip(header) + own);
        }
    }
}

/// Any byte but zero is a true boolean.
pub proof fn booleans_are_zero_or_not(bytes: Seq<u8>)
    requires
        bytes.len() > 0,
    ensures
        read_at(FieldKind::Boolean, bytes) == Some((DatumView::Bool(bytes[0] != 0), 1nat)),
{
}

/// Rows of types that cannot be compacted have no values, and of others as many as
/// they have fields, if any.
pub proof fn rows_have_values_for_their_fields(row: RowView, bytes: Seq<u8>)
    ensures
        row_values(row, bytes) matches Ok(values) ==> values.len() == row.fields.len(),
        (exists|i: int|
            0 <= i < row.fields.len() && field_kind::kind_of((#[trigger] row.fields[i]).data_type)
                is None) ==> row_values(row, bytes) is Err,
        row_values(row, bytes) matches Err(e) ==> e is RowConvertError,
        bytes.len() < (row.fields.len() + 7) / 8 ==> row_values(row, bytes) is Err,
{
    as_many_values_as_fields(row, bytes);
    if let Some(fields) = fields_of(row) {
        lemma_short_header(fields, bytes, fields.len());
    }
}

proof fn lemma_short_header(fields: Seq<ValueWriter>, bytes: Seq<u8>, n: nat)
    ensures
        bytes.len() < (fields.len() + 7) / 8 ==> read_fields(fields, bytes, n) is None,
    decreases n,
{
    if n > 0 {
        lemma_short_header(fields, bytes, (n - 1) as nat);
    }
}

/// Numbers of 32 and 64 bits are read in two's complement, and not at all where
/// they have more bits.
pub proof fn numbers_in_twos_complement(v: nat, rest: Seq<u8>)
    ensures
        ({
            let bytes = varint::varint(v) + rest;
            let used = varint::varint(v).len();
            &&& v <= 0x7fff_ffff ==> int_at(bytes) == Some((v as int, used))
            &&& 0x7fff_ffff < v <= 0xffff_ffff ==> int_at(bytes) == Some(
                (v - 0x1_0000_0000, used),
            )
            &&& v > 0xffff_ffff ==> int_at(bytes) is None
            &&& v <= 0x7fff_ffff_ffff_ffff ==> long_at(bytes) == Some((v as int, used))
            &&& 0x7fff_ffff_ffff_ffff < v <= 0xffff_ffff_ffff_ffff ==> long_at(bytes) == Some(
                (v - 0x1_0000_0000_0000_0000, used),
            )
            &&& v > 0xffff_ffff_ffff_ffff ==> long_at(bytes) is None
        }),
{
    varint::pow128_values();
    lemma_varint_within(v, rest, 5);
    lemma_varint_within(v, rest, 10);
}

proof fn lemma_varint_within(v: nat, rest: Seq<u8>, max: nat)
    requires
        max > 0,
    ensures
        v < varint::pow128(max) ==> varint::varint_at(varint::varint(v) + rest, max) == Some(
            (v, varint::varint(v).len()),
        ),
        v >= varint::pow128(max) ==> varint::varint_at(varint::varint(v) + rest, max) is None,
    decreases max,
{
    if v < varint::pow128(max) {
        varint::varint_reads_back(v, rest, max);
    } else {
        let m = (max - 1) as nat;
        let bytes = varint::varint(v) + rest;
        assert(varint::pow128(max) == 128 * varint::pow128(m));
        assert(varint::pow128(m) > 0) by {
            lemma_pow128_positive(m);
        }
        assert(v >= 128);
        assert(bytes[0] == v % 128 + 128);
        assert(bytes.drop_first() =~= varint::varint(v / 128) + rest);
        if m > 0 {
            assert(v / 128 >= varint::pow128(m));
            lemma_varint_within(v / 128, rest, m);
        }
    }
}

proof fn lemma_pow128_positive(n: nat)
    ensures
        varint::pow128(n) > 0,
    decreases n,
{
    if n > 0 {
        lemma_pow128_positive((n - 1) as nat);
    }
}

/// A text or bytes are read where all of them are there: as many as their length
/// says, right behind it.
pub proof fn sized_values_are_whole(length: nat, rest: Seq<u8>)
    requires
        length <= 0xffff_ffff_ffff_ffff,
    ensures
        ({
            let bytes = varint::varint(length) + rest;
            &&& length <= rest.len() ==> sized_at(bytes) == Some(
                (rest.take(length as int), varint::varint(length).len() + length),
            )
            &&& length > rest.len() ==> sized_at(bytes) is None
        }),
{
    let bytes = varint::varint(length) + rest;
    varint::pow128_values();
    varint::varint_reads_back(length, rest, 10);
    if length <= rest.len() {
        let n = varint::varint(length).len();
        assert(bytes.subrange(n as int, (n + length) as int) =~= rest.take(length as int));
    }
}

/// Of an instant with more than three digits the nanoseconds are read behind the
/// milliseconds, and have to be less than a millisecond; with up to three digits
/// there are none.
pub proof fn instants_are_read(millis: i64, nanos: i32, precision: u32, rest: Seq<u8>)
    ensures
        ({
            let first = compacted_row_writer::compacted_bytes(Item::Long(millis));
            let second = compacted_row_writer::compacted_bytes(Item::Int(nanos));
            &&& precision <= 3 ==> instant_at(precision, first + rest) == Some(
                (millis as int, 0int, first.len()),
            )
            &&& precision > 3 && 0 <= nanos <= 999_999 ==> instant_at(
                precision,
                first + second + rest,
            ) == Some((millis as int, nanos as int, first.len() + second.len()))
            &&& precision > 3 && !(0 <= nanos <= 999_999) ==> instant_at(
                precision,
                first + second + rest,
            ) is None
        }),
{
    let first = compacted_row_writer::compacted_bytes(Item::Long(millis));
    let second = compacted_row_writer::compacted_bytes(Item::Int(nanos));
    lemma_long_back(millis as int, rest);
    lemma_long_back(millis as int, second + rest);
    lemma_int_back(nanos as int, rest);
    assert(first + (second + rest) =~= first + second + rest);
    assert((first + second + rest).skip(first.len() as int) =~= second + rest);
}

/// A row that cannot be read has in every field the reason.
pub proof fn unreadable_rows_say_why(row: RowView, bytes: Seq<u8>, i: int)
    requires
        0 <= i < row.fields.len(),
    ensures
        match row_values(row, bytes) {
            Ok(values) => readable_row(row, bytes) == values,
            Err(e) => readable_row(row, bytes).len() == row.fields.len() && readable_row(
                row,
                bytes,
            )[i] == DatumView::Unreadable(e),
        },
{
}

/// Writing a field sets its bit where it is null, and that bit alone; otherwise it
/// puts the bytes of its value behind what is there.
pub proof fn fields_are_written(f: ValueWriter, before: Seq<u8>, i: int, j: int, v: DatumView)
    requires
        0 <= i,
        i / 8 < before.len(),
        0 <= j,
        j / 8 < before.len(),
    ensures
        f.nullable && v is Null ==> {
            let after = write_field(f, before, i, v);
            &&& after.len() == before.len()
            &&& compacted_row_writer::has_bit(after[i / 8], i % 8)
            &&& i != j ==> compacted_row_writer::has_bit(after[j / 8], j % 8)
                == compacted_row_writer::has_bit(before[j / 8], j % 8)
            &&& j / 8 != i / 8 ==> after[j / 8] == before[j / 8]
        },
        !(f.nullable && v is Null) ==> write_field(f, before, i, v) == before
            + compacted_row_writer::compacted_bytes(f.kind.item(v)->0),
{
    compacted_row_writer::bit_is_set(before[i / 8], i % 8, j % 8);
}

} // verus!
