//! Writing key columns as Iceberg hashes them.

use bytes::{Bytes, BytesMut};
use vstd::prelude::*;

use crate::byte_buffer::{
    self, buffer_len, buffer_slice, buffer_slice_mut, copy_bytes, grow, zeroed,
};
use crate::error::{Error, ErrorView, Result};
use crate::little_endian::{self, i16_to_le, i64_to_le, u32_to_le, u64_to_le};
use crate::metadata::datatype::{DataType, TypeView};
use crate::row::binary::binary_writer::{BinaryWriter, Item, WriterState};
use crate::row::datum::{TimestampLtz, TimestampNtz};
use crate::row::decimal::{self, Decimal};
use crate::row::field_kind::{self, unsupported_type, FieldKind, ValueWriter};

verus! {

const MICROS_PER_MILLI: i64 = 1_000;

/// The size that a buffer starts with.
pub const INITIAL_SIZE: usize = 64;

/// Iceberg-specific binary writer for encoding key columns.
///
/// This writer follows Iceberg's encoding conventions:
/// - Integers (int, date) are written as i64 (8 bytes, little-endian)
/// - Time values are converted from milliseconds to microseconds
/// - Timestamps are converted to microseconds
/// - Floats/doubles use fixed-width little-endian encoding
/// - Variable-length types (string, binary) are written without length prefixes
/// - Decimals are written as unscaled big-endian bytes without length prefixes
///
/// The encoded bytes feed directly into the MurmurHash of Iceberg's bucketing
/// for bucket assignment and must match the Fluss server's encoding exactly.
pub struct IcebergBinaryRowWriter {
    position: usize,
    buffer: BytesMut,
}

/// The size of a buffer of `size` bytes, `used` of them written, once `need`
/// more bytes have found room in it.
pub open spec fn grown(size: int, used: int, need: int) -> int {
    if size - used < need {
        if 2 * size >= size + need {
            2 * size
        } else {
            size + need
        }
    } else {
        size
    }
}

/// A buffer grows to at most twice what is written to it.
pub proof fn grown_bound(size: int, used: int, need: int)
    requires
        0 <= used <= size,
        0 <= need,
    ensures
        size <= grown(size, used, need),
        used + need <= grown(size, used, need),
        grown(size, used, need) <= size || grown(size, used, need) <= 2 * (used + need),
{
}

/// Milliseconds and nanoseconds as microseconds, the rest cut off.
pub open spec fn micros(millis: int, nanos: int) -> int {
    1000 * millis + if nanos >= 0 {
        nanos / 1000
    } else {
        -((-nanos) / 1000)
    }
}

/// The bytes of a value in Iceberg's encoding.
pub open spec fn iceberg_bytes(item: Item) -> Seq<u8> {
    match item {
        Item::Boolean(v) => seq![if v { 1u8 } else { 0u8 }],
        Item::Byte(v) => seq![v],
        Item::Bytes(v) => v,
        Item::Char(v, _) => vstd::utf8::encode_utf8(v),
        Item::String(v) => vstd::utf8::encode_utf8(v),
        Item::Short(v) => little_endian::le_bytes(v as int, 2),
        Item::Int(v) => little_endian::le_bytes(v as int, 8),
        Item::Long(v) => little_endian::le_bytes(v as int, 8),
        Item::Float(bits) => little_endian::le_bytes(bits as int, 4),
        Item::Double(bits) => little_endian::le_bytes(bits as int, 8),
        Item::Binary(v, length) => v.take(
            if length < v.len() {
                length
            } else {
                v.len() as int
            },
        ),
        Item::Decimal(v, _) => decimal::minimal_bytes(v.unscaled),
        Item::Time(v, _) => little_endian::le_bytes(1000 * v, 8),
        Item::TimestampNtz(v, _) => little_endian::le_bytes(
            micros(v.millisecond as int, v.nano_of_millisecond as int),
            8,
        ),
        Item::TimestampLtz(v, _) => little_endian::le_bytes(
            micros(v.epoch_millisecond as int, v.nano_of_millisecond as int),
            8,
        ),
        Item::Array(v) => v,
    }
}

/// The kind of the values of a type that can be a key.
pub open spec fn iceberg_kind(t: TypeView) -> Option<FieldKind> {
    match t {
        TypeView::Int(_)
        | TypeView::Date(_)
        | TypeView::Time(_)
        | TypeView::BigInt(_)
        | TypeView::Float(_)
        | TypeView::Double(_)
        | TypeView::Timestamp(_)
        | TypeView::Decimal(_)
        | TypeView::String(_)
        | TypeView::Char(_)
        | TypeView::Binary(_)
        | TypeView::Bytes(_) => field_kind::kind_of(t),
        _ => None,
    }
}

/// Whether an error says why a type cannot be a key.
pub open spec fn refuses_type(e: ErrorView, t: TypeView) -> bool {
    match t {
        TypeView::Array(_, _) => e == ErrorView::UnsupportedOperation(
            "Array types cannot be used as bucket keys. Bucket keys must be scalar types."@,
        ),
        TypeView::Mapping(_, _, _) => e == ErrorView::UnsupportedOperation(
            "Map types cannot be used as bucket keys. Bucket keys must be scalar types."@,
        ),
        _ => e == field_kind::unsupported("Unsupported type for Iceberg binary row writer: "@, t),
    }
}

/// Cropping an integer to 64 bits takes a multiple of 2^64 off it.
proof fn lemma_crop(x: int) -> (k: int)
    ensures
        x == vstd::wrapping::i64_specs::signed_crop(x) + k * 0x1_0000_0000_0000_0000,
{
    let r = 0x1_0000_0000_0000_0000int;
    let k = if x % r > i64::MAX {
        x / r + 1
    } else {
        x / r
    };
    assert(x == r * (x / r) + x % r);
    k
}

/// Wrapping arithmetic gives the lowest 64 bits of the number of microseconds.
proof fn lemma_wrapping_micros(millis: i64, extra: i64)
    ensures
        little_endian::le_bytes(
            vstd::wrapping::i64_specs::wrapping_add(
                vstd::wrapping::i64_specs::wrapping_mul(millis, MICROS_PER_MILLI),
                extra,
            ) as int,
            8,
        ) == little_endian::le_bytes(1000 * millis + extra, 8),
{
    let r = 0x1_0000_0000_0000_0000int;
    little_endian::span_values();
    let product = vstd::wrapping::i64_specs::wrapping_mul(millis, MICROS_PER_MILLI);
    let k = lemma_crop(millis * MICROS_PER_MILLI);
    let sum = vstd::wrapping::i64_specs::wrapping_add(product, extra);
    let j = if product + extra > i64::MAX {
        1int
    } else if product + extra < i64::MIN {
        -1int
    } else {
        0int
    };
    assert(1000 * millis + extra == sum + (j + k) * r);
    little_endian::le_bytes_wrap(sum as int, j + k, 8);
}

/// Milliseconds and nanoseconds as the bytes of microseconds. The number wraps
/// around where it does not fit.
fn micros_bytes(millis: i64, nanos: i32) -> (r: Vec<u8>)
    ensures
        r@ == little_endian::le_bytes(micros(millis as int, nanos as int), 8),
{
    let extra: i64 = (nanos as i64) / MICROS_PER_MILLI;
    let micros: i64 = millis.wrapping_mul(MICROS_PER_MILLI).wrapping_add(extra);
    proof {
        lemma_wrapping_micros(millis, extra);
    }
    i64_to_le(micros)
}

impl Default for IcebergBinaryRowWriter {
    fn default() -> (r: Self)
        ensures
            r.valid(),
            r.written() == Seq::<u8>::empty(),
            r.size() == INITIAL_SIZE,
    {
        Self::new()
    }
}

impl IcebergBinaryRowWriter {
    pub fn new() -> (r: Self)
        ensures
            r.valid(),
            r.written() == Seq::<u8>::empty(),
            r.size() == INITIAL_SIZE,
    {
        let buffer = zeroed(INITIAL_SIZE);
        let r = IcebergBinaryRowWriter { position: 0, buffer };
        assert(r.written() =~= Seq::<u8>::empty());
        r
    }

    /// A writer for the values of a type that can be a key.
    pub fn create_value_writer(field_type: &DataType) -> (r: Result<ValueWriter>)
        ensures
            match r {
                Ok(w) => iceberg_kind(field_type@) == Some(w.kind) && w.nullable
                    == field_type@.nullable(),
                Err(e) => iceberg_kind(field_type@) is None && refuses_type(e@, field_type@),
            },
    {
        match field_type {
            DataType::Int(_)
            | DataType::Date(_)
            | DataType::Time(_)
            | DataType::BigInt(_)
            | DataType::Float(_)
            | DataType::Double(_)
            | DataType::Timestamp(_)
            | DataType::Decimal(_)
            | DataType::String(_)
            | DataType::Char(_)
            | DataType::Binary(_)
            | DataType::Bytes(_) => ValueWriter::create_value_writer(field_type),
            DataType::Array(_) => Err(
                Error::unsupported(
                    "Array types cannot be used as bucket keys. Bucket keys must be scalar types.",
                ),
            ),
            DataType::Mapping(_) => Err(
                Error::unsupported(
                    "Map types cannot be used as bucket keys. Bucket keys must be scalar types.",
                ),
            ),
            _ => Err(
                unsupported_type("Unsupported type for Iceberg binary row writer: ", field_type),
            ),
        }
    }

    pub fn position(&self) -> (r: usize)
        requires
            self.valid(),
        ensures
            r == self.written().len(),
    {
        self.position
    }

    pub fn buffer(&self) -> (r: &[u8])
        requires
            self.valid(),
        ensures
            r@ == self.written(),
    {
        let all = buffer_slice(&self.buffer);
        let r = vstd::slice::slice_subrange(all, 0, self.position);
        assert(r@ =~= self.written());
        r
    }

    pub fn to_bytes(&self) -> (r: Bytes)
        requires
            self.valid(),
        ensures
            byte_buffer::contents(r) == self.written(),
    {
        copy_bytes(self.buffer())
    }

    /// Makes room for `need_len` more bytes.
    fn ensure_capacity(&mut self, need_len: usize)
        requires
            old(self).valid(),
            old(self).fits(need_len as int),
        ensures
            final(self).valid(),
            final(self).position == old(self).position,
            final(self).written() == old(self).written(),
            final(self).size() == grown(
                old(self).size(),
                old(self).position as int,
                need_len as int,
            ),
    {
        let len: usize = buffer_len(&self.buffer);
        if len - self.position < need_len {
            let new_len: usize = if need_len <= len {
                len * 2
            } else {
                len + need_len
            };
            grow(&mut self.buffer, new_len);
        }
        assert(self.written() =~= old(self).written());
    }

    /// Appends bytes.
    fn write_raw(&mut self, src: &[u8])
        requires
            old(self).valid(),
            old(self).fits(src@.len() as int),
        ensures
            final(self).valid(),
            final(self).written() == old(self).written() + src@,
            final(self).size() == grown(
                old(self).size(),
                old(self).written().len() as int,
                src@.len() as int,
            ),
    {
        self.ensure_capacity(src.len());
        let start: usize = self.position;
        let end: usize = start + src.len();
        let ghost before = byte_buffer::buffer_contents(self.buffer);
        let target = buffer_slice_mut(&mut self.buffer);
        let mut i: usize = 0;
        while i < src.len()
            invariant
                i <= src@.len(),
                start + src@.len() == end,
                end <= before.len(),
                target@.len() == before.len(),
                forall|j: int| 0 <= j < start ==> target@[j] == before[j],
                forall|j: int| 0 <= j < i ==> target@[start + j] == #[trigger] src@[j],
            decreases src@.len() - i,
        {
            target[start + i] = src[i];
            i = i + 1;
        }
        self.position = end;
        proof {
            let after = byte_buffer::buffer_contents(self.buffer);
            assert forall|k: int| 0 <= k < end implies after[k] == (before.take(start as int)
                + src@)[k] by {
                if k >= start {
                    assert(after[start + (k - start)] == src@[k - start]);
                }
            }
            assert(self.written() =~= old(self).written() + src@);
        }
    }
}

/// A writer has room for as many bytes more as make up half of what a buffer can
/// hold, with those that are written.
pub proof fn half_fits(writer: IcebergBinaryRowWriter, need: int)
    requires
        writer.valid(),
        0 <= need,
        2 * (writer.written().len() + need) <= byte_buffer::buffer_limit(),
    ensures
        writer.fits(need),
{
    grown_bound(writer.size(), writer.written().len() as int, need);
}

impl WriterState for IcebergBinaryRowWriter {
    closed spec fn written(&self) -> Seq<u8> {
        byte_buffer::buffer_contents(self.buffer).take(self.position as int)
    }

    closed spec fn size(&self) -> int {
        byte_buffer::buffer_contents(self.buffer).len() as int
    }

    open spec fn size_after(&self, need: int) -> int {
        grown(self.size(), self.written().len() as int, need)
    }

    open spec fn fits(&self, need: int) -> bool {
        self.size_after(need) <= byte_buffer::buffer_limit()
    }

    closed spec fn valid(&self) -> bool {
        self.position <= byte_buffer::buffer_contents(self.buffer).len()
            <= byte_buffer::buffer_limit()
    }

    open spec fn bytes_of(item: Item) -> Seq<u8> {
        iceberg_bytes(item)
    }

    open spec fn start(&self) -> Seq<u8> {
        Seq::empty()
    }

    open spec fn takes(item: Item) -> bool {
        !(item is Array)
    }

    open spec fn takes_null(&self, pos: int) -> bool {
        false
    }

    open spec fn nulled(&self, pos: int) -> Seq<u8> {
        self.written()
    }
}

impl BinaryWriter for IcebergBinaryRowWriter {
    fn reset(&mut self) {
        let n: usize = self.position;
        let ghost before = byte_buffer::buffer_contents(self.buffer);
        let target = buffer_slice_mut(&mut self.buffer);
        let mut i: usize = 0;
        while i < n
            invariant
                i <= n <= target@.len(),
                target@.len() == before.len(),
            decreases n - i,
        {
            target[i] = 0;
            i = i + 1;
        }
        self.position = 0;
        assert(self.written() =~= Seq::<u8>::empty());
    }

    /// Key columns are never null.
    fn set_null_at(&mut self, _pos: usize) {
    }

    fn write_boolean(&mut self, value: bool) {
        let byte: [u8; 1] = [if value { 1u8 } else { 0u8 }];
        assert(byte@ =~= iceberg_bytes(Item::Boolean(value)));
        self.write_raw(&byte);
    }

    fn write_byte(&mut self, value: u8) {
        let byte: [u8; 1] = [value];
        assert(byte@ =~= iceberg_bytes(Item::Byte(value)));
        self.write_raw(&byte);
    }

    fn write_bytes(&mut self, value: &[u8]) {
        self.write_raw(value);
    }

    fn write_char(&mut self, value: &str, _length: usize) {
        self.write_raw(value.as_bytes());
    }

    fn write_string(&mut self, value: &str) {
        self.write_raw(value.as_bytes());
    }

    fn write_short(&mut self, value: i16) {
        self.write_raw(i16_to_le(value).as_slice());
    }

    fn write_int(&mut self, value: i32) {
        self.write_raw(i64_to_le(value as i64).as_slice());
    }

    fn write_long(&mut self, value: i64) {
        self.write_raw(i64_to_le(value).as_slice());
    }

    fn write_float(&mut self, bits: u32) {
        self.write_raw(u32_to_le(bits).as_slice());
    }

    fn write_double(&mut self, bits: u64) {
        self.write_raw(u64_to_le(bits).as_slice());
    }

    fn write_binary(&mut self, bytes: &[u8], length: usize) {
        let n: usize = if length < bytes.len() {
            length
        } else {
            bytes.len()
        };
        let part = vstd::slice::slice_subrange(bytes, 0, n);
        assert(part@ =~= iceberg_bytes(Item::Binary(bytes@, length as int)));
        self.write_raw(part);
    }

    fn write_decimal(&mut self, value: &Decimal, _precision: u32) {
        self.write_raw(value.to_unscaled_bytes().as_slice());
    }

    fn write_time(&mut self, value: i32, _precision: u32) {
        let micros: i64 = (value as i64).wrapping_mul(MICROS_PER_MILLI);
        proof {
            little_endian::span_values();
            let k = lemma_crop(value * MICROS_PER_MILLI);
            little_endian::le_bytes_wrap(micros as int, k, 8);
        }
        self.write_raw(i64_to_le(micros).as_slice());
    }

    fn write_timestamp_ntz(&mut self, value: &TimestampNtz, _precision: u32) {
        let bytes = micros_bytes(value.get_millisecond(), value.get_nano_of_millisecond());
        self.write_raw(bytes.as_slice());
    }

    fn write_timestamp_ltz(&mut self, value: &TimestampLtz, _precision: u32) {
        let bytes = micros_bytes(value.get_epoch_millisecond(), value.get_nano_of_millisecond());
        self.write_raw(bytes.as_slice());
    }

    /// Key columns are never arrays.
    fn write_array(&mut self, value: &[u8]) {
        self.write_raw(value);
    }

    fn complete(&mut self) {
    }
}

/// How values lie in Iceberg's bytes: integers as eight bytes with the lowest
/// first, times of day and timestamps as their microseconds in such bytes, decimals
/// as the bytes of their unscaled value, texts and bytes as they are.
pub proof fn iceberg_values(item: Item)
    ensures
        ({
            let bytes = iceberg_bytes(item);
            &&& item matches Item::Boolean(v) ==> bytes.len() == 1 && bytes[0] == (if v {
                1int
            } else {
                0
            })
            &&& item matches Item::Byte(v) ==> bytes == seq![v]
            &&& item matches Item::Short(v) ==> bytes.len() == 2 && little_endian::le_signed(bytes)
                == v
            &&& item matches Item::Int(v) ==> long_bytes(v as int, bytes)
            &&& item matches Item::Long(v) ==> long_bytes(v as int, bytes)
            &&& item matches Item::Time(v, _) ==> long_bytes(1000 * v, bytes)
            &&& item matches Item::Float(bits) ==> bytes.len() == 4 && little_endian::le_value(
                bytes,
            ) == bits
            &&& item matches Item::Double(bits) ==> bytes.len() == 8 && little_endian::le_value(
                bytes,
            ) == bits
            &&& item matches Item::Bytes(v) ==> bytes == v
            &&& item matches Item::Array(v) ==> bytes == v
            &&& item matches Item::String(v) ==> bytes == vstd::utf8::encode_utf8(v)
            &&& item matches Item::Char(v, _) ==> bytes == vstd::utf8::encode_utf8(v)
            &&& item matches Item::Binary(v, length) ==> {
                &&& v.len() <= length ==> bytes == v
                &&& 0 <= length < v.len() ==> bytes == v.take(length)
            }
            &&& item matches Item::Decimal(v, _) ==> decimal::signed_value(bytes) == v.unscaled
                && bytes == decimal::minimal_bytes(v.unscaled)
            &&& item matches Item::TimestampNtz(v, _) ==> -9_000_000_000_000_000
                <= v.millisecond <= 9_000_000_000_000_000 ==> long_bytes(
                micros(v.millisecond as int, v.nano_of_millisecond as int),
                bytes,
            )
            &&& item matches Item::TimestampLtz(v, _) ==> -9_000_000_000_000_000
                <= v.epoch_millisecond <= 9_000_000_000_000_000 ==> long_bytes(
                micros(v.epoch_millisecond as int, v.nano_of_millisecond as int),
                bytes,
            )
        }),
{
    little_endian::span_values();
    match item {
        Item::Short(v) => {
            little_endian::le_bytes_len(v as int, 2);
            little_endian::le_signed_of_bytes(v as int, 2);
        },
        Item::Int(v) => {
            little_endian::le_bytes_len(v as int, 8);
            little_endian::le_signed_of_bytes(v as int, 8);
        },
        Item::Long(v) => {
            little_endian::le_bytes_len(v as int, 8);
            little_endian::le_signed_of_bytes(v as int, 8);
        },
        Item::Time(v, _) => {
            little_endian::le_bytes_len(1000 * v, 8);
            little_endian::le_signed_of_bytes(1000 * v, 8);
        },
        Item::Float(bits) => {
            little_endian::le_bytes_len(bits as int, 4);
            little_endian::le_value_of_bytes(bits as int, 4);
        },
        Item::Double(bits) => {
            little_endian::le_bytes_len(bits as int, 8);
            little_endian::le_value_of_bytes(bits as int, 8);
        },
        Item::Binary(v, length) => {
            assert(v.take(v.len() as int) =~= v);
        },
        Item::Decimal(v, _) => {
            decimal::minimal_bytes_read_back(v.unscaled);
        },
        Item::TimestampNtz(v, _) => {
            let m = micros(v.millisecond as int, v.nano_of_millisecond as int);
            little_endian::le_bytes_len(m, 8);
            if -9_000_000_000_000_000 <= v.millisecond <= 9_000_000_000_000_000 {
                little_endian::le_signed_of_bytes(m, 8);
            }
        },
        Item::TimestampLtz(v, _) => {
            let m = micros(v.epoch_millisecond as int, v.nano_of_millisecond as int);
            little_endian::le_bytes_len(m, 8);
            if -9_000_000_000_000_000 <= v.epoch_millisecond <= 9_000_000_000_000_000 {
                little_endian::le_signed_of_bytes(m, 8);
            }
        },
        _ => {},
    }
}

/// Whether bytes are those of a 64-bit integer, the lowest first.
pub open spec fn long_bytes(v: int, bytes: Seq<u8>) -> bool {
    bytes.len() == 8 && little_endian::le_signed(bytes) == v
}

/// The microseconds of an instant: its milliseconds and as many whole microseconds
/// as its nanoseconds hold.
pub proof fn whole_microseconds(millis: int, nanos: int)
    ensures
        nanos >= 0 ==> 1000 * micros(millis, nanos) <= 1_000_000 * millis + nanos < 1000 * micros(
            millis,
            nanos,
        ) + 1000,
        micros(millis, 0) == 1000 * millis,
        micros(millis + 1, nanos) == micros(millis, nanos) + 1000,
{
}

/// The types that Iceberg's keys can have.
pub proof fn iceberg_key_types(t: TypeView)
    ensures
        iceberg_kind(t) is Some <==> {
            ||| t is Int
            ||| t is Date
            ||| t is Time
            ||| t is BigInt
            ||| t is Float
            ||| t is Double
            ||| t is Timestamp
            ||| t is Decimal
            ||| t is String
            ||| t is Char
            ||| t is Binary
            ||| t is Bytes
        },
        iceberg_kind(t) is Some ==> iceberg_kind(t) == field_kind::kind_of(t),
{
}

} // verus!
