//! Writing rows in the compacted format.

use bytes::Bytes;
use vstd::prelude::*;

use crate::byte_buffer::{self, copy_bytes};
use crate::little_endian::{self, i16_to_le, u32_to_le, u64_to_le};
use crate::row::binary::binary_writer::{BinaryWriter, Item, WriterState};
use crate::row::compacted::varint::{self, push_varint};
use crate::row::datum::{TimestampLtz, TimestampNtz};
use crate::row::decimal::{self, Decimal, MAX_COMPACT_PRECISION};

verus! {

/// The largest precision at which a timestamp has no nanoseconds.
pub const MAX_COMPACT_TIMESTAMP_PRECISION: u32 = 3;

/// A 32-bit integer by its bits.
pub open spec fn int_bytes(v: int) -> Seq<u8> {
    varint::varint((v % 0x1_0000_0000) as nat)
}

/// A 64-bit integer by its bits.
pub open spec fn long_bytes(v: int) -> Seq<u8> {
    varint::varint((v % 0x1_0000_0000_0000_0000) as nat)
}

/// Bytes after their length.
pub open spec fn sized_bytes(v: Seq<u8>) -> Seq<u8> {
    varint::varint(v.len()) + v
}

/// The bytes of a value in the compacted format.
pub open spec fn compacted_bytes(item: Item) -> Seq<u8> {
    match item {
        Item::Boolean(v) => seq![if v { 1u8 } else { 0u8 }],
        Item::Byte(v) => seq![v],
        Item::Bytes(v) => sized_bytes(v),
        Item::Char(v, _) => sized_bytes(vstd::utf8::encode_utf8(v)),
        Item::String(v) => sized_bytes(vstd::utf8::encode_utf8(v)),
        Item::Short(v) => little_endian::le_bytes(v as int, 2),
        Item::Int(v) => int_bytes(v as int),
        Item::Long(v) => long_bytes(v as int),
        Item::Float(bits) => little_endian::le_bytes(bits as int, 4),
        Item::Double(bits) => little_endian::le_bytes(bits as int, 8),
        Item::Binary(v, length) => sized_bytes(
            v.take(
                if length < v.len() {
                    length
                } else {
                    v.len() as int
                },
            ),
        ),
        Item::Decimal(v, precision) => if precision <= MAX_COMPACT_PRECISION {
            long_bytes(v.unscaled)
        } else {
            sized_bytes(decimal::minimal_bytes(v.unscaled))
        },
        Item::Time(v, _) => int_bytes(v as int),
        Item::TimestampNtz(v, precision) => if precision <= MAX_COMPACT_TIMESTAMP_PRECISION {
            long_bytes(v.millisecond as int)
        } else {
            long_bytes(v.millisecond as int) + int_bytes(v.nano_of_millisecond as int)
        },
        Item::TimestampLtz(v, precision) => if precision <= MAX_COMPACT_TIMESTAMP_PRECISION {
            long_bytes(v.epoch_millisecond as int)
        } else {
            long_bytes(v.epoch_millisecond as int) + int_bytes(v.nano_of_millisecond as int)
        },
        Item::Array(v) => sized_bytes(v),
    }
}

/// How many bytes hold a bit for each of `count` fields.
pub open spec fn header_size(count: int) -> int {
    (count + 7) / 8
}

/// A byte with one bit set.
pub open spec fn with_bit(b: u8, bit: int) -> u8 {
    b | (1u8 << (bit as u8))
}

/// Whether a bit of a byte is set.
pub open spec fn has_bit(b: u8, bit: int) -> bool {
    (b >> (bit as u8)) & 1u8 == 1u8
}

/// Setting a bit sets that bit, and no other.
pub proof fn bit_is_set(b: u8, bit: int, other: int)
    requires
        0 <= bit < 8,
        0 <= other < 8,
    ensures
        has_bit(with_bit(b, bit), bit),
        bit != other ==> has_bit(with_bit(b, bit), other) == has_bit(b, other),
        !has_bit(0, bit),
{
    let i = bit as u8;
    let j = other as u8;
    assert(((b | (1u8 << i)) >> i) & 1u8 == 1u8) by (bit_vector)
        requires
            i < 8,
    ;
    assert(i != j ==> ((b | (1u8 << i)) >> j) & 1u8 == (b >> j) & 1u8) by (bit_vector)
        requires
            i < 8,
            j < 8,
    ;
    assert((0u8 >> i) & 1u8 == 0u8) by (bit_vector);
}

/// Writes rows in the compacted format.
pub struct CompactedRowWriter {
    header: usize,
    buffer: Vec<u8>,
}

impl CompactedRowWriter {
    /// A writer of rows with this number of fields.
    pub fn new(field_count: usize) -> (r: Self)
        ensures
            r.valid(),
            r.start() == Seq::new(header_size(field_count as int) as nat, |i: int| 0u8),
            r.written() == r.start(),
    {
        let header: usize = field_count / 8 + if field_count % 8 == 0 {
            0
        } else {
            1
        };
        let mut r = CompactedRowWriter { header, buffer: Vec::new() };
        r.clear();
        r
    }

    /// A writer of values alone, none of which is null.
    pub fn without_header() -> (r: Self)
        ensures
            r.valid(),
            r.start() == Seq::<u8>::empty(),
            r.written() == r.start(),
    {
        let r = CompactedRowWriter { header: 0, buffer: Vec::new() };
        assert(r.start() =~= Seq::<u8>::empty());
        r
    }

    fn clear(&mut self)
        ensures
            final(self).valid(),
            final(self).header == old(self).header,
            final(self).written() == final(self).start(),
    {
        let mut buffer: Vec<u8> = Vec::new();
        let mut i: usize = 0;
        while i < self.header
            invariant
                i <= self.header,
                buffer@ == Seq::new(i as nat, |j: int| 0u8),
            decreases self.header - i,
        {
            buffer.push(0);
            assert(buffer@ =~= Seq::new((i + 1) as nat, |j: int| 0u8));
            i = i + 1;
        }
        self.buffer = buffer;
    }

    pub fn buffer(&self) -> (r: &[u8])
        ensures
            r@ == self.written(),
    {
        self.buffer.as_slice()
    }

    pub fn to_bytes(&self) -> (r: Bytes)
        ensures
            byte_buffer::contents(r) == self.written(),
    {
        copy_bytes(self.buffer.as_slice())
    }

    fn push_all(&mut self, src: &[u8])
        requires
            old(self).valid(),
        ensures
            final(self).valid(),
            final(self).header == old(self).header,
            final(self).written() == old(self).written() + src@,
    {
        let ghost before = self.buffer@;
        let mut i: usize = 0;
        while i < src.len()
            invariant
                i <= src@.len(),
                self.header == old(self).header,
                self.valid(),
                self.buffer@ == before + src@.take(i as int),
            decreases src@.len() - i,
        {
            self.buffer.push(src[i]);
            assert(self.buffer@ =~= before + src@.take(i + 1));
            i = i + 1;
        }
        assert(src@.take(i as int) =~= src@);
    }

    fn push_number(&mut self, v: u64)
        requires
            old(self).valid(),
        ensures
            final(self).valid(),
            final(self).header == old(self).header,
            final(self).written() == old(self).written() + varint::varint(v as nat),
    {
        let mut bytes: Vec<u8> = Vec::new();
        push_varint(&mut bytes, v);
        assert(bytes@ =~= varint::varint(v as nat));
        self.push_all(bytes.as_slice());
    }

    fn push_sized(&mut self, src: &[u8])
        requires
            old(self).valid(),
        ensures
            final(self).valid(),
            final(self).header == old(self).header,
            final(self).written() == old(self).written() + sized_bytes(src@),
    {
        self.push_number(src.len() as u64);
        self.push_all(src);
        assert(self.written() =~= old(self).written() + sized_bytes(src@));
    }

    fn push_long(&mut self, v: i64)
        requires
            old(self).valid(),
        ensures
            final(self).valid(),
            final(self).header == old(self).header,
            final(self).written() == old(self).written() + long_bytes(v as int),
    {
        self.push_number(little_endian::bits_of(v));
    }

    fn push_int(&mut self, v: i32)
        requires
            old(self).valid(),
        ensures
            final(self).valid(),
            final(self).header == old(self).header,
            final(self).written() == old(self).written() + int_bytes(v as int),
    {
        let bits: u64 = if v >= 0 {
            v as u64
        } else {
            (v as i64 + 0x1_0000_0000) as u64
        };
        self.push_number(bits);
    }
}

impl WriterState for CompactedRowWriter {
    closed spec fn written(&self) -> Seq<u8> {
        self.buffer@
    }

    open spec fn size(&self) -> int {
        0
    }

    open spec fn size_after(&self, need: int) -> int {
        0
    }

    open spec fn fits(&self, need: int) -> bool {
        true
    }

    closed spec fn valid(&self) -> bool {
        self.header <= self.buffer@.len()
    }

    open spec fn bytes_of(item: Item) -> Seq<u8> {
        compacted_bytes(item)
    }

    closed spec fn start(&self) -> Seq<u8> {
        Seq::new(self.header as nat, |i: int| 0u8)
    }

    open spec fn takes(item: Item) -> bool {
        true
    }

    open spec fn takes_null(&self, pos: int) -> bool {
        pos / 8 < self.start().len()
    }

    open spec fn nulled(&self, pos: int) -> Seq<u8> {
        self.written().update(pos / 8, with_bit(self.written()[pos / 8], pos % 8))
    }
}

impl BinaryWriter for CompactedRowWriter {
    fn reset(&mut self) {
        self.clear();
    }

    fn set_null_at(&mut self, pos: usize) {
        let place: usize = pos / 8;
        let bit: u8 = (pos % 8) as u8;
        let byte: u8 = self.buffer[place];
        self.buffer.set(place, byte | (1u8 << bit));
    }

    fn write_boolean(&mut self, value: bool) {
        self.buffer.push(if value { 1u8 } else { 0u8 });
        assert(self.written() =~= old(self).written() + compacted_bytes(Item::Boolean(value)));
    }

    fn write_byte(&mut self, value: u8) {
        self.buffer.push(value);
        assert(self.written() =~= old(self).written() + compacted_bytes(Item::Byte(value)));
    }

    fn write_bytes(&mut self, value: &[u8]) {
        self.push_sized(value);
    }

    fn write_char(&mut self, value: &str, _length: usize) {
        self.push_sized(value.as_bytes());
    }

    fn write_string(&mut self, value: &str) {
        self.push_sized(value.as_bytes());
    }

    fn write_short(&mut self, value: i16) {
        self.push_all(i16_to_le(value).as_slice());
    }

    fn write_int(&mut self, value: i32) {
        self.push_int(value);
    }

    fn write_long(&mut self, value: i64) {
        self.push_long(value);
    }

    fn write_float(&mut self, bits: u32) {
        self.push_all(u32_to_le(bits).as_slice());
    }

    fn write_double(&mut self, bits: u64) {
        self.push_all(u64_to_le(bits).as_slice());
    }

    fn write_binary(&mut self, bytes: &[u8], length: usize) {
        let n: usize = if length < bytes.len() {
            length
        } else {
            bytes.len()
        };
        let part = vstd::slice::slice_subrange(bytes, 0, n);
        assert(part@ =~= bytes@.take(n as int));
        self.push_sized(part);
    }

    fn write_decimal(&mut self, value: &Decimal, precision: u32) {
        if precision <= MAX_COMPACT_PRECISION {
            let bits: u64 = low_bits(value.unscaled());
            self.push_number(bits);
        } else {
            self.push_sized(value.to_unscaled_bytes().as_slice());
        }
    }

    fn write_time(&mut self, value: i32, _precision: u32) {
        self.push_int(value);
    }

    fn write_timestamp_ntz(&mut self, value: &TimestampNtz, precision: u32) {
        self.push_long(value.get_millisecond());
        if precision > MAX_COMPACT_TIMESTAMP_PRECISION {
            self.push_int(value.get_nano_of_millisecond());
            assert(self.written() =~= old(self).written() + compacted_bytes(
                Item::TimestampNtz(*value, precision),
            ));
        }
    }

    fn write_timestamp_ltz(&mut self, value: &TimestampLtz, precision: u32) {
        self.push_long(value.get_epoch_millisecond());
        if precision > MAX_COMPACT_TIMESTAMP_PRECISION {
            self.push_int(value.get_nano_of_millisecond());
            assert(self.written() =~= old(self).written() + compacted_bytes(
                Item::TimestampLtz(*value, precision),
            ));
        }
    }

    fn write_array(&mut self, value: &[u8]) {
        self.push_sized(value);
    }

    fn complete(&mut self) {
    }
}

/// The lowest 64 bits of an integer.
fn low_bits(v: i128) -> (r: u64)
    ensures
        r == v as int % 0x1_0000_0000_0000_0000,
{
    if v >= 0 {
        (v % 0x1_0000_0000_0000_0000) as u64
    } else {
        let m: i128 = -(v + 1);
        let r: u64 = (0xffff_ffff_ffff_ffff - m % 0x1_0000_0000_0000_0000) as u64;
        assert(v as int == 0x1_0000_0000_0000_0000 * (-(m as int / 0x1_0000_0000_0000_0000) - 1)
            + r);
        r
    }
}

/// How values lie in compacted bytes. Integers of 32 and 64 bits, and what is
/// counted in them, are variable-length numbers, negative ones in two's complement;
/// texts and bytes come behind their length; what is fixed in size has its lowest
/// byte first.
pub proof fn compacted_values(item: Item)
    ensures
        ({
            let bytes = compacted_bytes(item);
            &&& item matches Item::Boolean(v) ==> bytes.len() == 1 && bytes[0] == (if v {
                1int
            } else {
                0
            })
            &&& item matches Item::Byte(v) ==> bytes == seq![v]
            &&& item matches Item::Short(v) ==> bytes.len() == 2 && little_endian::le_signed(bytes)
                == v
            &&& item matches Item::Int(v) ==> number_bytes(v as int, 0x1_0000_0000, bytes)
            &&& item matches Item::Time(v, _) ==> number_bytes(v as int, 0x1_0000_0000, bytes)
            &&& item matches Item::Long(v) ==> number_bytes(
                v as int,
                0x1_0000_0000_0000_0000,
                bytes,
            )
            &&& item matches Item::Float(bits) ==> bytes.len() == 4 && little_endian::le_value(
                bytes,
            ) == bits
            &&& item matches Item::Double(bits) ==> bytes.len() == 8 && little_endian::le_value(
                bytes,
            ) == bits
            &&& item matches Item::Bytes(v) ==> bytes == varint::varint(v.len()) + v
            &&& item matches Item::Array(v) ==> bytes == varint::varint(v.len()) + v
            &&& item matches Item::String(v) ==> bytes == varint::varint(
                vstd::utf8::encode_utf8(v).len(),
            ) + vstd::utf8::encode_utf8(v)
            &&& item matches Item::Char(v, _) ==> bytes == compacted_bytes(Item::String(v))
            &&& item matches Item::Binary(v, length) ==> {
                &&& v.len() <= length ==> bytes == compacted_bytes(Item::Bytes(v))
                &&& 0 <= length < v.len() ==> bytes == compacted_bytes(
                    Item::Bytes(v.take(length)),
                )
            }
        }),
{
    little_endian::span_values();
    match item {
        Item::Short(v) => {
            little_endian::le_bytes_len(v as int, 2);
            little_endian::le_signed_of_bytes(v as int, 2);
        },
        Item::Float(bits) => {
            little_endian::le_bytes_len(bits as int, 4);
            little_endian::le_value_of_bytes(bits as int, 4);
        },
        Item::Double(bits) => {
            little_endian::le_bytes_len(bits as int, 8);
            little_endian::le_value_of_bytes(bits as int, 8);
        },
        Item::Binary(v, length) => {
            assert(v.take(v.len() as int) =~= v);
        },
        _ => {},
    }
}

/// Whether bytes are those of a number in two's complement of a width.
pub open spec fn number_bytes(v: int, width: int, bytes: Seq<u8>) -> bool {
    &&& v >= 0 ==> bytes == varint::varint(v as nat)
    &&& v < 0 ==> bytes == varint::varint((v + width) as nat)
}

/// Decimals of up to 18 digits are written as 64-bit integers, longer ones as the
/// bytes of their unscaled value. Timestamps of up to three digits are their
/// milliseconds; finer ones have their nanoseconds behind.
pub proof fn precision_decides(item: Item)
    requires
        item matches Item::Decimal(v, precision) ==> precision <= 18 ==> i64::MIN <= v.unscaled
            <= i64::MAX,
    ensures
        ({
            let bytes = compacted_bytes(item);
            &&& item matches Item::Decimal(v, precision) ==> {
                &&& precision <= 18 ==> bytes == compacted_bytes(Item::Long(v.unscaled as i64))
                &&& precision > 18 ==> bytes == compacted_bytes(
                    Item::Bytes(decimal::minimal_bytes(v.unscaled)),
                )
            }
            &&& item matches Item::TimestampNtz(v, precision) ==> {
                let millis = compacted_bytes(Item::Long(v.millisecond));
                &&& precision <= 3 ==> bytes == millis
                &&& precision > 3 ==> bytes == millis + compacted_bytes(
                    Item::Int(v.nano_of_millisecond),
                )
            }
            &&& item matches Item::TimestampLtz(v, precision) ==> {
                let millis = compacted_bytes(Item::Long(v.epoch_millisecond));
                &&& precision <= 3 ==> bytes == millis
                &&& precision > 3 ==> bytes == millis + compacted_bytes(
                    Item::Int(v.nano_of_millisecond),
                )
            }
        }),
{
}

/// The bits of a byte count from the lowest.
pub proof fn bits_count_from_the_lowest(b: u8)
    ensures
        has_bit(b, 0) == (b % 2 == 1),
        has_bit(b, 1) == (b / 2 % 2 == 1),
        has_bit(b, 2) == (b / 4 % 2 == 1),
        has_bit(b, 3) == (b / 8 % 2 == 1),
        has_bit(b, 4) == (b / 16 % 2 == 1),
        has_bit(b, 5) == (b / 32 % 2 == 1),
        has_bit(b, 6) == (b / 64 % 2 == 1),
        has_bit(b, 7) == (b / 128 % 2 == 1),
{
    assert(((b >> 0u8) & 1u8 == 1u8) == (b % 2 == 1) && ((b >> 1u8) & 1u8 == 1u8) == ((b / 2) % 2
        == 1) && ((b >> 2u8) & 1u8 == 1u8) == ((b / 4) % 2 == 1) && ((b >> 3u8) & 1u8 == 1u8) == ((b
        / 8) % 2 == 1) && ((b >> 4u8) & 1u8 == 1u8) == ((b / 16) % 2 == 1) && ((b >> 5u8) & 1u8
        == 1u8) == ((b / 32) % 2 == 1) && ((b >> 6u8) & 1u8 == 1u8) == ((b / 64) % 2 == 1) && ((b
        >> 7u8) & 1u8 == 1u8) == ((b / 128) % 2 == 1)) by (bit_vector);
}

} // verus!
