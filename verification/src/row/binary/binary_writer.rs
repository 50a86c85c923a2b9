//! What every binary row format has in common.

use vstd::prelude::*;

use crate::row::datum::{TimestampLtz, TimestampNtz};
use crate::row::decimal::{Decimal, DecimalView};

verus! {

/// A value as a writer is given it, with what the format may need to know of
/// its type.
pub enum Item {
    Boolean(bool),
    Byte(u8),
    Bytes(Seq<u8>),
    Char(Seq<char>, int),
    String(Seq<char>),
    Short(i16),
    Int(i32),
    Long(i64),
    /// The bits of a single-precision number.
    Float(u32),
    /// The bits of a double-precision number.
    Double(u64),
    /// Bytes, of which at most a number are written.
    Binary(Seq<u8>, int),
    Decimal(DecimalView, u32),
    Time(i32, u32),
    TimestampNtz(TimestampNtz, u32),
    TimestampLtz(TimestampLtz, u32),
    Array(Seq<u8>),
}

/// What there is to know of a writer.
pub trait WriterState: Sized {
    /// The bytes written so far.
    spec fn written(&self) -> Seq<u8>;

    /// The size of the buffer behind them.
    spec fn size(&self) -> int;

    /// The size of the buffer once `need` more bytes have found room in it.
    spec fn size_after(&self, need: int) -> int;

    /// Whether the machine has room for `need` more bytes.
    spec fn fits(&self, need: int) -> bool;

    /// Whether the writer is in order.
    spec fn valid(&self) -> bool;

    /// The bytes of a value in the writer's format.
    spec fn bytes_of(item: Item) -> Seq<u8>;

    /// The bytes of a row before any value is written.
    spec fn start(&self) -> Seq<u8>;

    /// Whether values of this kind can be written.
    spec fn takes(item: Item) -> bool;

    /// Whether the field at a position can be marked as null.
    spec fn takes_null(&self, pos: int) -> bool;

    /// The bytes once the field at a position is marked as null.
    spec fn nulled(&self, pos: int) -> Seq<u8>;
}

/// Whether an item was written, and nothing else changed.
pub open spec fn wrote<W: WriterState>(before: W, after: W, item: Item) -> bool {
    &&& after.valid()
    &&& after.written() == before.written() + W::bytes_of(item)
    &&& after.size() == before.size_after(W::bytes_of(item).len() as int)
    &&& after.start() == before.start()
}

/// Writes the values of a row as bytes, one after the other.
pub trait BinaryWriter: WriterState {
    /// Starts a new row.
    fn reset(&mut self)
        requires
            old(self).valid(),
        ensures
            final(self).valid(),
            final(self).written() == old(self).start(),
            final(self).start() == old(self).start(),
            final(self).size() == old(self).size(),
    ;

    /// Marks the field at a position as null.
    fn set_null_at(&mut self, pos: usize)
        requires
            old(self).valid(),
            old(self).takes_null(pos as int),
        ensures
            final(self).valid(),
            final(self).written() == old(self).nulled(pos as int),
            final(self).start() == old(self).start(),
            final(self).size() == old(self).size(),
    ;

    fn write_boolean(&mut self, value: bool)
        requires
            old(self).valid(),
            old(self).fits(Self::bytes_of(Item::Boolean(value)).len() as int),
        ensures
            wrote(*old(self), *final(self), Item::Boolean(value)),
    ;

    fn write_byte(&mut self, value: u8)
        requires
            old(self).valid(),
            old(self).fits(Self::bytes_of(Item::Byte(value)).len() as int),
        ensures
            wrote(*old(self), *final(self), Item::Byte(value)),
    ;

    fn write_bytes(&mut self, value: &[u8])
        requires
            old(self).valid(),
            old(self).fits(Self::bytes_of(Item::Bytes(value@)).len() as int),
        ensures
            wrote(*old(self), *final(self), Item::Bytes(value@)),
    ;

    fn write_char(&mut self, value: &str, length: usize)
        requires
            old(self).valid(),
            old(self).fits(Self::bytes_of(Item::Char(value@, length as int)).len() as int),
        ensures
            wrote(*old(self), *final(self), Item::Char(value@, length as int)),
    ;

    fn write_string(&mut self, value: &str)
        requires
            old(self).valid(),
            old(self).fits(Self::bytes_of(Item::String(value@)).len() as int),
        ensures
            wrote(*old(self), *final(self), Item::String(value@)),
    ;

    fn write_short(&mut self, value: i16)
        requires
            old(self).valid(),
            old(self).fits(Self::bytes_of(Item::Short(value)).len() as int),
        ensures
            wrote(*old(self), *final(self), Item::Short(value)),
    ;

    fn write_int(&mut self, value: i32)
        requires
            old(self).valid(),
            old(self).fits(Self::bytes_of(Item::Int(value)).len() as int),
        ensures
            wrote(*old(self), *final(self), Item::Int(value)),
    ;

    fn write_long(&mut self, value: i64)
        requires
            old(self).valid(),
            old(self).fits(Self::bytes_of(Item::Long(value)).len() as int),
        ensures
            wrote(*old(self), *final(self), Item::Long(value)),
    ;

    /// Writes a single-precision number, given by its bits.
    fn write_float(&mut self, bits: u32)
        requires
            old(self).valid(),
            old(self).fits(Self::bytes_of(Item::Float(bits)).len() as int),
        ensures
            wrote(*old(self), *final(self), Item::Float(bits)),
    ;

    /// Writes a double-precision number, given by its bits.
    fn write_double(&mut self, bits: u64)
        requires
            old(self).valid(),
            old(self).fits(Self::bytes_of(Item::Double(bits)).len() as int),
        ensures
            wrote(*old(self), *final(self), Item::Double(bits)),
    ;

    fn write_binary(&mut self, bytes: &[u8], length: usize)
        requires
            old(self).valid(),
            old(self).fits(Self::bytes_of(Item::Binary(bytes@, length as int)).len() as int),
        ensures
            wrote(*old(self), *final(self), Item::Binary(bytes@, length as int)),
    ;

    fn write_decimal(&mut self, value: &Decimal, precision: u32)
        requires
            old(self).valid(),
            old(self).fits(Self::bytes_of(Item::Decimal(value@, precision)).len() as int),
        ensures
            wrote(*old(self), *final(self), Item::Decimal(value@, precision)),
    ;

    fn write_time(&mut self, value: i32, precision: u32)
        requires
            old(self).valid(),
            old(self).fits(Self::bytes_of(Item::Time(value, precision)).len() as int),
        ensures
            wrote(*old(self), *final(self), Item::Time(value, precision)),
    ;

    fn write_timestamp_ntz(&mut self, value: &TimestampNtz, precision: u32)
        requires
            old(self).valid(),
            old(self).fits(Self::bytes_of(Item::TimestampNtz(*value, precision)).len() as int),
        ensures
            wrote(*old(self), *final(self), Item::TimestampNtz(*value, precision)),
    ;

    fn write_timestamp_ltz(&mut self, value: &TimestampLtz, precision: u32)
        requires
            old(self).valid(),
            old(self).fits(Self::bytes_of(Item::TimestampLtz(*value, precision)).len() as int),
        ensures
            wrote(*old(self), *final(self), Item::TimestampLtz(*value, precision)),
    ;

    /// Writes an array in its binary form, where the format takes arrays.
    fn write_array(&mut self, value: &[u8])
        requires
            old(self).valid(),
            Self::takes(Item::Array(value@)),
            old(self).fits(Self::bytes_of(Item::Array(value@)).len() as int),
        ensures
            wrote(*old(self), *final(self), Item::Array(value@)),
    ;

    /// Finishes a row.
    fn complete(&mut self)
        requires
            old(self).valid(),
        ensures
            final(self).valid(),
            final(self).written() == old(self).written(),
            final(self).start() == old(self).start(),
            final(self).size() == old(self).size(),
    ;
}

} // verus!
