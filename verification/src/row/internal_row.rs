//! Reading the fields of a row.

use vstd::prelude::*;

use crate::error::{Error, ErrorView, Result};
use crate::row::datum::{self, Date, DatumView, FlussArray, Time, TimestampLtz, TimestampNtz};
use crate::row::decimal::{Decimal, DecimalView};
use crate::row::datum_text;
use crate::row::generic_row::GenericRow;
use crate::text::{self, u64_to_text};

verus! {

/// The error for a position that a row does not have.
pub open spec fn out_of_bounds(pos: int, count: int) -> ErrorView {
    ErrorView::IllegalArgument(
        "position "@ + text::nat_text(pos as nat) + " out of bounds (row has "@ + text::nat_text(
            count as nat,
        ) + " fields)"@,
    )
}

/// The error for a value, printed as `shown`, that is not of the expected kind.
pub open spec fn mismatch(pos: int, expected: Seq<char>, shown: Seq<char>) -> ErrorView {
    ErrorView::IllegalArgument(
        "type mismatch at position "@ + text::nat_text(pos as nat) + ": expected "@ + expected
            + ", got "@ + shown,
    )
}

/// The error for a field whose value is not of the expected kind, or cannot be
/// read at all.
pub open spec fn no_such_value(pos: int, expected: Seq<char>, value: DatumView) -> ErrorView {
    match value {
        DatumView::Unreadable(e) => e,
        _ => mismatch(pos, expected, datum_text::datum_text(value)),
    }
}

/// Whether a result is what reading a field gives: the value `found` in it, or
/// the error that there is no such field or no such value in it.
pub open spec fn reads<T>(
    r: core::result::Result<T, ErrorView>,
    row: Seq<DatumView>,
    pos: int,
    expected: Seq<char>,
    found: Option<T>,
) -> bool {
    match r {
        Ok(v) => pos < row.len() && found == Some(v),
        Err(e) => if pos >= row.len() {
            e == out_of_bounds(pos, row.len() as int)
        } else {
            found is None && e == no_such_value(pos, expected, row[pos])
        },
    }
}

/// A result by what it holds.
pub open spec fn result_view<T: View>(r: Result<T>) -> core::result::Result<T::V, ErrorView> {
    match r {
        Ok(v) => Ok(v@),
        Err(e) => Err(e@),
    }
}

impl DatumView {
    pub open spec fn as_bool(self) -> Option<bool> {
        match self {
            DatumView::Bool(v) => Some(v),
            _ => None,
        }
    }

    pub open spec fn as_byte(self) -> Option<i8> {
        match self {
            DatumView::Int8(v) => Some(v),
            _ => None,
        }
    }

    pub open spec fn as_short(self) -> Option<i16> {
        match self {
            DatumView::Int16(v) => Some(v),
            _ => None,
        }
    }

    pub open spec fn as_int(self) -> Option<i32> {
        match self {
            DatumView::Int32(v) => Some(v),
            _ => None,
        }
    }

    pub open spec fn as_long(self) -> Option<i64> {
        match self {
            DatumView::Int64(v) => Some(v),
            _ => None,
        }
    }

    pub open spec fn as_float(self) -> Option<u32> {
        match self {
            DatumView::Float32(v) => Some(v),
            _ => None,
        }
    }

    pub open spec fn as_double(self) -> Option<u64> {
        match self {
            DatumView::Float64(v) => Some(v),
            _ => None,
        }
    }

    pub open spec fn as_text(self) -> Option<Seq<char>> {
        match self {
            DatumView::String(v) => Some(v),
            _ => None,
        }
    }

    pub open spec fn as_decimal(self) -> Option<DecimalView> {
        match self {
            DatumView::Decimal(v) => Some(v),
            _ => None,
        }
    }

    /// A day, also where it is held as a plain number.
    pub open spec fn as_date(self) -> Option<Date> {
        match self {
            DatumView::Date(v) => Some(Date(v)),
            DatumView::Int32(v) => Some(Date(v)),
            _ => None,
        }
    }

    /// A time of day, also where it is held as a plain number.
    pub open spec fn as_time(self) -> Option<Time> {
        match self {
            DatumView::Time(v) => Some(Time(v)),
            DatumView::Int32(v) => Some(Time(v)),
            _ => None,
        }
    }

    pub open spec fn as_timestamp_ntz(self) -> Option<TimestampNtz> {
        match self {
            DatumView::TimestampNtz(v) => Some(v),
            _ => None,
        }
    }

    pub open spec fn as_timestamp_ltz(self) -> Option<TimestampLtz> {
        match self {
            DatumView::TimestampLtz(v) => Some(v),
            _ => None,
        }
    }

    pub open spec fn as_blob(self) -> Option<Seq<u8>> {
        match self {
            DatumView::Blob(v) => Some(v),
            _ => None,
        }
    }

    pub open spec fn as_array(self) -> Option<Seq<u8>> {
        match self {
            DatumView::Array(v) => Some(v),
            _ => None,
        }
    }

    pub open spec fn as_row(self) -> Option<Seq<DatumView>> {
        match self {
            DatumView::Row(v) => Some(v),
            _ => None,
        }
    }
}

/// The formats that rows are written in.
#[derive(Debug, Clone, Copy, PartialEq, Eq, Structural)]
pub enum WriteFormat {
    ArrowLog,
    CompactedLog,
    CompactedKv,
}

/// A row whose fields can be read.
pub trait InternalRow: Send + Sync {
    /// The values of the fields.
    spec fn row(&self) -> Seq<DatumView>;

    /// Returns the number of fields in this row
    fn get_field_count(&self) -> (r: usize)
        ensures
            r == self.row().len(),
    ;

    /// Returns true if the element is null at the given position
    fn is_null_at(&self, pos: usize) -> (r: Result<bool>)
        ensures
            match r {
                Ok(b) => pos < self.row().len() && !(self.row()[pos as int] is Unreadable) && b == (
                self.row()[pos as int] is Null),
                Err(e) => if pos >= self.row().len() {
                    e@ == out_of_bounds(pos as int, self.row().len() as int)
                } else {
                    self.row()[pos as int] == DatumView::Unreadable(e@)
                },
            },
    ;

    /// Returns the boolean value at the given position
    fn get_boolean(&self, pos: usize) -> (r: Result<bool>)
        ensures
            reads(
                crate::error::err_view(r),
                self.row(),
                pos as int,
                "Boolean"@,
                self.row()[pos as int].as_bool(),
            ),
    ;

    /// Returns the byte value at the given position
    fn get_byte(&self, pos: usize) -> (r: Result<i8>)
        ensures
            reads(
                crate::error::err_view(r),
                self.row(),
                pos as int,
                "TinyInt"@,
                self.row()[pos as int].as_byte(),
            ),
    ;

    /// Returns the short value at the given position
    fn get_short(&self, pos: usize) -> (r: Result<i16>)
        ensures
            reads(
                crate::error::err_view(r),
                self.row(),
                pos as int,
                "SmallInt"@,
                self.row()[pos as int].as_short(),
            ),
    ;

    /// Returns the integer value at the given position
    fn get_int(&self, pos: usize) -> (r: Result<i32>)
        ensures
            reads(
                crate::error::err_view(r),
                self.row(),
                pos as int,
                "Int"@,
                self.row()[pos as int].as_int(),
            ),
    ;

    /// Returns the long value at the given position
    fn get_long(&self, pos: usize) -> (r: Result<i64>)
        ensures
            reads(
                crate::error::err_view(r),
                self.row(),
                pos as int,
                "BigInt"@,
                self.row()[pos as int].as_long(),
            ),
    ;

    /// Returns the bits of the float value at the given position
    fn get_float(&self, pos: usize) -> (r: Result<u32>)
        ensures
            reads(
                crate::error::err_view(r),
                self.row(),
                pos as int,
                "Float"@,
                self.row()[pos as int].as_float(),
            ),
    ;

    /// Returns the bits of the double value at the given position
    fn get_double(&self, pos: usize) -> (r: Result<u64>)
        ensures
            reads(
                crate::error::err_view(r),
                self.row(),
                pos as int,
                "Double"@,
                self.row()[pos as int].as_double(),
            ),
    ;

    /// Returns the string value at the given position with fixed length.
    /// The length is not checked.
    fn get_char(&self, pos: usize, length: usize) -> (r: Result<&str>)
        ensures
            reads(
                result_view(r),
                self.row(),
                pos as int,
                "String"@,
                self.row()[pos as int].as_text(),
            ),
    ;

    /// Returns the string value at the given position
    fn get_string(&self, pos: usize) -> (r: Result<&str>)
        ensures
            reads(
                result_view(r),
                self.row(),
                pos as int,
                "String"@,
                self.row()[pos as int].as_text(),
            ),
    ;

    /// Returns the decimal value at the given position
    fn get_decimal(&self, pos: usize, precision: usize, scale: usize) -> (r: Result<Decimal>)
        ensures
            reads(
                result_view(r),
                self.row(),
                pos as int,
                "Decimal"@,
                self.row()[pos as int].as_decimal(),
            ),
    ;

    /// Returns the date value at the given position (date as days since epoch)
    fn get_date(&self, pos: usize) -> (r: Result<Date>)
        ensures
            reads(
                crate::error::err_view(r),
                self.row(),
                pos as int,
                "Date or Int32"@,
                self.row()[pos as int].as_date(),
            ),
    ;

    /// Returns the time value at the given position (time as milliseconds since midnight)
    fn get_time(&self, pos: usize) -> (r: Result<Time>)
        ensures
            reads(
                crate::error::err_view(r),
                self.row(),
                pos as int,
                "Time or Int32"@,
                self.row()[pos as int].as_time(),
            ),
    ;

    /// Returns the timestamp value at the given position (timestamp without timezone)
    fn get_timestamp_ntz(&self, pos: usize, precision: u32) -> (r: Result<TimestampNtz>)
        ensures
            reads(
                crate::error::err_view(r),
                self.row(),
                pos as int,
                "TimestampNtz"@,
                self.row()[pos as int].as_timestamp_ntz(),
            ),
    ;

    /// Returns the timestamp value at the given position (timestamp with local timezone)
    fn get_timestamp_ltz(&self, pos: usize, precision: u32) -> (r: Result<TimestampLtz>)
        ensures
            reads(
                crate::error::err_view(r),
                self.row(),
                pos as int,
                "TimestampLtz"@,
                self.row()[pos as int].as_timestamp_ltz(),
            ),
    ;

    /// Returns the binary value at the given position with fixed length.
    /// The length is not checked.
    fn get_binary(&self, pos: usize, length: usize) -> (r: Result<&[u8]>)
        ensures
            reads(
                result_view(r),
                self.row(),
                pos as int,
                "Binary"@,
                self.row()[pos as int].as_blob(),
            ),
    ;

    /// Returns the binary value at the given position
    fn get_bytes(&self, pos: usize) -> (r: Result<&[u8]>)
        ensures
            reads(
                result_view(r),
                self.row(),
                pos as int,
                "Bytes"@,
                self.row()[pos as int].as_blob(),
            ),
    ;

    /// Returns the array value at the given position
    fn get_array(&self, pos: usize) -> (r: Result<FlussArray>)
        ensures
            reads(
                result_view(r),
                self.row(),
                pos as int,
                "Array"@,
                self.row()[pos as int].as_array(),
            ),
    ;

    /// Returns the nested row value at the given position
    fn get_row(&self, pos: usize) -> (r: Result<&GenericRow<'_>>)
        ensures
            r matches Ok(v) ==> pos < self.row().len() && self.row()[pos as int]
                == DatumView::Row(datum::datum_views(v.values@)),
        default_ensures
            r is Err,
            r->Err_0@ == ErrorView::IllegalArgument(
                "get_row not supported at position "@ + text::nat_text(pos as nat),
            ),
    {
        let mut message = "get_row not supported at position ".to_owned();
        message.append(u64_to_text(pos as u64).as_str());
        Err(Error::illegal_argument(message))
    }

    /// Returns encoded bytes if already encoded
    fn as_encoded_bytes(&self, write_format: WriteFormat) -> (r: Option<&[u8]>)
        default_ensures
            r is None,
    {
        None
    }
}

/// A value is of one type and is had as that type alone, as it is; a plain 32-bit
/// number is a day and a time of day too.
pub proof fn values_are_of_one_type(v: DatumView)
    ensures
        v.as_bool() is Some <==> v is Bool,
        v matches DatumView::Bool(x) ==> v.as_bool() == Some(x),
        v.as_byte() is Some <==> v is Int8,
        v matches DatumView::Int8(x) ==> v.as_byte() == Some(x),
        v.as_short() is Some <==> v is Int16,
        v matches DatumView::Int16(x) ==> v.as_short() == Some(x),
        v.as_int() is Some <==> v is Int32,
        v matches DatumView::Int32(x) ==> v.as_int() == Some(x),
        v.as_long() is Some <==> v is Int64,
        v matches DatumView::Int64(x) ==> v.as_long() == Some(x),
        v.as_float() is Some <==> v is Float32,
        v matches DatumView::Float32(x) ==> v.as_float() == Some(x),
        v.as_double() is Some <==> v is Float64,
        v matches DatumView::Float64(x) ==> v.as_double() == Some(x),
        v.as_text() is Some <==> v is String,
        v matches DatumView::String(x) ==> v.as_text() == Some(x),
        v.as_decimal() is Some <==> v is Decimal,
        v matches DatumView::Decimal(x) ==> v.as_decimal() == Some(x),
        v.as_timestamp_ntz() is Some <==> v is TimestampNtz,
        v matches DatumView::TimestampNtz(x) ==> v.as_timestamp_ntz() == Some(x),
        v.as_timestamp_ltz() is Some <==> v is TimestampLtz,
        v matches DatumView::TimestampLtz(x) ==> v.as_timestamp_ltz() == Some(x),
        v.as_blob() is Some <==> v is Blob,
        v matches DatumView::Blob(x) ==> v.as_blob() == Some(x),
        v.as_array() is Some <==> v is Array,
        v matches DatumView::Array(x) ==> v.as_array() == Some(x),
        v.as_row() is Some <==> v is Row,
        v matches DatumView::Row(x) ==> v.as_row() == Some(x),
        v.as_date() is Some <==> v is Date || v is Int32,
        v matches DatumView::Date(x) ==> v.as_date() == Some(Date(x)),
        v matches DatumView::Int32(x) ==> v.as_date() == Some(Date(x)),
        v.as_time() is Some <==> v is Time || v is Int32,
        v matches DatumView::Time(x) ==> v.as_time() == Some(Time(x)),
        v matches DatumView::Int32(x) ==> v.as_time() == Some(Time(x)),
{
}

/// Reading a field has one outcome: its value where the row has the field and it
/// is of the type; else an error, which is that of the value where it could not be
/// read.
pub proof fn fields_read_one_way<T>(
    r: core::result::Result<T, ErrorView>,
    s: core::result::Result<T, ErrorView>,
    row: Seq<DatumView>,
    pos: int,
    expected: Seq<char>,
    found: Option<T>,
)
    requires
        0 <= pos,
        reads(r, row, pos, expected, found),
        reads(s, row, pos, expected, found),
    ensures
        r == s,
        r is Ok <==> pos < row.len() && found is Some,
        r matches Ok(v) ==> found == Some(v),
        r matches Err(e) ==> {
            if pos < row.len() && row[pos] is Unreadable {
                row[pos] == DatumView::Unreadable(e)
            } else {
                e is IllegalArgument
            }
        },
{
}

} // verus!
