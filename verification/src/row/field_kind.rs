//! The kinds of values that fields hold, as they are read from rows and written
//! to bytes.

use std::borrow::Cow;

use vstd::prelude::*;

use crate::error::{Error, ErrorView, Result};
use crate::metadata::datatype::{DataType, RowType, RowView, TypeView};
use crate::metadata::type_text;
use crate::row::binary::binary_writer::{self, BinaryWriter, Item, WriterState};
use crate::row::datum::{Datum, DatumView};
use crate::row::datum_text;
use crate::row::generic_row::{cow_bytes, cow_str};
use crate::row::internal_row::{self, InternalRow};
use crate::text::{self, concat3, concat5, u64_to_text};

verus! {

/// A kind of value, with what its format may need to know of the type.
#[derive(Debug, Clone, Copy, PartialEq, Eq, Structural)]
pub enum FieldKind {
    Boolean,
    TinyInt,
    SmallInt,
    Int,
    BigInt,
    Float,
    Double,
    Char { length: u32 },
    String,
    Decimal { precision: u32, scale: u32 },
    Date,
    Time { precision: u32 },
    TimestampNtz { precision: u32 },
    TimestampLtz { precision: u32 },
    Bytes,
    Binary { length: u32 },
    Array,
}

/// The kind of the values of a type. Maps and rows have none.
pub open spec fn kind_of(t: TypeView) -> Option<FieldKind> {
    match t {
        TypeView::Boolean(_) => Some(FieldKind::Boolean),
        TypeView::TinyInt(_) => Some(FieldKind::TinyInt),
        TypeView::SmallInt(_) => Some(FieldKind::SmallInt),
        TypeView::Int(_) => Some(FieldKind::Int),
        TypeView::BigInt(_) => Some(FieldKind::BigInt),
        TypeView::Float(_) => Some(FieldKind::Float),
        TypeView::Double(_) => Some(FieldKind::Double),
        TypeView::Char(x) => Some(FieldKind::Char { length: x.length }),
        TypeView::String(_) => Some(FieldKind::String),
        TypeView::Decimal(x) => Some(
            FieldKind::Decimal { precision: x.precision, scale: x.scale },
        ),
        TypeView::Date(_) => Some(FieldKind::Date),
        TypeView::Time(x) => Some(FieldKind::Time { precision: x.precision }),
        TypeView::Timestamp(x) => Some(FieldKind::TimestampNtz { precision: x.precision }),
        TypeView::TimestampLTz(x) => Some(FieldKind::TimestampLtz { precision: x.precision }),
        TypeView::Bytes(_) => Some(FieldKind::Bytes),
        TypeView::Binary(x) => Some(FieldKind::Binary { length: x.length }),
        TypeView::Array(_, _) => Some(FieldKind::Array),
        TypeView::Mapping(_, _, _) => None,
        TypeView::Row(_) => None,
    }
}

impl FieldKind {
    /// The kind of the values of a type. Maps and rows have none.
    pub fn of(data_type: &DataType) -> (r: Option<FieldKind>)
        ensures
            r == kind_of(data_type@),
    {
        match data_type {
            DataType::Boolean(_) => Some(FieldKind::Boolean),
            DataType::TinyInt(_) => Some(FieldKind::TinyInt),
            DataType::SmallInt(_) => Some(FieldKind::SmallInt),
            DataType::Int(_) => Some(FieldKind::Int),
            DataType::BigInt(_) => Some(FieldKind::BigInt),
            DataType::Float(_) => Some(FieldKind::Float),
            DataType::Double(_) => Some(FieldKind::Double),
            DataType::Char(x) => Some(FieldKind::Char { length: x.length }),
            DataType::String(_) => Some(FieldKind::String),
            DataType::Decimal(x) => Some(
                FieldKind::Decimal { precision: x.precision, scale: x.scale },
            ),
            DataType::Date(_) => Some(FieldKind::Date),
            DataType::Time(x) => Some(FieldKind::Time { precision: x.precision }),
            DataType::Timestamp(x) => Some(FieldKind::TimestampNtz { precision: x.precision }),
            DataType::TimestampLTz(x) => Some(FieldKind::TimestampLtz { precision: x.precision }),
            DataType::Bytes(_) => Some(FieldKind::Bytes),
            DataType::Binary(x) => Some(FieldKind::Binary { length: x.length }),
            DataType::Array(_) => Some(FieldKind::Array),
            DataType::Mapping(_) => None,
            DataType::Row(_) => None,
        }
    }

    /// What a value is as one of this kind, if it is one.
    pub open spec fn read(self, v: DatumView) -> Option<DatumView> {
        match self {
            FieldKind::Boolean => match v.as_bool() {
                Some(x) => Some(DatumView::Bool(x)),
                None => None,
            },
            FieldKind::TinyInt => match v.as_byte() {
                Some(x) => Some(DatumView::Int8(x)),
                None => None,
            },
            FieldKind::SmallInt => match v.as_short() {
                Some(x) => Some(DatumView::Int16(x)),
                None => None,
            },
            FieldKind::Int => match v.as_int() {
                Some(x) => Some(DatumView::Int32(x)),
                None => None,
            },
            FieldKind::BigInt => match v.as_long() {
                Some(x) => Some(DatumView::Int64(x)),
                None => None,
            },
            FieldKind::Float => match v.as_float() {
                Some(x) => Some(DatumView::Float32(x)),
                None => None,
            },
            FieldKind::Double => match v.as_double() {
                Some(x) => Some(DatumView::Float64(x)),
                None => None,
            },
            FieldKind::Char { .. } | FieldKind::String => match v.as_text() {
                Some(x) => Some(DatumView::String(x)),
                None => None,
            },
            FieldKind::Decimal { .. } => match v.as_decimal() {
                Some(x) => Some(DatumView::Decimal(x)),
                None => None,
            },
            FieldKind::Date => match v.as_date() {
                Some(x) => Some(DatumView::Date(x.0)),
                None => None,
            },
            FieldKind::Time { .. } => match v.as_time() {
                Some(x) => Some(DatumView::Time(x.0)),
                None => None,
            },
            FieldKind::TimestampNtz { .. } => match v.as_timestamp_ntz() {
                Some(x) => Some(DatumView::TimestampNtz(x)),
                None => None,
            },
            FieldKind::TimestampLtz { .. } => match v.as_timestamp_ltz() {
                Some(x) => Some(DatumView::TimestampLtz(x)),
                None => None,
            },
            FieldKind::Bytes | FieldKind::Binary { .. } => match v.as_blob() {
                Some(x) => Some(DatumView::Blob(x)),
                None => None,
            },
            FieldKind::Array => match v.as_array() {
                Some(x) => Some(DatumView::Array(x)),
                None => None,
            },
        }
    }

    /// What the error for another kind of value says was expected.
    pub open spec fn expected(self) -> Seq<char> {
        match self {
            FieldKind::Boolean => "Boolean"@,
            FieldKind::TinyInt => "TinyInt"@,
            FieldKind::SmallInt => "SmallInt"@,
            FieldKind::Int => "Int"@,
            FieldKind::BigInt => "BigInt"@,
            FieldKind::Float => "Float"@,
            FieldKind::Double => "Double"@,
            FieldKind::Char { .. } | FieldKind::String => "String"@,
            FieldKind::Decimal { .. } => "Decimal"@,
            FieldKind::Date => "Date or Int32"@,
            FieldKind::Time { .. } => "Time or Int32"@,
            FieldKind::TimestampNtz { .. } => "TimestampNtz"@,
            FieldKind::TimestampLtz { .. } => "TimestampLtz"@,
            FieldKind::Bytes => "Bytes"@,
            FieldKind::Binary { .. } => "Binary"@,
            FieldKind::Array => "Array"@,
        }
    }

    /// A value of this kind as a writer is given it.
    pub open spec fn item(self, v: DatumView) -> Option<Item> {
        match (self, v) {
            (FieldKind::Boolean, DatumView::Bool(x)) => Some(Item::Boolean(x)),
            (FieldKind::TinyInt, DatumView::Int8(x)) => Some(Item::Byte(x as u8)),
            (FieldKind::SmallInt, DatumView::Int16(x)) => Some(Item::Short(x)),
            (FieldKind::Int, DatumView::Int32(x)) => Some(Item::Int(x)),
            (FieldKind::BigInt, DatumView::Int64(x)) => Some(Item::Long(x)),
            (FieldKind::Float, DatumView::Float32(x)) => Some(Item::Float(x)),
            (FieldKind::Double, DatumView::Float64(x)) => Some(Item::Double(x)),
            (FieldKind::Char { length }, DatumView::String(x)) => Some(
                Item::Char(x, length as int),
            ),
            (FieldKind::String, DatumView::String(x)) => Some(Item::String(x)),
            (FieldKind::Decimal { precision, .. }, DatumView::Decimal(x)) => Some(
                Item::Decimal(x, precision),
            ),
            (FieldKind::Date, DatumView::Date(x)) => Some(Item::Int(x)),
            (FieldKind::Time { precision }, DatumView::Time(x)) => Some(Item::Time(x, precision)),
            (FieldKind::TimestampNtz { precision }, DatumView::TimestampNtz(x)) => Some(
                Item::TimestampNtz(x, precision),
            ),
            (FieldKind::TimestampLtz { precision }, DatumView::TimestampLtz(x)) => Some(
                Item::TimestampLtz(x, precision),
            ),
            (FieldKind::Bytes, DatumView::Blob(x)) => Some(Item::Bytes(x)),
            (FieldKind::Binary { length }, DatumView::Blob(x)) => Some(
                Item::Binary(x, length as int),
            ),
            (FieldKind::Array, DatumView::Array(x)) => Some(Item::Array(x)),
            _ => None,
        }
    }
}

/// A value that was read as one of a kind can be written as one of that kind.
pub proof fn read_values_are_written(kind: FieldKind, v: DatumView)
    ensures
        kind.read(v) matches Some(x) ==> kind.item(x) is Some,
{
}

/// Reads one field of rows.
#[derive(Debug, Clone, Copy, PartialEq, Eq, Structural)]
pub struct FieldGetter {
    pub kind: FieldKind,
    pub nullable: bool,
    pub pos: usize,
}

impl FieldGetter {
    /// A getter for the field at a position, of a type that has a kind.
    pub fn create(data_type: &DataType, pos: usize) -> (r: FieldGetter)
        requires
            kind_of(data_type@) is Some,
        ensures
            r == (FieldGetter {
                kind: kind_of(data_type@)->0,
                nullable: data_type@.nullable(),
                pos,
            }),
    {
        FieldGetter {
            kind: FieldKind::of(data_type).unwrap(),
            nullable: data_type.is_nullable(),
            pos,
        }
    }

    /// The value of the field in a row that has it.
    pub open spec fn found(self, row: Seq<DatumView>) -> Option<DatumView> {
        let v = row[self.pos as int];
        if self.nullable && v is Null {
            Some(DatumView::Null)
        } else {
            self.kind.read(v)
        }
    }

    pub fn get_field<'a, R: InternalRow + ?Sized>(&self, row: &'a R) -> (r: Result<Datum<'a>>)
        ensures
            internal_row::reads(
                internal_row::result_view(r),
                row.row(),
                self.pos as int,
                self.kind.expected(),
                self.found(row.row()),
            ),
    {
        if self.nullable {
            match row.is_null_at(self.pos) {
                Ok(is_null) => {
                    if is_null {
                        return Ok(Datum::Null);
                    }
                },
                Err(e) => {
                    return Err(e);
                },
            }
        }
        let pos: usize = self.pos;
        match self.kind {
            FieldKind::Boolean => match row.get_boolean(pos) {
                Ok(v) => Ok(Datum::Bool(v)),
                Err(e) => Err(e),
            },
            FieldKind::TinyInt => match row.get_byte(pos) {
                Ok(v) => Ok(Datum::Int8(v)),
                Err(e) => Err(e),
            },
            FieldKind::SmallInt => match row.get_short(pos) {
                Ok(v) => Ok(Datum::Int16(v)),
                Err(e) => Err(e),
            },
            FieldKind::Int => match row.get_int(pos) {
                Ok(v) => Ok(Datum::Int32(v)),
                Err(e) => Err(e),
            },
            FieldKind::BigInt => match row.get_long(pos) {
                Ok(v) => Ok(Datum::Int64(v)),
                Err(e) => Err(e),
            },
            FieldKind::Float => match row.get_float(pos) {
                Ok(v) => Ok(Datum::Float32(v)),
                Err(e) => Err(e),
            },
            FieldKind::Double => match row.get_double(pos) {
                Ok(v) => Ok(Datum::Float64(v)),
                Err(e) => Err(e),
            },
            FieldKind::Char { length } => match row.get_char(pos, length as usize) {
                Ok(v) => Ok(Datum::String(Cow::Borrowed(v))),
                Err(e) => Err(e),
            },
            FieldKind::String => match row.get_string(pos) {
                Ok(v) => Ok(Datum::String(Cow::Borrowed(v))),
                Err(e) => Err(e),
            },
            FieldKind::Decimal { precision, scale } => match row.get_decimal(
                pos,
                precision as usize,
                scale as usize,
            ) {
                Ok(v) => Ok(Datum::Decimal(v)),
                Err(e) => Err(e),
            },
            FieldKind::Date => match row.get_date(pos) {
                Ok(v) => Ok(Datum::Date(v)),
                Err(e) => Err(e),
            },
            FieldKind::Time { .. } => match row.get_time(pos) {
                Ok(v) => Ok(Datum::Time(v)),
                Err(e) => Err(e),
            },
            FieldKind::TimestampNtz { precision } => match row.get_timestamp_ntz(pos, precision) {
                Ok(v) => Ok(Datum::TimestampNtz(v)),
                Err(e) => Err(e),
            },
            FieldKind::TimestampLtz { precision } => match row.get_timestamp_ltz(pos, precision) {
                Ok(v) => Ok(Datum::TimestampLtz(v)),
                Err(e) => Err(e),
            },
            FieldKind::Bytes => match row.get_bytes(pos) {
                Ok(v) => Ok(Datum::Blob(Cow::Borrowed(v))),
                Err(e) => Err(e),
            },
            FieldKind::Binary { length } => match row.get_binary(pos, length as usize) {
                Ok(v) => Ok(Datum::Blob(Cow::Borrowed(v))),
                Err(e) => Err(e),
            },
            FieldKind::Array => match row.get_array(pos) {
                Ok(v) => Ok(Datum::Array(v)),
                Err(e) => Err(e),
            },
        }
    }
}

/// A kind as diagnostics print it.
pub open spec fn kind_text(kind: FieldKind) -> Seq<char> {
    match kind {
        FieldKind::Boolean => "Boolean"@,
        FieldKind::TinyInt => "TinyInt"@,
        FieldKind::SmallInt => "SmallInt"@,
        FieldKind::Int => "Int"@,
        FieldKind::BigInt => "BigInt"@,
        FieldKind::Float => "Float"@,
        FieldKind::Double => "Double"@,
        FieldKind::Char { length } => "Char { length: "@ + text::nat_text(length as nat) + " }"@,
        FieldKind::String => "String"@,
        FieldKind::Decimal { precision, scale } => "Decimal { precision: "@ + text::nat_text(
            precision as nat,
        ) + ", scale: "@ + text::nat_text(scale as nat) + " }"@,
        FieldKind::Date => "Date"@,
        FieldKind::Time { precision } => "Time { precision: "@ + text::nat_text(precision as nat)
            + " }"@,
        FieldKind::TimestampNtz { precision } => "TimestampNtz { precision: "@ + text::nat_text(
            precision as nat,
        ) + " }"@,
        FieldKind::TimestampLtz { precision } => "TimestampLtz { precision: "@ + text::nat_text(
            precision as nat,
        ) + " }"@,
        FieldKind::Bytes => "Bytes"@,
        FieldKind::Binary { length } => "Binary { length: "@ + text::nat_text(length as nat)
            + " }"@,
        FieldKind::Array => "Array"@,
    }
}

/// Prints a kind.
fn print_kind(kind: FieldKind) -> (r: String)
    ensures
        r@ == kind_text(kind),
{
    match kind {
        FieldKind::Boolean => "Boolean".to_owned(),
        FieldKind::TinyInt => "TinyInt".to_owned(),
        FieldKind::SmallInt => "SmallInt".to_owned(),
        FieldKind::Int => "Int".to_owned(),
        FieldKind::BigInt => "BigInt".to_owned(),
        FieldKind::Float => "Float".to_owned(),
        FieldKind::Double => "Double".to_owned(),
        FieldKind::Char { length } => print_number("Char { length: ", length),
        FieldKind::String => "String".to_owned(),
        FieldKind::Decimal { precision, scale } => concat5(
            "Decimal { precision: ",
            u64_to_text(precision as u64).as_str(),
            ", scale: ",
            u64_to_text(scale as u64).as_str(),
            " }",
        ),
        FieldKind::Date => "Date".to_owned(),
        FieldKind::Time { precision } => print_number("Time { precision: ", precision),
        FieldKind::TimestampNtz { precision } => print_number(
            "TimestampNtz { precision: ",
            precision,
        ),
        FieldKind::TimestampLtz { precision } => print_number(
            "TimestampLtz { precision: ",
            precision,
        ),
        FieldKind::Bytes => "Bytes".to_owned(),
        FieldKind::Binary { length } => print_number("Binary { length: ", length),
        FieldKind::Array => "Array".to_owned(),
    }
}

fn print_number(start: &str, number: u32) -> (r: String)
    ensures
        r@ == start@ + text::nat_text(number as nat) + " }"@,
{
    concat3(start, u64_to_text(number as u64).as_str(), " }")
}

/// Writes the values of one field.
#[derive(Debug, Clone, Copy, PartialEq, Eq, Structural)]
pub struct ValueWriter {
    pub kind: FieldKind,
    pub nullable: bool,
}

/// The error for a type that is not supported: these words, then the type.
pub open spec fn unsupported(message: Seq<char>, data_type: TypeView) -> ErrorView {
    ErrorView::UnsupportedOperation(message + type_text::type_text(data_type))
}

/// The error for a value that a writer of another kind was given.
pub open spec fn misused(kind: FieldKind, value: DatumView) -> ErrorView {
    ErrorView::IllegalArgument(
        kind_text(kind) + " used to write value "@ + datum_text::datum_text(value),
    )
}

impl ValueWriter {
    /// A writer for the values of a type.
    pub fn create_value_writer(field_type: &DataType) -> (r: Result<ValueWriter>)
        ensures
            match r {
                Ok(w) => kind_of(field_type@) == Some(w.kind) && w.nullable
                    == field_type@.nullable(),
                Err(e) => kind_of(field_type@) is None && e@ == unsupported(
                    "Unsupported type for value writer: "@,
                    field_type@,
                ),
            },
    {
        match FieldKind::of(field_type) {
            Some(kind) => Ok(ValueWriter { kind, nullable: field_type.is_nullable() }),
            None => Err(unsupported_type("Unsupported type for value writer: ", field_type)),
        }
    }

    /// Whether a value can be given to a writer in its present state.
    pub open spec fn accepts<W: WriterState>(self, writer: W, pos: int, value: DatumView) -> bool {
        if self.nullable && value is Null {
            writer.takes_null(pos)
        } else {
            self.kind.item(value) matches Some(item) ==> W::takes(item) && writer.fits(
                W::bytes_of(item).len() as int,
            )
        }
    }

    pub fn write_value<W: BinaryWriter>(&self, writer: &mut W, pos: usize, value: &Datum) -> (r:
        Result<()>)
        requires
            old(writer).valid(),
            self.accepts(*old(writer), pos as int, value@),
        ensures
            final(writer).valid(),
            if self.nullable && value@ is Null {
                &&& r is Ok
                &&& final(writer).written() == old(writer).nulled(pos as int)
                &&& final(writer).start() == old(writer).start()
                &&& final(writer).size() == old(writer).size()
            } else {
                match self.kind.item(value@) {
                    Some(item) => r is Ok && binary_writer::wrote(
                        *old(writer),
                        *final(writer),
                        item,
                    ),
                    None => r is Err && r->Err_0@ == misused(self.kind, value@) && *final(writer) == *old(writer),
                }
            },
    {
        if self.nullable && value.is_null() {
            writer.set_null_at(pos);
            return Ok(());
        }
        match (self.kind, value) {
            (FieldKind::Boolean, Datum::Bool(v)) => writer.write_boolean(*v),
            (FieldKind::TinyInt, Datum::Int8(v)) => writer.write_byte(*v as u8),
            (FieldKind::SmallInt, Datum::Int16(v)) => writer.write_short(*v),
            (FieldKind::Int, Datum::Int32(v)) => writer.write_int(*v),
            (FieldKind::BigInt, Datum::Int64(v)) => writer.write_long(*v),
            (FieldKind::Float, Datum::Float32(v)) => writer.write_float(*v),
            (FieldKind::Double, Datum::Float64(v)) => writer.write_double(*v),
            (FieldKind::Char { length }, Datum::String(v)) => writer.write_char(
                cow_str(v),
                length as usize,
            ),
            (FieldKind::String, Datum::String(v)) => writer.write_string(cow_str(v)),
            (FieldKind::Decimal { precision, .. }, Datum::Decimal(v)) => writer.write_decimal(
                v,
                precision,
            ),
            (FieldKind::Date, Datum::Date(v)) => writer.write_int(v.get_inner()),
            (FieldKind::Time { precision }, Datum::Time(v)) => writer.write_time(
                v.get_inner(),
                precision,
            ),
            (
                FieldKind::TimestampNtz { precision },
                Datum::TimestampNtz(v),
            ) => writer.write_timestamp_ntz(v, precision),
            (
                FieldKind::TimestampLtz { precision },
                Datum::TimestampLtz(v),
            ) => writer.write_timestamp_ltz(v, precision),
            (FieldKind::Bytes, Datum::Blob(v)) => writer.write_bytes(cow_bytes(v)),
            (FieldKind::Binary { length }, Datum::Blob(v)) => writer.write_binary(
                cow_bytes(v),
                length as usize,
            ),
            (FieldKind::Array, Datum::Array(v)) => writer.write_array(v.data.as_slice()),
            _ => {
                let kind = print_kind(self.kind);
                let shown = value.to_debug_string();
                return Err(
                    Error::illegal_argument(
                        concat3(kind.as_str(), " used to write value ", shown.as_str()),
                    ),
                );
            },
        }
        Ok(())
    }
}

/// The error for a type that is not supported.
pub fn unsupported_type(message: &str, data_type: &DataType) -> (r: Error)
    ensures
        r@ == unsupported(message@, data_type@),
{
    let shown = data_type.to_debug_string();
    let mut text = message.to_owned();
    text.append(shown.as_str());
    Error::unsupported(text)
}

/// The error for a row type that lacks the field `name`.
pub open spec fn field_not_found(name: Seq<char>, row_type: RowView) -> ErrorView {
    ErrorView::IllegalArgument(
        "Field "@ + text::quoted(name) + " not found in input row type "@ + type_text::row_text(
            row_type,
        ),
    )
}

/// The error for a row type that lacks the field `name`.
pub fn missing_field(name: &str, row_type: &RowType) -> (r: Error)
    ensures
        r@ == field_not_found(name@, row_type@),
{
    let shown = row_type.to_debug_string();
    let mut message = concat3(
        "Field ",
        text::quote(name).as_str(),
        " not found in input row type ",
    );
    message.append(shown.as_str());
    Error::illegal_argument(message)
}

/// A null is no item of any kind.
pub proof fn nulls_are_no_items(kind: FieldKind)
    ensures
        kind.item(DatumView::Null) is None,
{
}

/// Every type but maps and rows has a kind, its own, with the parameters that it
/// has; whether it is nullable makes no difference.
pub proof fn kinds_of_types(t: TypeView)
    ensures
        ({
            &&& kind_of(t) is None <==> t is Mapping || t is Row
            &&& kind_of(t.non_nullable()) == kind_of(t)
            &&& t is Boolean <==> (kind_of(t) matches Some(k) && k is Boolean)
            &&& t is TinyInt <==> (kind_of(t) matches Some(k) && k is TinyInt)
            &&& t is SmallInt <==> (kind_of(t) matches Some(k) && k is SmallInt)
            &&& t is Int <==> (kind_of(t) matches Some(k) && k is Int)
            &&& t is BigInt <==> (kind_of(t) matches Some(k) && k is BigInt)
            &&& t is Float <==> (kind_of(t) matches Some(k) && k is Float)
            &&& t is Double <==> (kind_of(t) matches Some(k) && k is Double)
            &&& t is Char <==> (kind_of(t) matches Some(k) && k is Char)
            &&& t is String <==> (kind_of(t) matches Some(k) && k is String)
            &&& t is Decimal <==> (kind_of(t) matches Some(k) && k is Decimal)
            &&& t is Date <==> (kind_of(t) matches Some(k) && k is Date)
            &&& t is Time <==> (kind_of(t) matches Some(k) && k is Time)
            &&& t is Timestamp <==> (kind_of(t) matches Some(k) && k is TimestampNtz)
            &&& t is TimestampLTz <==> (kind_of(t) matches Some(k) && k is TimestampLtz)
            &&& t is Bytes <==> (kind_of(t) matches Some(k) && k is Bytes)
            &&& t is Binary <==> (kind_of(t) matches Some(k) && k is Binary)
            &&& t is Array <==> (kind_of(t) matches Some(k) && k is Array)
            &&& t matches TypeView::Char(x) ==> kind_of(t)->0->Char_length == x.length
            &&& t matches TypeView::Binary(x) ==> kind_of(t)->0->Binary_length == x.length
            &&& t matches TypeView::Decimal(x) ==> kind_of(t)->0->Decimal_precision == x.precision
                && kind_of(t)->0->scale == x.scale
            &&& t matches TypeView::Time(x) ==> kind_of(t)->0->Time_precision == x.precision
            &&& t matches TypeView::Timestamp(x) ==> kind_of(t)->0->TimestampNtz_precision
                == x.precision
            &&& t matches TypeView::TimestampLTz(x) ==> kind_of(t)->0->TimestampLtz_precision
                == x.precision
        }),
{
}

/// A value is read as it is, but that days and times of day may be plain 32-bit
/// numbers; and it can be written as one of a kind exactly where it is read as
/// itself.
pub proof fn values_are_read_as_they_are(kind: FieldKind, v: DatumView)
    ensures
        kind.read(v) matches Some(w) ==> {
            ||| w == v
            ||| v matches DatumView::Int32(n) && kind is Date && w == DatumView::Date(n)
            ||| v matches DatumView::Int32(n) && kind is Time && w == DatumView::Time(n)
        },
        v is Int32 && (kind is Date || kind is Time) ==> kind.read(v) is Some,
        kind.item(v) is Some <==> kind.read(v) == Some(v),
        v is Bool ==> (kind.read(v) is Some <==> kind is Boolean),
        v is Int8 ==> (kind.read(v) is Some <==> kind is TinyInt),
        v is Int16 ==> (kind.read(v) is Some <==> kind is SmallInt),
        v is Int32 ==> (kind.read(v) is Some <==> kind is Int || kind is Date || kind is Time),
        v is Int64 ==> (kind.read(v) is Some <==> kind is BigInt),
        v is Float32 ==> (kind.read(v) is Some <==> kind is Float),
        v is Float64 ==> (kind.read(v) is Some <==> kind is Double),
        v is String ==> (kind.read(v) is Some <==> kind is String || kind is Char),
        v is Blob ==> (kind.read(v) is Some <==> kind is Bytes || kind is Binary),
        v is Decimal ==> (kind.read(v) is Some <==> kind is Decimal),
        v is Date ==> (kind.read(v) is Some <==> kind is Date),
        v is Time ==> (kind.read(v) is Some <==> kind is Time),
        v is TimestampNtz ==> (kind.read(v) is Some <==> kind is TimestampNtz),
        v is TimestampLtz ==> (kind.read(v) is Some <==> kind is TimestampLtz),
        v is Array ==> (kind.read(v) is Some <==> kind is Array),
        v is Null || v is Row || v is Unreadable ==> kind.read(v) is None,
{
}

/// What a getter finds is what stands at its place: a null only where it may be
/// null, and else a value of its kind.
pub proof fn getters_look_at_their_place(
    getter: FieldGetter,
    row: Seq<DatumView>,
    other: Seq<DatumView>,
)
    requires
        getter.pos < row.len(),
        getter.pos < other.len(),
        row[getter.pos as int] == other[getter.pos as int],
    ensures
        getter.found(row) == getter.found(other),
        row[getter.pos as int] is Null && getter.nullable ==> getter.found(row) == Some(
            DatumView::Null,
        ),
        row[getter.pos as int] is Null && !getter.nullable ==> getter.found(row) is None,
        !(row[getter.pos as int] is Null) ==> getter.found(row) == getter.kind.read(
            row[getter.pos as int],
        ),
{
}

} // verus!
