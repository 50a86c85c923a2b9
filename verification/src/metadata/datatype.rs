//! Data types of columns, and the numbering of the fields inside them.

use vstd::prelude::*;

use crate::error::{Error, ErrorView, Result};
use crate::name_list;
use crate::text::{self, u64_to_text, Text};

verus! {

/// Sentinel for a nested field whose stable id has not yet been assigned.
pub const UNASSIGNED_FIELD_ID: i32 = -1;

/// The largest precision of a decimal type.
pub const MAX_DECIMAL_PRECISION: u32 = 38;

/// The largest precision of a time or timestamp type.
pub const MAX_TIME_PRECISION: u32 = 9;

/// The type of a truth value.
#[derive(Debug, Clone, Copy, PartialEq, Eq, Structural)]
pub struct BooleanType {
    pub nullable: bool,
}

impl BooleanType {
    pub fn new() -> (r: Self)
        ensures
            r == (BooleanType { nullable: true }),
    {
        BooleanType { nullable: true }
    }

    pub fn with_nullable(nullable: bool) -> (r: Self)
        ensures
            r == (BooleanType { nullable }),
    {
        BooleanType { nullable }
    }
}

/// The type of an 8-bit integer.
#[derive(Debug, Clone, Copy, PartialEq, Eq, Structural)]
pub struct TinyIntType {
    pub nullable: bool,
}

impl TinyIntType {
    pub fn new() -> (r: Self)
        ensures
            r == (TinyIntType { nullable: true }),
    {
        TinyIntType { nullable: true }
    }

    pub fn with_nullable(nullable: bool) -> (r: Self)
        ensures
            r == (TinyIntType { nullable }),
    {
        TinyIntType { nullable }
    }
}

/// The type of a 16-bit integer.
#[derive(Debug, Clone, Copy, PartialEq, Eq, Structural)]
pub struct SmallIntType {
    pub nullable: bool,
}

impl SmallIntType {
    pub fn new() -> (r: Self)
        ensures
            r == (SmallIntType { nullable: true }),
    {
        SmallIntType { nullable: true }
    }

    pub fn with_nullable(nullable: bool) -> (r: Self)
        ensures
            r == (SmallIntType { nullable }),
    {
        SmallIntType { nullable }
    }
}

/// The type of a 32-bit integer.
#[derive(Debug, Clone, Copy, PartialEq, Eq, Structural)]
pub struct IntType {
    pub nullable: bool,
}

impl IntType {
    pub fn new() -> (r: Self)
        ensures
            r == (IntType { nullable: true }),
    {
        IntType { nullable: true }
    }

    pub fn with_nullable(nullable: bool) -> (r: Self)
        ensures
            r == (IntType { nullable }),
    {
        IntType { nullable }
    }
}

/// The type of a 64-bit integer.
#[derive(Debug, Clone, Copy, PartialEq, Eq, Structural)]
pub struct BigIntType {
    pub nullable: bool,
}

impl BigIntType {
    pub fn new() -> (r: Self)
        ensures
            r == (BigIntType { nullable: true }),
    {
        BigIntType { nullable: true }
    }

    pub fn with_nullable(nullable: bool) -> (r: Self)
        ensures
            r == (BigIntType { nullable }),
    {
        BigIntType { nullable }
    }
}

/// The type of a single-precision number.
#[derive(Debug, Clone, Copy, PartialEq, Eq, Structural)]
pub struct FloatType {
    pub nullable: bool,
}

impl FloatType {
    pub fn new() -> (r: Self)
        ensures
            r == (FloatType { nullable: true }),
    {
        FloatType { nullable: true }
    }

    pub fn with_nullable(nullable: bool) -> (r: Self)
        ensures
            r == (FloatType { nullable }),
    {
        FloatType { nullable }
    }
}

/// The type of a double-precision number.
#[derive(Debug, Clone, Copy, PartialEq, Eq, Structural)]
pub struct DoubleType {
    pub nullable: bool,
}

impl DoubleType {
    pub fn new() -> (r: Self)
        ensures
            r == (DoubleType { nullable: true }),
    {
        DoubleType { nullable: true }
    }

    pub fn with_nullable(nullable: bool) -> (r: Self)
        ensures
            r == (DoubleType { nullable }),
    {
        DoubleType { nullable }
    }
}

/// The type of text of any length.
#[derive(Debug, Clone, Copy, PartialEq, Eq, Structural)]
pub struct StringType {
    pub nullable: bool,
}

impl StringType {
    pub fn new() -> (r: Self)
        ensures
            r == (StringType { nullable: true }),
    {
        StringType { nullable: true }
    }

    pub fn with_nullable(nullable: bool) -> (r: Self)
        ensures
            r == (StringType { nullable }),
    {
        StringType { nullable }
    }
}

/// The type of a calendar day.
#[derive(Debug, Clone, Copy, PartialEq, Eq, Structural)]
pub struct DateType {
    pub nullable: bool,
}

impl DateType {
    pub fn new() -> (r: Self)
        ensures
            r == (DateType { nullable: true }),
    {
        DateType { nullable: true }
    }

    pub fn with_nullable(nullable: bool) -> (r: Self)
        ensures
            r == (DateType { nullable }),
    {
        DateType { nullable }
    }
}

/// The type of bytes of any length.
#[derive(Debug, Clone, Copy, PartialEq, Eq, Structural)]
pub struct BytesType {
    pub nullable: bool,
}

impl BytesType {
    pub fn new() -> (r: Self)
        ensures
            r == (BytesType { nullable: true }),
    {
        BytesType { nullable: true }
    }

    pub fn with_nullable(nullable: bool) -> (r: Self)
        ensures
            r == (BytesType { nullable }),
    {
        BytesType { nullable }
    }
}

/// The type of text of a fixed length.
#[derive(Debug, Clone, Copy, PartialEq, Eq, Structural)]
pub struct CharType {
    pub nullable: bool,
    pub length: u32,
}

impl CharType {
    pub fn new(length: u32) -> (r: Self)
        ensures
            r == (CharType { nullable: true, length }),
    {
        CharType { nullable: true, length }
    }
}

/// The type of bytes of a fixed length.
#[derive(Debug, Clone, Copy, PartialEq, Eq, Structural)]
pub struct BinaryType {
    pub nullable: bool,
    pub length: u32,
}

impl BinaryType {
    pub fn new(length: u32) -> (r: Self)
        ensures
            r == (BinaryType { nullable: true, length }),
    {
        BinaryType { nullable: true, length }
    }
}

/// The type of a decimal number.
#[derive(Debug, Clone, Copy, PartialEq, Eq, Structural)]
pub struct DecimalType {
    pub nullable: bool,
    pub precision: u32,
    pub scale: u32,
}

impl DecimalType {
    /// Whether a decimal of this precision and scale exists.
    pub open spec fn admits(precision: u32, scale: u32) -> bool {
        1 <= precision <= MAX_DECIMAL_PRECISION && scale <= precision
    }

    pub fn new(precision: u32, scale: u32) -> (r: Result<Self>)
        ensures
            match r {
                Ok(t) => DecimalType::admits(precision, scale) && t == (DecimalType {
                    nullable: true,
                    precision,
                    scale,
                }),
                Err(e) => !DecimalType::admits(precision, scale) && e@
                    == ErrorView::IllegalArgument(
                    "Decimal precision must be between 1 and 38, and its scale at most the precision"@,
                ),
            },
    {
        if 1 <= precision && precision <= MAX_DECIMAL_PRECISION && scale <= precision {
            Ok(DecimalType { nullable: true, precision, scale })
        } else {
            Err(
                Error::illegal_argument(
                    "Decimal precision must be between 1 and 38, and its scale at most the precision",
                ),
            )
        }
    }

    pub fn precision(&self) -> (r: u32)
        ensures
            r == self.precision,
    {
        self.precision
    }

    pub fn scale(&self) -> (r: u32)
        ensures
            r == self.scale,
    {
        self.scale
    }
}

/// The type of a time of day.
#[derive(Debug, Clone, Copy, PartialEq, Eq, Structural)]
pub struct TimeType {
    pub nullable: bool,
    pub precision: u32,
}

impl TimeType {
    pub fn with_nullable(nullable: bool, precision: u32) -> (r: Result<Self>)
        ensures
            match r {
                Ok(t) => precision <= MAX_TIME_PRECISION && t == (TimeType { nullable, precision }),
                Err(e) => precision > MAX_TIME_PRECISION && e@ == ErrorView::IllegalArgument(
                    "Time precision must be between 0 and 9"@,
                ),
            },
    {
        if precision <= MAX_TIME_PRECISION {
            Ok(TimeType { nullable, precision })
        } else {
            Err(Error::illegal_argument("Time precision must be between 0 and 9"))
        }
    }

    pub fn precision(&self) -> (r: u32)
        ensures
            r == self.precision,
    {
        self.precision
    }
}

/// The type of a point in time without a time zone.
#[derive(Debug, Clone, Copy, PartialEq, Eq, Structural)]
pub struct TimestampType {
    pub nullable: bool,
    pub precision: u32,
}

impl TimestampType {
    pub fn with_nullable(nullable: bool, precision: u32) -> (r: Result<Self>)
        ensures
            match r {
                Ok(t) => precision <= MAX_TIME_PRECISION && t == (TimestampType { nullable, precision }),
                Err(e) => precision > MAX_TIME_PRECISION && e@ == ErrorView::IllegalArgument(
                    "Timestamp precision must be between 0 and 9"@,
                ),
            },
    {
        if precision <= MAX_TIME_PRECISION {
            Ok(TimestampType { nullable, precision })
        } else {
            Err(Error::illegal_argument("Timestamp precision must be between 0 and 9"))
        }
    }

    pub fn precision(&self) -> (r: u32)
        ensures
            r == self.precision,
    {
        self.precision
    }
}

/// The type of a point in time in the local time zone.
#[derive(Debug, Clone, Copy, PartialEq, Eq, Structural)]
pub struct TimestampLTzType {
    pub nullable: bool,
    pub precision: u32,
}

impl TimestampLTzType {
    pub fn with_nullable(nullable: bool, precision: u32) -> (r: Result<Self>)
        ensures
            match r {
                Ok(t) => precision <= MAX_TIME_PRECISION && t == (TimestampLTzType { nullable, precision }),
                Err(e) => precision > MAX_TIME_PRECISION && e@ == ErrorView::IllegalArgument(
                    "Timestamp with local time zone precision must be between 0 and 9"@,
                ),
            },
    {
        if precision <= MAX_TIME_PRECISION {
            Ok(TimestampLTzType { nullable, precision })
        } else {
            Err(Error::illegal_argument("Timestamp with local time zone precision must be between 0 and 9"))
        }
    }

    pub fn precision(&self) -> (r: u32)
        ensures
            r == self.precision,
    {
        self.precision
    }
}

/// The type of a list of values.
#[derive(Debug, PartialEq, Eq)]
pub struct ArrayType {
    pub nullable: bool,
    pub element_type: Box<DataType>,
}

impl ArrayType {
    pub fn get_element_type(&self) -> (r: &DataType)
        ensures
            *r == *self.element_type,
    {
        &self.element_type
    }
}

/// The type of a map from keys to values.
#[derive(Debug, PartialEq, Eq)]
pub struct MapType {
    pub nullable: bool,
    pub key_type: Box<DataType>,
    pub value_type: Box<DataType>,
}

impl MapType {
    pub fn key_type(&self) -> (r: &DataType)
        ensures
            *r == *self.key_type,
    {
        &self.key_type
    }

    pub fn value_type(&self) -> (r: &DataType)
        ensures
            *r == *self.value_type,
    {
        &self.value_type
    }
}

/// A named field of a row type.
#[derive(Debug, PartialEq, Eq)]
pub struct DataField {
    pub name: String,
    pub data_type: DataType,
    pub description: Option<String>,
    pub field_id: i32,
}

/// The type of a row: its fields, in order.
#[derive(Debug, PartialEq, Eq)]
pub struct RowType {
    pub nullable: bool,
    pub fields: Vec<DataField>,
}

#[derive(Debug, PartialEq, Eq)]
pub enum DataType {
    Boolean(BooleanType),
    TinyInt(TinyIntType),
    SmallInt(SmallIntType),
    Int(IntType),
    BigInt(BigIntType),
    Float(FloatType),
    Double(DoubleType),
    Char(CharType),
    String(StringType),
    Decimal(DecimalType),
    Date(DateType),
    Time(TimeType),
    Timestamp(TimestampType),
    TimestampLTz(TimestampLTzType),
    Bytes(BytesType),
    Binary(BinaryType),
    Array(ArrayType),
    Mapping(MapType),
    Row(RowType),
}

/// A data type as a value.
pub enum TypeView {
    Boolean(BooleanType),
    TinyInt(TinyIntType),
    SmallInt(SmallIntType),
    Int(IntType),
    BigInt(BigIntType),
    Float(FloatType),
    Double(DoubleType),
    Char(CharType),
    String(StringType),
    Decimal(DecimalType),
    Date(DateType),
    Time(TimeType),
    Timestamp(TimestampType),
    TimestampLTz(TimestampLTzType),
    Bytes(BytesType),
    Binary(BinaryType),
    Array(bool, Box<TypeView>),
    Mapping(bool, Box<TypeView>, Box<TypeView>),
    Row(RowView),
}

/// A field as a value.
pub struct FieldView {
    pub name: Seq<char>,
    pub data_type: TypeView,
    pub description: Option<Seq<char>>,
    pub field_id: i32,
}

/// A row type as a value.
pub struct RowView {
    pub nullable: bool,
    pub fields: Seq<FieldView>,
}

/// The value of a data type.
pub open spec fn type_view(t: DataType) -> TypeView
    decreases t,
{
    match t {
        DataType::Boolean(x) => TypeView::Boolean(x),
        DataType::TinyInt(x) => TypeView::TinyInt(x),
        DataType::SmallInt(x) => TypeView::SmallInt(x),
        DataType::Int(x) => TypeView::Int(x),
        DataType::BigInt(x) => TypeView::BigInt(x),
        DataType::Float(x) => TypeView::Float(x),
        DataType::Double(x) => TypeView::Double(x),
        DataType::Char(x) => TypeView::Char(x),
        DataType::String(x) => TypeView::String(x),
        DataType::Decimal(x) => TypeView::Decimal(x),
        DataType::Date(x) => TypeView::Date(x),
        DataType::Time(x) => TypeView::Time(x),
        DataType::Timestamp(x) => TypeView::Timestamp(x),
        DataType::TimestampLTz(x) => TypeView::TimestampLTz(x),
        DataType::Bytes(x) => TypeView::Bytes(x),
        DataType::Binary(x) => TypeView::Binary(x),
        DataType::Array(x) => TypeView::Array(x.nullable, Box::new(type_view(*x.element_type))),
        DataType::Mapping(x) => TypeView::Mapping(
            x.nullable,
            Box::new(type_view(*x.key_type)),
            Box::new(type_view(*x.value_type)),
        ),
        DataType::Row(x) => TypeView::Row(
            RowView {
                nullable: x.nullable,
                fields: Seq::new(
                    x.fields@.len(),
                    |i: int|
                        if 0 <= i < x.fields@.len() {
                            FieldView {
                                name: x.fields@[i].name@,
                                data_type: type_view(x.fields@[i].data_type),
                                description: text::opt_text(x.fields@[i].description),
                                field_id: x.fields@[i].field_id,
                            }
                        } else {
                            arbitrary()
                        },
                ),
            },
        ),
    }
}

/// The value of a field.
pub open spec fn field_view(f: DataField) -> FieldView {
    FieldView {
        name: f.name@,
        data_type: type_view(f.data_type),
        description: text::opt_text(f.description),
        field_id: f.field_id,
    }
}

/// The values of fields.
pub open spec fn field_views(fields: Seq<DataField>) -> Seq<FieldView> {
    Seq::new(fields.len(), |i: int| field_view(fields[i]))
}

/// The value of a row type.
pub open spec fn row_view(r: RowType) -> RowView {
    RowView { nullable: r.nullable, fields: field_views(r.fields@) }
}

/// The value of a row type is the value of the data type made of it.
pub proof fn row_type_view(r: RowType)
    ensures
        type_view(DataType::Row(r)) == TypeView::Row(row_view(r)),
{
    assert(type_view(DataType::Row(r))->Row_0.fields =~= field_views(r.fields@));
}

impl View for DataType {
    type V = TypeView;

    open spec fn view(&self) -> TypeView {
        type_view(*self)
    }
}

impl View for DataField {
    type V = FieldView;

    open spec fn view(&self) -> FieldView {
        field_view(*self)
    }
}

impl View for RowType {
    type V = RowView;

    open spec fn view(&self) -> RowView {
        row_view(*self)
    }
}

impl TypeView {
    /// Whether values of the type may be absent.
    pub open spec fn nullable(self) -> bool {
        match self {
            TypeView::Boolean(x) => x.nullable,
            TypeView::TinyInt(x) => x.nullable,
            TypeView::SmallInt(x) => x.nullable,
            TypeView::Int(x) => x.nullable,
            TypeView::BigInt(x) => x.nullable,
            TypeView::Float(x) => x.nullable,
            TypeView::Double(x) => x.nullable,
            TypeView::Char(x) => x.nullable,
            TypeView::String(x) => x.nullable,
            TypeView::Decimal(x) => x.nullable,
            TypeView::Date(x) => x.nullable,
            TypeView::Time(x) => x.nullable,
            TypeView::Timestamp(x) => x.nullable,
            TypeView::TimestampLTz(x) => x.nullable,
            TypeView::Bytes(x) => x.nullable,
            TypeView::Binary(x) => x.nullable,
            TypeView::Array(nullable, _) => nullable,
            TypeView::Mapping(nullable, _, _) => nullable,
            TypeView::Row(row) => row.nullable,
        }
    }

    /// The same type for values that are always there.
    pub open spec fn non_nullable(self) -> TypeView {
        match self {
            TypeView::Boolean(x) => TypeView::Boolean(BooleanType { nullable: false }),
            TypeView::TinyInt(x) => TypeView::TinyInt(TinyIntType { nullable: false }),
            TypeView::SmallInt(x) => TypeView::SmallInt(SmallIntType { nullable: false }),
            TypeView::Int(x) => TypeView::Int(IntType { nullable: false }),
            TypeView::BigInt(x) => TypeView::BigInt(BigIntType { nullable: false }),
            TypeView::Float(x) => TypeView::Float(FloatType { nullable: false }),
            TypeView::Double(x) => TypeView::Double(DoubleType { nullable: false }),
            TypeView::Char(x) => TypeView::Char(CharType { nullable: false, length: x.length }),
            TypeView::String(x) => TypeView::String(StringType { nullable: false }),
            TypeView::Decimal(x) => TypeView::Decimal(DecimalType { nullable: false, precision: x.precision, scale: x.scale }),
            TypeView::Date(x) => TypeView::Date(DateType { nullable: false }),
            TypeView::Time(x) => TypeView::Time(TimeType { nullable: false, precision: x.precision }),
            TypeView::Timestamp(x) => TypeView::Timestamp(TimestampType { nullable: false, precision: x.precision }),
            TypeView::TimestampLTz(x) => TypeView::TimestampLTz(TimestampLTzType { nullable: false, precision: x.precision }),
            TypeView::Bytes(x) => TypeView::Bytes(BytesType { nullable: false }),
            TypeView::Binary(x) => TypeView::Binary(BinaryType { nullable: false, length: x.length }),
            TypeView::Array(_, element) => TypeView::Array(false, element),
            TypeView::Mapping(_, key, value) => TypeView::Mapping(false, key, value),
            TypeView::Row(row) => TypeView::Row(RowView { nullable: false, fields: row.fields }),
        }
    }
}

impl DataType {
    pub fn is_nullable(&self) -> (r: bool)
        ensures
            r == self@.nullable(),
    {
        match self {
            DataType::Boolean(x) => x.nullable,
            DataType::TinyInt(x) => x.nullable,
            DataType::SmallInt(x) => x.nullable,
            DataType::Int(x) => x.nullable,
            DataType::BigInt(x) => x.nullable,
            DataType::Float(x) => x.nullable,
            DataType::Double(x) => x.nullable,
            DataType::Char(x) => x.nullable,
            DataType::String(x) => x.nullable,
            DataType::Decimal(x) => x.nullable,
            DataType::Date(x) => x.nullable,
            DataType::Time(x) => x.nullable,
            DataType::Timestamp(x) => x.nullable,
            DataType::TimestampLTz(x) => x.nullable,
            DataType::Bytes(x) => x.nullable,
            DataType::Binary(x) => x.nullable,
            DataType::Array(x) => x.nullable,
            DataType::Mapping(x) => x.nullable,
            DataType::Row(x) => x.nullable,
        }
    }

    pub fn as_non_nullable(&self) -> (r: DataType)
        ensures
            r@ == self@.non_nullable(),
    {
        match self {
            DataType::Boolean(x) => DataType::Boolean(BooleanType { nullable: false }),
            DataType::TinyInt(x) => DataType::TinyInt(TinyIntType { nullable: false }),
            DataType::SmallInt(x) => DataType::SmallInt(SmallIntType { nullable: false }),
            DataType::Int(x) => DataType::Int(IntType { nullable: false }),
            DataType::BigInt(x) => DataType::BigInt(BigIntType { nullable: false }),
            DataType::Float(x) => DataType::Float(FloatType { nullable: false }),
            DataType::Double(x) => DataType::Double(DoubleType { nullable: false }),
            DataType::Char(x) => DataType::Char(CharType { nullable: false, length: x.length }),
            DataType::String(x) => DataType::String(StringType { nullable: false }),
            DataType::Decimal(x) => DataType::Decimal(DecimalType { nullable: false, precision: x.precision, scale: x.scale }),
            DataType::Date(x) => DataType::Date(DateType { nullable: false }),
            DataType::Time(x) => DataType::Time(TimeType { nullable: false, precision: x.precision }),
            DataType::Timestamp(x) => DataType::Timestamp(TimestampType { nullable: false, precision: x.precision }),
            DataType::TimestampLTz(x) => DataType::TimestampLTz(TimestampLTzType { nullable: false, precision: x.precision }),
            DataType::Bytes(x) => DataType::Bytes(BytesType { nullable: false }),
            DataType::Binary(x) => DataType::Binary(BinaryType { nullable: false, length: x.length }),
            DataType::Array(x) => DataType::Array(
                ArrayType { nullable: false, element_type: Box::new((*x.element_type).clone()) },
            ),
            DataType::Mapping(x) => DataType::Mapping(
                MapType {
                    nullable: false,
                    key_type: Box::new((*x.key_type).clone()),
                    value_type: Box::new((*x.value_type).clone()),
                },
            ),
            DataType::Row(x) => {
                let r = RowType { nullable: false, fields: clone_fields(&x.fields) };
                proof {
                    row_type_view(*x);
                    row_type_view(r);
                }
                DataType::Row(r)
            },
        }
    }
}

impl Clone for DataType {
    fn clone(&self) -> (r: Self)
        ensures
            r@ == self@,
        decreases self,
    {
        match self {
            DataType::Boolean(x) => DataType::Boolean(*x),
            DataType::TinyInt(x) => DataType::TinyInt(*x),
            DataType::SmallInt(x) => DataType::SmallInt(*x),
            DataType::Int(x) => DataType::Int(*x),
            DataType::BigInt(x) => DataType::BigInt(*x),
            DataType::Float(x) => DataType::Float(*x),
            DataType::Double(x) => DataType::Double(*x),
            DataType::Char(x) => DataType::Char(*x),
            DataType::String(x) => DataType::String(*x),
            DataType::Decimal(x) => DataType::Decimal(*x),
            DataType::Date(x) => DataType::Date(*x),
            DataType::Time(x) => DataType::Time(*x),
            DataType::Timestamp(x) => DataType::Timestamp(*x),
            DataType::TimestampLTz(x) => DataType::TimestampLTz(*x),
            DataType::Bytes(x) => DataType::Bytes(*x),
            DataType::Binary(x) => DataType::Binary(*x),
            DataType::Array(x) => {
                assert(decreases_to!(self => self->Array_0));
                DataType::Array(
                    ArrayType {
                        nullable: x.nullable,
                        element_type: Box::new((*x.element_type).clone()),
                    },
                )
            },
            DataType::Mapping(x) => {
                assert(decreases_to!(self => self->Mapping_0));
                DataType::Mapping(
                    MapType {
                        nullable: x.nullable,
                        key_type: Box::new((*x.key_type).clone()),
                        value_type: Box::new((*x.value_type).clone()),
                    },
                )
            },
            DataType::Row(x) => {
                assert(decreases_to!(self => self->Row_0));
                let r = RowType { nullable: x.nullable, fields: clone_fields(&x.fields) };
                proof {
                    row_type_view(*x);
                    row_type_view(r);
                }
                DataType::Row(r)
            },
        }
    }
}

/// Copies fields.
pub fn clone_fields(fields: &Vec<DataField>) -> (r: Vec<DataField>)
    ensures
        field_views(r@) == field_views(fields@),
    decreases fields,
{
    let mut out: Vec<DataField> = Vec::new();
    let mut i: usize = 0;
    while i < fields.len()
        invariant
            i <= fields@.len(),
            out@.len() == i,
            forall|j: int| 0 <= j < i ==> field_view(#[trigger] out@[j]) == field_view(fields@[j]),
        decreases fields@.len() - i,
    {
        let f = &fields[i];
        assert(decreases_to!(fields => fields@[i as int]));
        assert(decreases_to!(fields@[i as int] => fields@[i as int].data_type));
        out.push(
            DataField {
                name: f.name.clone(),
                data_type: f.data_type.clone(),
                description: text::clone_opt(&f.description),
                field_id: f.field_id,
            },
        );
        i = i + 1;
    }
    assert(field_views(out@) =~= field_views(fields@));
    out
}

impl Clone for DataField {
    fn clone(&self) -> (r: Self)
        ensures
            r@ == self@,
    {
        DataField {
            name: self.name.clone(),
            data_type: self.data_type.clone(),
            description: text::clone_opt(&self.description),
            field_id: self.field_id,
        }
    }
}

impl Clone for RowType {
    fn clone(&self) -> (r: Self)
        ensures
            r@ == self@,
    {
        RowType { nullable: self.nullable, fields: clone_fields(&self.fields) }
    }
}

impl RowType {
    pub fn new(fields: Vec<DataField>) -> (r: Self)
        ensures
            r@ == (RowView { nullable: true, fields: field_views(fields@) }),
    {
        RowType { nullable: true, fields }
    }

    pub fn fields(&self) -> (r: &Vec<DataField>)
        ensures
            field_views(r@) == self@.fields,
    {
        &self.fields
    }
}

impl DataField {
    pub fn new<N: Text>(name: N, data_type: DataType, description: Option<String>) -> (r: Self)
        ensures
            r@ == (FieldView {
                name: name.text(),
                data_type: data_type@,
                description: text::opt_text(description),
                field_id: UNASSIGNED_FIELD_ID,
            }),
    {
        DataField {
            name: name.into_text(),
            data_type,
            description,
            field_id: UNASSIGNED_FIELD_ID,
        }
    }

    pub fn name(&self) -> (r: &str)
        ensures
            r@ == self@.name,
    {
        self.name.as_str()
    }

    pub fn data_type(&self) -> (r: &DataType)
        ensures
            *r == self.data_type,
    {
        &self.data_type
    }
}

impl RowView {
    /// The names of the fields.
    pub open spec fn names(self) -> Seq<Seq<char>> {
        Seq::new(self.fields.len(), |i: int| self.fields[i].name)
    }

    /// The row type of some of the fields, by name.
    pub open spec fn projected(self, names: Seq<Seq<char>>) -> core::result::Result<
        RowView,
        ErrorView,
    > {
        match name_list::first_absent(names, self.names()) {
            Some(name) => Err(
                ErrorView::IllegalArgument(
                    "Field '"@ + name + "' does not exist in the row type"@,
                ),
            ),
            None => Ok(
                RowView {
                    nullable: self.nullable,
                    fields: Seq::new(
                        names.len(),
                        |i: int| self.fields[name_list::position(self.names(), names[i])->0],
                    ),
                },
            ),
        }
    }
}

/// An unnamed field at place `i`, under the name `f` and the place.
pub open spec fn unnamed_field(data_type: TypeView, i: int) -> FieldView {
    FieldView {
        name: "f"@ + text::nat_text(i as nat),
        data_type,
        description: None,
        field_id: UNASSIGNED_FIELD_ID,
    }
}

/// A field with a name and a type.
pub open spec fn named_field(name: Seq<char>, data_type: TypeView) -> FieldView {
    FieldView { name, data_type, description: None, field_id: UNASSIGNED_FIELD_ID }
}

impl RowType {
    /// A row type of fields named `f0`, `f1` and so on.
    pub fn with_data_types(data_types: Vec<DataType>) -> (r: Self)
        ensures
            r@ == (RowView {
                nullable: true,
                fields: Seq::new(
                    data_types@.len(),
                    |i: int| unnamed_field(data_types@[i]@, i),
                ),
            }),
    {
        let mut fields: Vec<DataField> = Vec::new();
        let mut i: usize = 0;
        while i < data_types.len()
            invariant
                i <= data_types@.len(),
                fields@.len() == i,
                forall|j: int|
                    0 <= j < i ==> field_view(#[trigger] fields@[j]) == unnamed_field(
                        data_types@[j]@,
                        j,
                    ),
            decreases data_types@.len() - i,
        {
            let mut name = "f".to_owned();
            name.append(u64_to_text(i as u64).as_str());
            fields.push(DataField::new(name, data_types[i].clone(), None));
            i = i + 1;
        }
        assert(field_views(fields@) =~= Seq::new(
            data_types@.len(),
            |i: int| unnamed_field(data_types@[i]@, i),
        ));
        RowType::new(fields)
    }

    /// A row type of fields with the given names. There must be a name for each
    /// type.
    pub fn with_data_types_and_field_names<N: Text>(
        data_types: Vec<DataType>,
        field_names: Vec<N>,
    ) -> (r: Self)
        requires
            data_types@.len() == field_names@.len(),
        ensures
            r@ == (RowView {
                nullable: true,
                fields: Seq::new(
                    data_types@.len(),
                    |i: int| named_field(field_names@[i].text(), data_types@[i]@),
                ),
            }),
    {
        let names = name_list::own_list(field_names);
        assert(names@.len() == text::names(names@).len());
        let mut fields: Vec<DataField> = Vec::new();
        let mut i: usize = 0;
        while i < data_types.len()
            invariant
                i <= data_types@.len(),
                fields@.len() == i,
                names@.len() == data_types@.len(),
                field_names@.len() == data_types@.len(),
                text::names(names@) == text::texts(field_names@),
                forall|j: int|
                    0 <= j < i ==> field_view(#[trigger] fields@[j]) == named_field(
                        field_names@[j].text(),
                        data_types@[j]@,
                    ),
            decreases data_types@.len() - i,
        {
            assert(text::names(names@)[i as int] == text::texts(field_names@)[i as int]);
            fields.push(DataField::new(&names[i], data_types[i].clone(), None));
            i = i + 1;
        }
        assert(field_views(fields@) =~= Seq::new(
            data_types@.len(),
            |i: int| named_field(field_names@[i].text(), data_types@[i]@),
        ));
        RowType::new(fields)
    }

    fn field_names(&self) -> (r: Vec<String>)
        ensures
            text::names(r@) == self@.names(),
    {
        let mut out: Vec<String> = Vec::new();
        let mut i: usize = 0;
        while i < self.fields.len()
            invariant
                i <= self.fields@.len(),
                out@.len() == i,
                forall|j: int| 0 <= j < i ==> (#[trigger] out@[j])@ == self.fields@[j].name@,
            decreases self.fields@.len() - i,
        {
            out.push(self.fields[i].name.clone());
            i = i + 1;
        }
        assert(text::names(out@) =~= self@.names());
        out
    }

    /// The place of the field with a name.
    pub fn get_field_index(&self, name: &str) -> (r: Option<usize>)
        ensures
            match r {
                Some(i) => i < self.fields@.len() && name_list::position(self@.names(), name@)
                    == Some(i as int),
                None => name_list::position(self@.names(), name@) is None,
            },
    {
        let names = self.field_names();
        assert(names@.len() == text::names(names@).len());
        name_list::index_of(&names, name)
    }

    /// The row type of some of the fields, by name.
    pub fn project_with_field_names(&self, field_names: &[String]) -> (r: Result<RowType>)
        ensures
            match r {
                Ok(t) => self@.projected(text::names(field_names@)) == Ok::<RowView, ErrorView>(
                    t@,
                ),
                Err(e) => self@.projected(text::names(field_names@)) == Err::<RowView, ErrorView>(
                    e@,
                ),
            },
    {
        let ghost wanted = text::names(field_names@);
        let names = self.field_names();
        match name_list::find_absent(field_names, &names) {
            Some(i) => {
                return Err(
                    Error::illegal_argument(
                        text::concat3(
                            "Field '",
                            field_names[i].as_str(),
                            "' does not exist in the row type",
                        ),
                    ),
                );
            },
            None => {},
        }
        proof {
            name_list::first_absent_iff(wanted, self@.names());
            name_list::positions_of_held(wanted, self@.names());
        }
        let mut fields: Vec<DataField> = Vec::new();
        let mut i: usize = 0;
        while i < field_names.len()
            invariant
                i <= field_names@.len(),
                wanted == text::names(field_names@),
                text::names(names@) == self@.names(),
                name_list::all_in(wanted, self@.names()),
                fields@.len() == i,
                forall|j: int|
                    0 <= j < i ==> field_view(#[trigger] fields@[j])
                        == self@.fields[name_list::position(self@.names(), wanted[j])->0],
            decreases field_names@.len() - i,
        {
            proof {
                assert(self@.names().contains(wanted[i as int]));
                name_list::position_is_first(self@.names(), wanted[i as int]);
                assert(names@.len() == text::names(names@).len());
            }
            match name_list::index_of(&names, field_names[i].as_str()) {
                Some(k) => {
                    fields.push(self.fields[k].clone());
                },
                None => {},
            }
            i = i + 1;
        }
        assert(field_views(fields@) =~= self@.projected(wanted)->Ok_0.fields);
        Ok(RowType { nullable: self.nullable, fields })
    }
}

/// Short names for types: nullable, with the usual precision.
pub struct DataTypes;

impl DataTypes {
    pub fn boolean() -> (r: DataType)
        ensures
            r@ == TypeView::Boolean(BooleanType { nullable: true }),
    {
        DataType::Boolean(BooleanType { nullable: true })
    }

    pub fn tinyint() -> (r: DataType)
        ensures
            r@ == TypeView::TinyInt(TinyIntType { nullable: true }),
    {
        DataType::TinyInt(TinyIntType { nullable: true })
    }

    pub fn smallint() -> (r: DataType)
        ensures
            r@ == TypeView::SmallInt(SmallIntType { nullable: true }),
    {
        DataType::SmallInt(SmallIntType { nullable: true })
    }

    pub fn integer() -> (r: DataType)
        ensures
            r@ == TypeView::Int(IntType { nullable: true }),
    {
        DataType::Int(IntType { nullable: true })
    }

    pub fn bigint() -> (r: DataType)
        ensures
            r@ == TypeView::BigInt(BigIntType { nullable: true }),
    {
        DataType::BigInt(BigIntType { nullable: true })
    }

    pub fn float() -> (r: DataType)
        ensures
            r@ == TypeView::Float(FloatType { nullable: true }),
    {
        DataType::Float(FloatType { nullable: true })
    }

    pub fn double() -> (r: DataType)
        ensures
            r@ == TypeView::Double(DoubleType { nullable: true }),
    {
        DataType::Double(DoubleType { nullable: true })
    }

    pub fn string() -> (r: DataType)
        ensures
            r@ == TypeView::String(StringType { nullable: true }),
    {
        DataType::String(StringType { nullable: true })
    }

    pub fn date() -> (r: DataType)
        ensures
            r@ == TypeView::Date(DateType { nullable: true }),
    {
        DataType::Date(DateType { nullable: true })
    }

    pub fn bytes() -> (r: DataType)
        ensures
            r@ == TypeView::Bytes(BytesType { nullable: true }),
    {
        DataType::Bytes(BytesType { nullable: true })
    }

    pub fn character(length: u32) -> (r: DataType)
        ensures
            r@ == TypeView::Char(CharType { nullable: true, length }),
    {
        DataType::Char(CharType { nullable: true, length })
    }

    pub fn binary(length: u32) -> (r: DataType)
        ensures
            r@ == TypeView::Binary(BinaryType { nullable: true, length }),
    {
        DataType::Binary(BinaryType { nullable: true, length })
    }

    pub fn time() -> (r: DataType)
        ensures
            r@ == TypeView::Time(TimeType { nullable: true, precision: 0 }),
    {
        DataType::Time(TimeType { nullable: true, precision: 0 })
    }

    pub fn timestamp() -> (r: DataType)
        ensures
            r@ == TypeView::Timestamp(TimestampType { nullable: true, precision: 6 }),
    {
        DataType::Timestamp(TimestampType { nullable: true, precision: 6 })
    }

    pub fn timestamp_ltz() -> (r: DataType)
        ensures
            r@ == TypeView::TimestampLTz(TimestampLTzType { nullable: true, precision: 6 }),
    {
        DataType::TimestampLTz(TimestampLTzType { nullable: true, precision: 6 })
    }

    /// A decimal type. The precision and scale must be those of a decimal.
    pub fn decimal(precision: u32, scale: u32) -> (r: DataType)
        requires
            DecimalType::admits(precision, scale),
        ensures
            r@ == TypeView::Decimal(DecimalType { nullable: true, precision, scale }),
    {
        DataType::Decimal(DecimalType { nullable: true, precision, scale })
    }

    pub fn array(element: DataType) -> (r: DataType)
        ensures
            r@ == TypeView::Array(true, Box::new(element@)),
    {
        DataType::Array(ArrayType { nullable: true, element_type: Box::new(element) })
    }

    pub fn map(key: DataType, value: DataType) -> (r: DataType)
        ensures
            r@ == TypeView::Mapping(true, Box::new(key@), Box::new(value@)),
    {
        DataType::Mapping(
            MapType { nullable: true, key_type: Box::new(key), value_type: Box::new(value) },
        )
    }

    pub fn row(fields: Vec<DataField>) -> (r: DataType)
        ensures
            r@ == TypeView::Row(RowView { nullable: true, fields: field_views(fields@) }),
    {
        let row = RowType { nullable: true, fields };
        proof {
            row_type_view(row);
        }
        DataType::Row(row)
    }

    pub fn field<N: Text>(name: N, data_type: DataType) -> (r: DataField)
        ensures
            r@ == named_field(name.text(), data_type@),
    {
        DataField::new(name, data_type, None)
    }
}

/// Made non-nullable, a type stays of its kind and keeps its parameters; what was
/// non-nullable stays as it is.
pub proof fn only_nulls_go(t: TypeView)
    ensures
        ({
            let n = t.non_nullable();
            &&& !n.nullable()
            &&& !t.nullable() ==> n == t
            &&& n.non_nullable() == n
            &&& n is Boolean <==> t is Boolean
            &&& n is TinyInt <==> t is TinyInt
            &&& n is SmallInt <==> t is SmallInt
            &&& n is Int <==> t is Int
            &&& n is BigInt <==> t is BigInt
            &&& n is Float <==> t is Float
            &&& n is Double <==> t is Double
            &&& n is Char <==> t is Char
            &&& n is String <==> t is String
            &&& n is Decimal <==> t is Decimal
            &&& n is Date <==> t is Date
            &&& n is Time <==> t is Time
            &&& n is Timestamp <==> t is Timestamp
            &&& n is TimestampLTz <==> t is TimestampLTz
            &&& n is Bytes <==> t is Bytes
            &&& n is Binary <==> t is Binary
            &&& n is Array <==> t is Array
            &&& n is Mapping <==> t is Mapping
            &&& n is Row <==> t is Row
            &&& t is Char ==> n->Char_0.length == t->Char_0.length
            &&& t is Binary ==> n->Binary_0.length == t->Binary_0.length
            &&& t is Decimal ==> n->Decimal_0.precision == t->Decimal_0.precision
                && n->Decimal_0.scale == t->Decimal_0.scale
            &&& t is Time ==> n->Time_0.precision == t->Time_0.precision
            &&& t is Timestamp ==> n->Timestamp_0.precision == t->Timestamp_0.precision
            &&& t is TimestampLTz ==> n->TimestampLTz_0.precision == t->TimestampLTz_0.precision
            &&& t matches TypeView::Array(_, e) ==> (n matches TypeView::Array(_, f) && *f == *e)
            &&& t matches TypeView::Mapping(_, k, v) ==> (n matches TypeView::Mapping(_, l, w)
                && *l == *k && *w == *v)
            &&& t is Row ==> n->Row_0.fields == t->Row_0.fields
        }),
{
}

/// A row type projected to names has, in their order, the first fields of the row
/// type with those names, and is refused only for a name that no field has.
pub proof fn projection_has_the_named_fields(row: RowView, names: Seq<Seq<char>>)
    ensures
        match row.projected(names) {
            Ok(p) => {
                &&& p.nullable == row.nullable
                &&& p.fields.len() == names.len()
                &&& forall|i: int|
                    0 <= i < names.len() ==> (#[trigger] p.fields[i]).name == names[i]
                        && row.fields.contains(p.fields[i])
                &&& forall|i: int, k: int|
                    0 <= i < names.len() && 0 <= k < row.fields.len() && (
                    #[trigger] row.fields[k]).name == names[i] && (forall|j: int|
                        0 <= j < k ==> (#[trigger] row.fields[j]).name != names[i])
                        ==> #[trigger] p.fields[i] == row.fields[k]
            },
            Err(e) => e is IllegalArgument && exists|i: int|
                0 <= i < names.len() && forall|k: int|
                    0 <= k < row.fields.len() ==> (#[trigger] row.fields[k]).name
                        != #[trigger] names[i],
        },
{
    let held = row.names();
    name_list::first_absent_iff(names, held);
    assert(forall|k: int| 0 <= k < row.fields.len() ==> #[trigger] held[k] == row.fields[k].name);
    if let Ok(p) = row.projected(names) {
        assert forall|i: int| 0 <= i < names.len() implies (#[trigger] p.fields[i]).name == names[i]
            && row.fields.contains(p.fields[i]) by {
            assert(held.contains(names[i]));
            name_list::position_is_first(held, names[i]);
        }
        assert forall|i: int, k: int|
            0 <= i < names.len() && 0 <= k < row.fields.len() && (#[trigger] row.fields[k]).name
                == names[i] && (forall|j: int|
                0 <= j < k ==> (#[trigger] row.fields[j]).name
                    != names[i]) implies #[trigger] p.fields[i] == row.fields[k] by {
            assert forall|j: int| 0 <= j < k implies held[j] != names[i] by {
                assert(row.fields[j].name != names[i]);
            }
            name_list::position_at(held, names[i], k);
        }
    } else {
        let name = name_list::first_absent(names, held)->0;
        let i = choose|i: int| 0 <= i < names.len() && names[i] == name;
        assert forall|k: int| 0 <= k < row.fields.len() implies (#[trigger] row.fields[k]).name
            != names[i] by {
            assert(held[k] == row.fields[k].name);
        }
        assert(0 <= i < names.len() && forall|k: int|
            0 <= k < row.fields.len() ==> (#[trigger] row.fields[k]).name != #[trigger] names[i]);
    }
}

/// Decimals have 1 to 38 digits, and no more of them behind the point than there
/// are.
pub proof fn digits_of_decimals(precision: u32, scale: u32)
    ensures
        DecimalType::admits(precision, scale) <==> 1 <= precision <= 38 && scale <= precision,
{
}

/// Fields that are given by their type alone are named `f` and their number, so
/// that no two have the same name; those with a name have it. Neither has an id or
/// a description.
pub proof fn fields_without_more(
    name: Seq<char>,
    data_type: TypeView,
    i: nat,
    j: nat,
)
    ensures
        unnamed_field(data_type, i as int).name.len() > 0,
        unnamed_field(data_type, i as int).name[0] == 'f',
        text::digits_value(unnamed_field(data_type, i as int).name.skip(1)) == Some(i),
        i != j ==> unnamed_field(data_type, i as int).name != unnamed_field(
            data_type,
            j as int,
        ).name,
        unnamed_field(data_type, i as int).data_type == data_type,
        unnamed_field(data_type, i as int).description is None,
        unnamed_field(data_type, i as int).field_id == -1,
        named_field(name, data_type).name == name,
        named_field(name, data_type).data_type == data_type,
        named_field(name, data_type).description is None,
        named_field(name, data_type).field_id == -1,
{
    reveal_strlit("f");
    text::numbers_are_plain(i);
    text::numbers_are_plain(j);
    assert(unnamed_field(data_type, i as int).name.skip(1) =~= text::nat_text(i));
    assert(unnamed_field(data_type, j as int).name.skip(1) =~= text::nat_text(j));
}

} // verus!
