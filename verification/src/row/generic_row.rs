//! Rows that hold their values.

use std::borrow::Cow;

use vstd::prelude::*;

use crate::error::{Error, Result};
use crate::row::datum::{
    self, Date, Datum, DatumView, FlussArray, IntoDatum, Time, TimestampLtz, TimestampNtz,
};
use crate::row::datum_text;
use crate::row::decimal::Decimal;
use crate::row::internal_row::{self, InternalRow};
use crate::text::{concat5, u64_to_text};

verus! {

/// A row that holds its values.
#[derive(Debug, PartialEq, Eq, PartialOrd, Ord, Hash)]
pub struct GenericRow<'a> {
    pub values: Vec<Datum<'a>>,
}

impl<'a> View for GenericRow<'a> {
    type V = Seq<DatumView>;

    open spec fn view(&self) -> Seq<DatumView> {
        datum::datum_views(self.values@)
    }
}

impl<'a> Clone for GenericRow<'a> {
    fn clone(&self) -> (r: Self)
        ensures
            r@ == self@,
    {
        let mut values: Vec<Datum<'a>> = Vec::new();
        let mut i: usize = 0;
        while i < self.values.len()
            invariant
                i <= self.values@.len(),
                values@.len() == i,
                forall|j: int|
                    0 <= j < i ==> datum::datum_view(#[trigger] values@[j]) == datum::datum_view(
                        self.values@[j],
                    ),
            decreases self.values@.len() - i,
        {
            values.push(self.values[i].clone());
            i = i + 1;
        }
        assert(datum::datum_views(values@) =~= self@);
        GenericRow { values }
    }
}

fn mismatch_error(pos: usize, expected: &str, value: &Datum) -> (r: Error)
    ensures
        r@ == internal_row::mismatch(pos as int, expected@, datum_text::datum_text(value@)),
{
    let shown = value.to_debug_string();
    type_mismatch(pos, expected, shown.as_str())
}

/// The error for a value, printed as `shown`, that is not of the expected kind.
pub fn type_mismatch(pos: usize, expected: &str, shown: &str) -> (r: Error)
    ensures
        r@ == internal_row::mismatch(pos as int, expected@, shown@),
{
    let mut message = concat5(
        "type mismatch at position ",
        u64_to_text(pos as u64).as_str(),
        ": expected ",
        expected,
        ", got ",
    );
    message.append(shown);
    Error::illegal_argument(message)
}

/// The error for a position that a row of `count` fields does not have.
pub fn out_of_bounds_error(pos: usize, count: usize) -> (r: Error)
    ensures
        r@ == internal_row::out_of_bounds(pos as int, count as int),
{
    Error::illegal_argument(
        concat5(
            "position ",
            u64_to_text(pos as u64).as_str(),
            " out of bounds (row has ",
            u64_to_text(count as u64).as_str(),
            " fields)",
        ),
    )
}

/// The text that is held, whoever owns it.
pub fn cow_str<'b, 'a>(v: &'b Cow<'a, str>) -> (r: &'b str)
    ensures
        r@ == v@,
{
    match v {
        Cow::Borrowed(s) => *s,
        Cow::Owned(s) => s.as_str(),
    }
}

/// The bytes that are held, whoever owns them.
pub fn cow_bytes<'b, 'a>(v: &'b Cow<'a, [u8]>) -> (r: &'b [u8])
    ensures
        r@ == v@,
{
    match v {
        Cow::Borrowed(b) => *b,
        Cow::Owned(b) => b.as_slice(),
    }
}

impl<'a> GenericRow<'a> {
    fn get_value(&self, pos: usize) -> (r: Result<&Datum<'a>>)
        ensures
            match r {
                Ok(v) => pos < self@.len() && v@ == self@[pos as int] && *v == self.values@[pos as int],
                Err(e) => pos >= self@.len() && e@ == internal_row::out_of_bounds(
                    pos as int,
                    self@.len() as int,
                ),
            },
    {
        if pos < self.values.len() {
            Ok(&self.values[pos])
        } else {
            Err(out_of_bounds_error(pos, self.values.len()))
        }
    }

    /// Consumes this row and returns one whose `Datum` values are all
    /// `'static` (borrowed `Cow`s are promoted to owned, nested rows recurse).
    /// Lets a row outlive the bytes it was decoded from.
    pub fn into_owned(self) -> (r: GenericRow<'static>)
        ensures
            r@ == self@,
    {
        let ghost start = self@;
        let mut values: Vec<Datum<'static>> = Vec::new();
        for v in it: self.values
            invariant
                start == datum::datum_views(it.seq()),
                values@.len() == it.index(),
                forall|j: int|
                    0 <= j < it.index() ==> datum::datum_view(#[trigger] values@[j]) == start[j],
        {
            values.push(v.into_owned());
        }
        assert(datum::datum_views(values@) =~= start);
        GenericRow { values }
    }

    pub fn from_data<D: IntoDatum<'a>>(data: Vec<D>) -> (r: GenericRow<'a>)
        ensures
            r@ == Seq::new(data@.len(), |i: int| data@[i].datum()),
    {
        let ghost all = data@;
        let mut values: Vec<Datum<'a>> = Vec::new();
        for v in it: data
            invariant
                it.seq() == all,
                values@.len() == it.index(),
                forall|j: int|
                    0 <= j < it.index() ==> datum::datum_view(#[trigger] values@[j])
                        == all[j].datum(),
        {
            values.push(v.into_datum());
        }
        assert(datum::datum_views(values@) =~= Seq::new(all.len(), |i: int| all[i].datum()));
        GenericRow { values }
    }

    /// Creates a GenericRow with the specified number of fields, all initialized to null.
    ///
    /// This is useful when you need to create a row with a specific field count
    /// but only want to set some fields (e.g., for KV delete operations where
    /// only primary key fields need to be set).
    pub fn new(field_count: usize) -> (r: GenericRow<'a>)
        ensures
            r@ == Seq::new(field_count as nat, |i: int| DatumView::Null),
    {
        let mut values: Vec<Datum<'a>> = Vec::new();
        let mut i: usize = 0;
        while i < field_count
            invariant
                i <= field_count,
                values@.len() == i,
                forall|j: int| 0 <= j < i ==> (#[trigger] values@[j]) == Datum::<'a>::Null,
            decreases field_count - i,
        {
            values.push(Datum::Null);
            i = i + 1;
        }
        assert(datum::datum_views(values@) =~= Seq::new(
            field_count as nat,
            |i: int| DatumView::Null,
        ));
        GenericRow { values }
    }

    /// Sets the field at the given position to the specified value. The
    /// position must be that of a field.
    pub fn set_field<D: IntoDatum<'a>>(&mut self, pos: usize, value: D)
        requires
            pos < old(self)@.len(),
        ensures
            final(self)@ == old(self)@.update(pos as int, value.datum()),
    {
        let ghost before = self@;
        self.values.set(pos, value.into_datum());
        assert(self@ =~= before.update(pos as int, value.datum()));
    }
}

impl<'a> InternalRow for GenericRow<'a> {
    open spec fn row(&self) -> Seq<DatumView> {
        self@
    }

    fn get_field_count(&self) -> (r: usize) {
        assert(self.row() == self@);
        self.values.len()
    }

    fn is_null_at(&self, pos: usize) -> (r: Result<bool>) {
        match self.get_value(pos) {
            Ok(value) => Ok(value.is_null()),
            Err(e) => Err(e),
        }
    }

    fn get_boolean(&self, pos: usize) -> (r: Result<bool>) {
        match self.get_value(pos) {
            Ok(value) => match value {
                Datum::Bool(v) => Ok(*v),
                other => Err(mismatch_error(pos, "Boolean", other)),
            },
            Err(e) => Err(e),
        }
    }

    fn get_byte(&self, pos: usize) -> (r: Result<i8>) {
        match self.get_value(pos) {
            Ok(value) => match value {
                Datum::Int8(v) => Ok(*v),
                other => Err(mismatch_error(pos, "TinyInt", other)),
            },
            Err(e) => Err(e),
        }
    }

    fn get_short(&self, pos: usize) -> (r: Result<i16>) {
        match self.get_value(pos) {
            Ok(value) => match value {
                Datum::Int16(v) => Ok(*v),
                other => Err(mismatch_error(pos, "SmallInt", other)),
            },
            Err(e) => Err(e),
        }
    }

    fn get_int(&self, pos: usize) -> (r: Result<i32>) {
        match self.get_value(pos) {
            Ok(value) => match value {
                Datum::Int32(v) => Ok(*v),
                other => Err(mismatch_error(pos, "Int", other)),
            },
            Err(e) => Err(e),
        }
    }

    fn get_long(&self, pos: usize) -> (r: Result<i64>) {
        match self.get_value(pos) {
            Ok(value) => match value {
                Datum::Int64(v) => Ok(*v),
                other => Err(mismatch_error(pos, "BigInt", other)),
            },
            Err(e) => Err(e),
        }
    }

    fn get_float(&self, pos: usize) -> (r: Result<u32>) {
        match self.get_value(pos) {
            Ok(value) => match value {
                Datum::Float32(v) => Ok(*v),
                other => Err(mismatch_error(pos, "Float", other)),
            },
            Err(e) => Err(e),
        }
    }

    fn get_double(&self, pos: usize) -> (r: Result<u64>) {
        match self.get_value(pos) {
            Ok(value) => match value {
                Datum::Float64(v) => Ok(*v),
                other => Err(mismatch_error(pos, "Double", other)),
            },
            Err(e) => Err(e),
        }
    }

    fn get_char(&self, pos: usize, _length: usize) -> (r: Result<&str>) {
        self.get_string(pos)
    }

    fn get_string(&self, pos: usize) -> (r: Result<&str>) {
        match self.get_value(pos) {
            Ok(value) => match value {
                Datum::String(v) => Ok(cow_str(v)),
                other => Err(mismatch_error(pos, "String", other)),
            },
            Err(e) => Err(e),
        }
    }

    fn get_decimal(&self, pos: usize, _precision: usize, _scale: usize) -> (r: Result<Decimal>) {
        match self.get_value(pos) {
            Ok(value) => match value {
                Datum::Decimal(v) => Ok(*v),
                other => Err(mismatch_error(pos, "Decimal", other)),
            },
            Err(e) => Err(e),
        }
    }

    fn get_date(&self, pos: usize) -> (r: Result<Date>) {
        match self.get_value(pos) {
            Ok(value) => match value {
                Datum::Date(v) => Ok(*v),
                Datum::Int32(v) => Ok(Date::new(*v)),
                other => Err(mismatch_error(pos, "Date or Int32", other)),
            },
            Err(e) => Err(e),
        }
    }

    fn get_time(&self, pos: usize) -> (r: Result<Time>) {
        match self.get_value(pos) {
            Ok(value) => match value {
                Datum::Time(v) => Ok(*v),
                Datum::Int32(v) => Ok(Time::new(*v)),
                other => Err(mismatch_error(pos, "Time or Int32", other)),
            },
            Err(e) => Err(e),
        }
    }

    fn get_timestamp_ntz(&self, pos: usize, _precision: u32) -> (r: Result<TimestampNtz>) {
        match self.get_value(pos) {
            Ok(value) => match value {
                Datum::TimestampNtz(v) => Ok(*v),
                other => Err(mismatch_error(pos, "TimestampNtz", other)),
            },
            Err(e) => Err(e),
        }
    }

    fn get_timestamp_ltz(&self, pos: usize, _precision: u32) -> (r: Result<TimestampLtz>) {
        match self.get_value(pos) {
            Ok(value) => match value {
                Datum::TimestampLtz(v) => Ok(*v),
                other => Err(mismatch_error(pos, "TimestampLtz", other)),
            },
            Err(e) => Err(e),
        }
    }

    fn get_binary(&self, pos: usize, _length: usize) -> (r: Result<&[u8]>) {
        match self.get_value(pos) {
            Ok(value) => match value {
                Datum::Blob(v) => Ok(cow_bytes(v)),
                other => Err(mismatch_error(pos, "Binary", other)),
            },
            Err(e) => Err(e),
        }
    }

    fn get_bytes(&self, pos: usize) -> (r: Result<&[u8]>) {
        match self.get_value(pos) {
            Ok(value) => match value {
                Datum::Blob(v) => Ok(cow_bytes(v)),
                other => Err(mismatch_error(pos, "Bytes", other)),
            },
            Err(e) => Err(e),
        }
    }

    fn get_array(&self, pos: usize) -> (r: Result<FlussArray>) {
        match self.get_value(pos) {
            Ok(value) => match value {
                Datum::Array(v) => Ok(v.clone()),
                other => Err(mismatch_error(pos, "Array", other)),
            },
            Err(e) => Err(e),
        }
    }

    fn get_row(&self, pos: usize) -> (r: Result<&GenericRow<'_>>)
        ensures
            match r {
                Ok(v) => pos < self@.len() && self@[pos as int].as_row() == Some(v@),
                Err(e) => if pos >= self@.len() {
                    e@ == internal_row::out_of_bounds(pos as int, self@.len() as int)
                } else {
                    self@[pos as int].as_row() is None && e@ == internal_row::mismatch(
                        pos as int,
                        "Row"@,
                        datum_text::datum_text(self@[pos as int]),
                    )
                },
            },
    {
        match self.get_value(pos) {
            Ok(value) => match value {
                Datum::Row(row) => {
                    proof {
                        datum::nested_row_view(*row);
                    }
                    Ok(&**row)
                },
                other => Err(mismatch_error(pos, "Row", other)),
            },
            Err(e) => Err(e),
        }
    }
}

} // verus!
