//! Rows that lookups return.

use vstd::prelude::*;

use crate::error::Result;
use crate::row::datum::{Date, Datum, DatumView, FlussArray, Time, TimestampLtz, TimestampNtz};
use crate::row::decimal::Decimal;
use crate::row::generic_row::GenericRow;
use crate::row::internal_row::InternalRow;

verus! {

/// A row that a lookup found, with the columns of the schema that it asked for.
#[derive(Debug)]
pub struct LookupRow<'a> {
    values: GenericRow<'a>,
}

impl<'a> LookupRow<'a> {
    pub fn new(values: GenericRow<'a>) -> (r: Self)
        ensures
            r.row() == values@,
    {
        LookupRow { values }
    }

    /// The value of a column.
    pub fn value(&self, pos: usize) -> (r: &Datum<'a>)
        requires
            pos < self.row().len(),
        ensures
            r@ == self.row()[pos as int],
    {
        &self.values.values[pos]
    }

    /// The values of the row.
    pub fn into_values(self) -> (r: GenericRow<'a>)
        ensures
            r@ == self.row(),
    {
        self.values
    }
}

impl<'a> InternalRow for LookupRow<'a> {
    closed spec fn row(&self) -> Seq<DatumView> {
        self.values@
    }

    fn get_field_count(&self) -> (r: usize) {
        self.values.get_field_count()
    }

    fn is_null_at(&self, pos: usize) -> (r: Result<bool>) {
        self.values.is_null_at(pos)
    }

    fn get_boolean(&self, pos: usize) -> (r: Result<bool>) {
        self.values.get_boolean(pos)
    }

    fn get_byte(&self, pos: usize) -> (r: Result<i8>) {
        self.values.get_byte(pos)
    }

    fn get_short(&self, pos: usize) -> (r: Result<i16>) {
        self.values.get_short(pos)
    }

    fn get_int(&self, pos: usize) -> (r: Result<i32>) {
        self.values.get_int(pos)
    }

    fn get_long(&self, pos: usize) -> (r: Result<i64>) {
        self.values.get_long(pos)
    }

    fn get_float(&self, pos: usize) -> (r: Result<u32>) {
        self.values.get_float(pos)
    }

    fn get_double(&self, pos: usize) -> (r: Result<u64>) {
        self.values.get_double(pos)
    }

    fn get_char(&self, pos: usize, length: usize) -> (r: Result<&str>) {
        self.values.get_char(pos, length)
    }

    fn get_string(&self, pos: usize) -> (r: Result<&str>) {
        self.values.get_string(pos)
    }

    fn get_decimal(&self, pos: usize, precision: usize, scale: usize) -> (r: Result<Decimal>) {
        self.values.get_decimal(pos, precision, scale)
    }

    fn get_date(&self, pos: usize) -> (r: Result<Date>) {
        self.values.get_date(pos)
    }

    fn get_time(&self, pos: usize) -> (r: Result<Time>) {
        self.values.get_time(pos)
    }

    fn get_timestamp_ntz(&self, pos: usize, precision: u32) -> (r: Result<TimestampNtz>) {
        self.values.get_timestamp_ntz(pos, precision)
    }

    fn get_timestamp_ltz(&self, pos: usize, precision: u32) -> (r: Result<TimestampLtz>) {
        self.values.get_timestamp_ltz(pos, precision)
    }

    fn get_binary(&self, pos: usize, length: usize) -> (r: Result<&[u8]>) {
        self.values.get_binary(pos, length)
    }

    fn get_bytes(&self, pos: usize) -> (r: Result<&[u8]>) {
        self.values.get_bytes(pos)
    }

    fn get_array(&self, pos: usize) -> (r: Result<FlussArray>) {
        self.values.get_array(pos)
    }

    fn get_row(&self, pos: usize) -> (r: Result<&GenericRow<'_>>) {
        self.values.get_row(pos)
    }
}

} // verus!
