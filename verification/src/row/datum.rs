//! Values of fields.

use std::borrow::Cow;

use vstd::prelude::*;

use crate::error::{Error, ErrorView, Result};
use crate::row::decimal::{Decimal, DecimalView};
use crate::row::generic_row::GenericRow;
use crate::text::{self, i64_to_text};

verus! {

/// A calendar day, as days since 1970-01-01.
#[derive(Debug, Clone, Copy, PartialEq, Eq, PartialOrd, Ord, Hash, Structural)]
pub struct Date(pub i32);

impl Date {
    pub fn new(days: i32) -> (r: Self)
        ensures
            r == Date(days),
    {
        Date(days)
    }

    pub fn get_inner(&self) -> (r: i32)
        ensures
            r == self.0,
    {
        self.0
    }
}

/// A time of day, as milliseconds since midnight.
#[derive(Debug, Clone, Copy, PartialEq, Eq, PartialOrd, Ord, Hash, Structural)]
pub struct Time(pub i32);

impl Time {
    pub fn new(millis: i32) -> (r: Self)
        ensures
            r == Time(millis),
    {
        Time(millis)
    }

    pub fn get_inner(&self) -> (r: i32)
        ensures
            r == self.0,
    {
        self.0
    }
}

/// The most nanoseconds that are not yet a millisecond.
pub const MAX_NANO_OF_MILLISECOND: i32 = 999_999;

/// Why a number of nanoseconds is refused.
pub open spec fn nano_error(nanos: i32) -> ErrorView {
    ErrorView::IllegalArgument(
        "nanoOfMillisecond must be in range [0, 999999], got: "@ + text::int_text(nanos as int),
    )
}

fn make_nano_error(nanos: i32) -> (r: Error)
    ensures
        r@ == nano_error(nanos),
{
    let mut message = "nanoOfMillisecond must be in range [0, 999999], got: ".to_owned();
    message.append(i64_to_text(nanos as i64).as_str());
    Error::illegal_argument(message)
}

/// A point in time without a time zone.
#[derive(Debug, Clone, Copy, PartialEq, Eq, PartialOrd, Ord, Hash, Structural)]
pub struct TimestampNtz {
    pub millisecond: i64,
    pub nano_of_millisecond: i32,
}

impl TimestampNtz {
    pub fn new(millisecond: i64) -> (r: Self)
        ensures
            r == (TimestampNtz { millisecond, nano_of_millisecond: 0 }),
    {
        TimestampNtz { millisecond, nano_of_millisecond: 0 }
    }

    pub fn from_millis_nanos(millisecond: i64, nano_of_millisecond: i32) -> (r: Result<Self>)
        ensures
            match r {
                Ok(t) => 0 <= nano_of_millisecond <= MAX_NANO_OF_MILLISECOND && t == (TimestampNtz {
                    millisecond,
                    nano_of_millisecond,
                }),
                Err(e) => !(0 <= nano_of_millisecond <= MAX_NANO_OF_MILLISECOND) && e@
                    == nano_error(nano_of_millisecond),
            },
    {
        if nano_of_millisecond < 0 || nano_of_millisecond > MAX_NANO_OF_MILLISECOND {
            return Err(make_nano_error(nano_of_millisecond));
        }
        Ok(TimestampNtz { millisecond, nano_of_millisecond })
    }

    pub fn get_millisecond(&self) -> (r: i64)
        ensures
            r == self.millisecond,
    {
        self.millisecond
    }

    pub fn get_nano_of_millisecond(&self) -> (r: i32)
        ensures
            r == self.nano_of_millisecond,
    {
        self.nano_of_millisecond
    }
}

/// A point in time in the local time zone.
#[derive(Debug, Clone, Copy, PartialEq, Eq, PartialOrd, Ord, Hash, Structural)]
pub struct TimestampLtz {
    pub epoch_millisecond: i64,
    pub nano_of_millisecond: i32,
}

impl TimestampLtz {
    pub fn new(epoch_millisecond: i64) -> (r: Self)
        ensures
            r == (TimestampLtz { epoch_millisecond, nano_of_millisecond: 0 }),
    {
        TimestampLtz { epoch_millisecond, nano_of_millisecond: 0 }
    }

    pub fn from_millis_nanos(epoch_millisecond: i64, nano_of_millisecond: i32) -> (r: Result<Self>)
        ensures
            match r {
                Ok(t) => 0 <= nano_of_millisecond <= MAX_NANO_OF_MILLISECOND && t == (TimestampLtz {
                    epoch_millisecond,
                    nano_of_millisecond,
                }),
                Err(e) => !(0 <= nano_of_millisecond <= MAX_NANO_OF_MILLISECOND) && e@
                    == nano_error(nano_of_millisecond),
            },
    {
        if nano_of_millisecond < 0 || nano_of_millisecond > MAX_NANO_OF_MILLISECOND {
            return Err(make_nano_error(nano_of_millisecond));
        }
        Ok(TimestampLtz { epoch_millisecond, nano_of_millisecond })
    }

    pub fn get_epoch_millisecond(&self) -> (r: i64)
        ensures
            r == self.epoch_millisecond,
    {
        self.epoch_millisecond
    }

    pub fn get_nano_of_millisecond(&self) -> (r: i32)
        ensures
            r == self.nano_of_millisecond,
    {
        self.nano_of_millisecond
    }
}

/// An array in its binary form.
#[derive(Debug, PartialEq, Eq, PartialOrd, Ord, Hash)]
pub struct FlussArray {
    pub data: Vec<u8>,
}

impl View for FlussArray {
    type V = Seq<u8>;

    open spec fn view(&self) -> Seq<u8> {
        self.data@
    }
}

impl Clone for FlussArray {
    fn clone(&self) -> (r: Self)
        ensures
            r@ == self@,
    {
        FlussArray { data: copy_slice(self.data.as_slice()) }
    }
}

/// Copies bytes.
pub fn copy_slice(bytes: &[u8]) -> (r: Vec<u8>)
    ensures
        r@ == bytes@,
{
    let mut out: Vec<u8> = Vec::new();
    let mut i: usize = 0;
    while i < bytes.len()
        invariant
            i <= bytes@.len(),
            out@ == bytes@.take(i as int),
        decreases bytes@.len() - i,
    {
        out.push(bytes[i]);
        assert(out@ =~= bytes@.take(i + 1));
        i = i + 1;
    }
    assert(bytes@.take(i as int) =~= bytes@);
    out
}

/// The value of a field. A floating-point number is held by its bits.
#[derive(Debug, PartialEq, Eq, PartialOrd, Ord, Hash)]
pub enum Datum<'a> {
    Null,
    Bool(bool),
    Int8(i8),
    Int16(i16),
    Int32(i32),
    Int64(i64),
    Float32(u32),
    Float64(u64),
    String(Cow<'a, str>),
    Blob(Cow<'a, [u8]>),
    Decimal(Decimal),
    Date(Date),
    Time(Time),
    TimestampNtz(TimestampNtz),
    TimestampLtz(TimestampLtz),
    Array(FlussArray),
    Row(Box<GenericRow<'a>>),
}

/// A [`Datum`] as a value, whoever owns it; or a field that has no value to be
/// read, with the error that says why.
pub enum DatumView {
    Null,
    Bool(bool),
    Int8(i8),
    Int16(i16),
    Int32(i32),
    Int64(i64),
    Float32(u32),
    Float64(u64),
    String(Seq<char>),
    Blob(Seq<u8>),
    Decimal(DecimalView),
    Date(i32),
    Time(i32),
    TimestampNtz(TimestampNtz),
    TimestampLtz(TimestampLtz),
    Array(Seq<u8>),
    Row(Seq<DatumView>),
    Unreadable(ErrorView),
}

/// The value of a field.
pub open spec fn datum_view(d: Datum) -> DatumView
    decreases d,
{
    match d {
        Datum::Null => DatumView::Null,
        Datum::Bool(v) => DatumView::Bool(v),
        Datum::Int8(v) => DatumView::Int8(v),
        Datum::Int16(v) => DatumView::Int16(v),
        Datum::Int32(v) => DatumView::Int32(v),
        Datum::Int64(v) => DatumView::Int64(v),
        Datum::Float32(v) => DatumView::Float32(v),
        Datum::Float64(v) => DatumView::Float64(v),
        Datum::String(v) => DatumView::String(v@),
        Datum::Blob(v) => DatumView::Blob(v@),
        Datum::Decimal(v) => DatumView::Decimal(v@),
        Datum::Date(v) => DatumView::Date(v.0),
        Datum::Time(v) => DatumView::Time(v.0),
        Datum::TimestampNtz(v) => DatumView::TimestampNtz(v),
        Datum::TimestampLtz(v) => DatumView::TimestampLtz(v),
        Datum::Array(v) => DatumView::Array(v@),
        Datum::Row(row) => DatumView::Row(
            Seq::new(
                row.values@.len(),
                |i: int|
                    if 0 <= i < row.values@.len() {
                        datum_view(row.values@[i])
                    } else {
                        arbitrary()
                    },
            ),
        ),
    }
}

/// The values of fields.
pub open spec fn datum_views(values: Seq<Datum>) -> Seq<DatumView> {
    Seq::new(values.len(), |i: int| datum_view(values[i]))
}

impl<'a> View for Datum<'a> {
    type V = DatumView;

    open spec fn view(&self) -> DatumView {
        datum_view(*self)
    }
}

/// The value of a nested row is that of its fields.
pub proof fn nested_row_view(row: Box<GenericRow>)
    ensures
        datum_view(Datum::Row(row)) == DatumView::Row(datum_views(row.values@)),
{
    assert(datum_view(Datum::Row(row))->Row_0 =~= datum_views(row.values@));
}

impl<'a> Datum<'a> {
    pub fn is_null(&self) -> (r: bool)
        ensures
            r == (self@ is Null),
    {
        match self {
            Datum::Null => true,
            _ => false,
        }
    }

    /// The same value, owned by itself.
    pub fn into_owned(self) -> (r: Datum<'static>)
        ensures
            r@ == self@,
    {
        self.to_owned_datum()
    }

    /// The value, with what it borrowed copied.
    pub fn to_owned_datum(&self) -> (r: Datum<'static>)
        ensures
            r@ == self@,
        decreases self,
    {
        match self {
            Datum::Null => Datum::Null,
            Datum::Bool(v) => Datum::Bool(*v),
            Datum::Int8(v) => Datum::Int8(*v),
            Datum::Int16(v) => Datum::Int16(*v),
            Datum::Int32(v) => Datum::Int32(*v),
            Datum::Int64(v) => Datum::Int64(*v),
            Datum::Float32(v) => Datum::Float32(*v),
            Datum::Float64(v) => Datum::Float64(*v),
            Datum::String(v) => Datum::String(
                Cow::Owned(
                    match v {
                        Cow::Borrowed(s) => (*s).to_owned(),
                        Cow::Owned(s) => s.clone(),
                    },
                ),
            ),
            Datum::Blob(v) => Datum::Blob(
                Cow::Owned(
                    match v {
                        Cow::Borrowed(b) => copy_slice(b),
                        Cow::Owned(b) => copy_slice(b.as_slice()),
                    },
                ),
            ),
            Datum::Decimal(v) => Datum::Decimal(*v),
            Datum::Date(v) => Datum::Date(*v),
            Datum::Time(v) => Datum::Time(*v),
            Datum::TimestampNtz(v) => Datum::TimestampNtz(*v),
            Datum::TimestampLtz(v) => Datum::TimestampLtz(*v),
            Datum::Array(v) => Datum::Array(v.clone()),
            Datum::Row(row) => {
                let mut values: Vec<Datum<'static>> = Vec::new();
                let mut i: usize = 0;
                assert(decreases_to!(self => self->Row_0));
                while i < row.values.len()
                    invariant
                        i <= row.values@.len(),
                        self is Row,
                        *row == self->Row_0,
                        values@.len() == i,
                        forall|j: int|
                            0 <= j < i ==> datum_view(#[trigger] values@[j]) == datum_view(
                                row.values@[j],
                            ),
                    decreases row.values@.len() - i,
                {
                    assert(decreases_to!(self => self->Row_0));
                    assert(decreases_to!(*self->Row_0 => (*self->Row_0).values@[i as int]));
                    values.push(row.values[i].to_owned_datum());
                    i = i + 1;
                }
                let out = Box::new(GenericRow { values });
                proof {
                    assert(datum_views(values@) =~= datum_views(row.values@));
                    nested_row_view(out);
                    nested_row_view(*row);
                }
                Datum::Row(out)
            },
        }
    }
}

impl<'a> Clone for Datum<'a> {
    fn clone(&self) -> (r: Self)
        ensures
            r@ == self@,
        decreases self,
    {
        match self {
            Datum::String(Cow::Borrowed(s)) => Datum::String(Cow::Borrowed(*s)),
            Datum::Blob(Cow::Borrowed(b)) => Datum::Blob(Cow::Borrowed(*b)),
            Datum::Row(row) => {
                let mut values: Vec<Datum<'a>> = Vec::new();
                let mut i: usize = 0;
                assert(decreases_to!(self => self->Row_0));
                while i < row.values.len()
                    invariant
                        i <= row.values@.len(),
                        self is Row,
                        *row == self->Row_0,
                        values@.len() == i,
                        forall|j: int|
                            0 <= j < i ==> datum_view(#[trigger] values@[j]) == datum_view(
                                row.values@[j],
                            ),
                    decreases row.values@.len() - i,
                {
                    assert(decreases_to!(self => self->Row_0));
                    assert(decreases_to!(*self->Row_0 => (*self->Row_0).values@[i as int]));
                    values.push(row.values[i].clone());
                    i = i + 1;
                }
                let out = Box::new(GenericRow { values });
                proof {
                    assert(datum_views(values@) =~= datum_views(row.values@));
                    nested_row_view(out);
                    nested_row_view(*row);
                }
                Datum::Row(out)
            },
            _ => self.to_owned_datum(),
        }
    }
}

/// A value that can stand in a field.
pub trait IntoDatum<'a>: Sized {
    /// What it is as the value of a field.
    spec fn datum(self) -> DatumView;

    fn into_datum(self) -> (r: Datum<'a>)
        ensures
            r@ == self.datum(),
    ;
}

impl<'a> IntoDatum<'a> for bool {
    open spec fn datum(self) -> DatumView {
        DatumView::Bool(self)
    }

    fn into_datum(self) -> (r: Datum<'a>) {
        Datum::Bool(self)
    }
}

impl<'a> From<bool> for Datum<'a> {
    fn from(v: bool) -> (r: Self) {
        Datum::Bool(v)
    }
}

impl<'a> vstd::std_specs::convert::FromSpecImpl<bool> for Datum<'a> {
    open spec fn obeys_from_spec() -> bool {
        true
    }

    open spec fn from_spec(v: bool) -> Self {
        Datum::Bool(v)
    }
}

impl<'a> IntoDatum<'a> for i8 {
    open spec fn datum(self) -> DatumView {
        DatumView::Int8(self)
    }

    fn into_datum(self) -> (r: Datum<'a>) {
        Datum::Int8(self)
    }
}

impl<'a> From<i8> for Datum<'a> {
    fn from(v: i8) -> (r: Self) {
        Datum::Int8(v)
    }
}

impl<'a> vstd::std_specs::convert::FromSpecImpl<i8> for Datum<'a> {
    open spec fn obeys_from_spec() -> bool {
        true
    }

    open spec fn from_spec(v: i8) -> Self {
        Datum::Int8(v)
    }
}

impl<'a> IntoDatum<'a> for i16 {
    open spec fn datum(self) -> DatumView {
        DatumView::Int16(self)
    }

    fn into_datum(self) -> (r: Datum<'a>) {
        Datum::Int16(self)
    }
}

impl<'a> From<i16> for Datum<'a> {
    fn from(v: i16) -> (r: Self) {
        Datum::Int16(v)
    }
}

impl<'a> vstd::std_specs::convert::FromSpecImpl<i16> for Datum<'a> {
    open spec fn obeys_from_spec() -> bool {
        true
    }

    open spec fn from_spec(v: i16) -> Self {
        Datum::Int16(v)
    }
}

impl<'a> IntoDatum<'a> for i32 {
    open spec fn datum(self) -> DatumView {
        DatumView::Int32(self)
    }

    fn into_datum(self) -> (r: Datum<'a>) {
        Datum::Int32(self)
    }
}

impl<'a> From<i32> for Datum<'a> {
    fn from(v: i32) -> (r: Self) {
        Datum::Int32(v)
    }
}

impl<'a> vstd::std_specs::convert::FromSpecImpl<i32> for Datum<'a> {
    open spec fn obeys_from_spec() -> bool {
        true
    }

    open spec fn from_spec(v: i32) -> Self {
        Datum::Int32(v)
    }
}

impl<'a> IntoDatum<'a> for i64 {
    open spec fn datum(self) -> DatumView {
        DatumView::Int64(self)
    }

    fn into_datum(self) -> (r: Datum<'a>) {
        Datum::Int64(self)
    }
}

impl<'a> From<i64> for Datum<'a> {
    fn from(v: i64) -> (r: Self) {
        Datum::Int64(v)
    }
}

impl<'a> vstd::std_specs::convert::FromSpecImpl<i64> for Datum<'a> {
    open spec fn obeys_from_spec() -> bool {
        true
    }

    open spec fn from_spec(v: i64) -> Self {
        Datum::Int64(v)
    }
}

impl<'a> IntoDatum<'a> for Decimal {
    open spec fn datum(self) -> DatumView {
        DatumView::Decimal(self@)
    }

    fn into_datum(self) -> (r: Datum<'a>) {
        Datum::Decimal(self)
    }
}

impl<'a> From<Decimal> for Datum<'a> {
    fn from(v: Decimal) -> (r: Self) {
        Datum::Decimal(v)
    }
}

impl<'a> vstd::std_specs::convert::FromSpecImpl<Decimal> for Datum<'a> {
    open spec fn obeys_from_spec() -> bool {
        true
    }

    open spec fn from_spec(v: Decimal) -> Self {
        Datum::Decimal(v)
    }
}

impl<'a> IntoDatum<'a> for Date {
    open spec fn datum(self) -> DatumView {
        DatumView::Date(self.0)
    }

    fn into_datum(self) -> (r: Datum<'a>) {
        Datum::Date(self)
    }
}

impl<'a> From<Date> for Datum<'a> {
    fn from(v: Date) -> (r: Self) {
        Datum::Date(v)
    }
}

impl<'a> vstd::std_specs::convert::FromSpecImpl<Date> for Datum<'a> {
    open spec fn obeys_from_spec() -> bool {
        true
    }

    open spec fn from_spec(v: Date) -> Self {
        Datum::Date(v)
    }
}

impl<'a> IntoDatum<'a> for Time {
    open spec fn datum(self) -> DatumView {
        DatumView::Time(self.0)
    }

    fn into_datum(self) -> (r: Datum<'a>) {
        Datum::Time(self)
    }
}

impl<'a> From<Time> for Datum<'a> {
    fn from(v: Time) -> (r: Self) {
        Datum::Time(v)
    }
}

impl<'a> vstd::std_specs::convert::FromSpecImpl<Time> for Datum<'a> {
    open spec fn obeys_from_spec() -> bool {
        true
    }

    open spec fn from_spec(v: Time) -> Self {
        Datum::Time(v)
    }
}

impl<'a> IntoDatum<'a> for TimestampNtz {
    open spec fn datum(self) -> DatumView {
        DatumView::TimestampNtz(self)
    }

    fn into_datum(self) -> (r: Datum<'a>) {
        Datum::TimestampNtz(self)
    }
}

impl<'a> From<TimestampNtz> for Datum<'a> {
    fn from(v: TimestampNtz) -> (r: Self) {
        Datum::TimestampNtz(v)
    }
}

impl<'a> vstd::std_specs::convert::FromSpecImpl<TimestampNtz> for Datum<'a> {
    open spec fn obeys_from_spec() -> bool {
        true
    }

    open spec fn from_spec(v: TimestampNtz) -> Self {
        Datum::TimestampNtz(v)
    }
}

impl<'a> IntoDatum<'a> for TimestampLtz {
    open spec fn datum(self) -> DatumView {
        DatumView::TimestampLtz(self)
    }

    fn into_datum(self) -> (r: Datum<'a>) {
        Datum::TimestampLtz(self)
    }
}

impl<'a> From<TimestampLtz> for Datum<'a> {
    fn from(v: TimestampLtz) -> (r: Self) {
        Datum::TimestampLtz(v)
    }
}

impl<'a> vstd::std_specs::convert::FromSpecImpl<TimestampLtz> for Datum<'a> {
    open spec fn obeys_from_spec() -> bool {
        true
    }

    open spec fn from_spec(v: TimestampLtz) -> Self {
        Datum::TimestampLtz(v)
    }
}

impl<'a> IntoDatum<'a> for &'a str {
    open spec fn datum(self) -> DatumView {
        DatumView::String(self@)
    }

    fn into_datum(self) -> (r: Datum<'a>) {
        Datum::String(Cow::Borrowed(self))
    }
}

impl<'a> From<&'a str> for Datum<'a> {
    fn from(v: &'a str) -> (r: Self) {
        Datum::String(Cow::Borrowed(v))
    }
}

impl<'a> vstd::std_specs::convert::FromSpecImpl<&'a str> for Datum<'a> {
    open spec fn obeys_from_spec() -> bool {
        true
    }

    open spec fn from_spec(v: &'a str) -> Self {
        Datum::String(Cow::Borrowed(v))
    }
}

impl<'a> IntoDatum<'a> for String {
    open spec fn datum(self) -> DatumView {
        DatumView::String(self@)
    }

    fn into_datum(self) -> (r: Datum<'a>) {
        Datum::String(Cow::Owned(self))
    }
}

impl<'a> From<String> for Datum<'a> {
    fn from(v: String) -> (r: Self) {
        Datum::String(Cow::Owned(v))
    }
}

impl<'a> vstd::std_specs::convert::FromSpecImpl<String> for Datum<'a> {
    open spec fn obeys_from_spec() -> bool {
        true
    }

    open spec fn from_spec(v: String) -> Self {
        Datum::String(Cow::Owned(v))
    }
}

impl<'a> IntoDatum<'a> for &'a [u8] {
    open spec fn datum(self) -> DatumView {
        DatumView::Blob(self@)
    }

    fn into_datum(self) -> (r: Datum<'a>) {
        Datum::Blob(Cow::Borrowed(self))
    }
}

impl<'a> From<&'a [u8]> for Datum<'a> {
    fn from(v: &'a [u8]) -> (r: Self) {
        Datum::Blob(Cow::Borrowed(v))
    }
}

impl<'a> vstd::std_specs::convert::FromSpecImpl<&'a [u8]> for Datum<'a> {
    open spec fn obeys_from_spec() -> bool {
        true
    }

    open spec fn from_spec(v: &'a [u8]) -> Self {
        Datum::Blob(Cow::Borrowed(v))
    }
}

impl<'a> IntoDatum<'a> for Vec<u8> {
    open spec fn datum(self) -> DatumView {
        DatumView::Blob(self@)
    }

    fn into_datum(self) -> (r: Datum<'a>) {
        Datum::Blob(Cow::Owned(self))
    }
}

impl<'a> From<Vec<u8>> for Datum<'a> {
    fn from(v: Vec<u8>) -> (r: Self) {
        Datum::Blob(Cow::Owned(v))
    }
}

impl<'a> vstd::std_specs::convert::FromSpecImpl<Vec<u8>> for Datum<'a> {
    open spec fn obeys_from_spec() -> bool {
        true
    }

    open spec fn from_spec(v: Vec<u8>) -> Self {
        Datum::Blob(Cow::Owned(v))
    }
}

impl<'a> IntoDatum<'a> for Datum<'a> {
    open spec fn datum(self) -> DatumView {
        self@
    }

    fn into_datum(self) -> (r: Datum<'a>) {
        self
    }
}

} // verus!
