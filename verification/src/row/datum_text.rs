//! Values as diagnostics print them.

use vstd::prelude::*;

use crate::row::datum::{self, Datum, DatumView, TimestampLtz, TimestampNtz};
use crate::row::decimal::{Decimal, DecimalView};
use crate::row::generic_row::{cow_bytes, cow_str, GenericRow};
use crate::text::{self, concat3, concat5, i128_to_text, i64_to_text, u64_to_text};

verus! {

/// What is printed of a value behind the start of its text, up to the bracket
/// that closes it.
pub open spec fn wrapped(start: Seq<char>, inner: Seq<char>) -> Seq<char> {
    start + inner + ")"@
}

/// Bytes as diagnostics print them: a list of numbers.
pub open spec fn bytes_text(bytes: Seq<u8>) -> Seq<char> {
    "["@ + text::joined(
        Seq::new(bytes.len(), |i: int| text::nat_text(bytes[i] as nat)),
        ", "@,
    ) + "]"@
}

/// A decimal number as diagnostics print it.
pub open spec fn decimal_text(d: DecimalView) -> Seq<char> {
    "Decimal { unscaled: "@ + text::int_text(d.unscaled) + ", precision: "@ + text::nat_text(
        d.precision as nat,
    ) + ", scale: "@ + text::nat_text(d.scale as nat) + " }"@
}

/// A timestamp without a time zone as diagnostics print it.
pub open spec fn ntz_text(t: TimestampNtz) -> Seq<char> {
    "TimestampNtz { millisecond: "@ + text::int_text(t.millisecond as int)
        + ", nano_of_millisecond: "@ + text::int_text(t.nano_of_millisecond as int) + " }"@
}

/// A timestamp in the local time zone as diagnostics print it.
pub open spec fn ltz_text(t: TimestampLtz) -> Seq<char> {
    "TimestampLtz { epoch_millisecond: "@ + text::int_text(t.epoch_millisecond as int)
        + ", nano_of_millisecond: "@ + text::int_text(t.nano_of_millisecond as int) + " }"@
}

/// A value as diagnostics print it. A floating-point number is printed by its
/// bits, by which it is held.
pub open spec fn datum_text(value: DatumView) -> Seq<char>
    decreases value,
{
    match value {
        DatumView::Null => "Null"@,
        DatumView::Bool(v) => if v {
            "Bool(true)"@
        } else {
            "Bool(false)"@
        },
        DatumView::Int8(v) => wrapped("Int8("@, text::int_text(v as int)),
        DatumView::Int16(v) => wrapped("Int16("@, text::int_text(v as int)),
        DatumView::Int32(v) => wrapped("Int32("@, text::int_text(v as int)),
        DatumView::Int64(v) => wrapped("Int64("@, text::int_text(v as int)),
        DatumView::Float32(bits) => wrapped("Float32("@, text::nat_text(bits as nat)),
        DatumView::Float64(bits) => wrapped("Float64("@, text::nat_text(bits as nat)),
        DatumView::String(v) => wrapped("String("@, text::quoted(v)),
        DatumView::Blob(v) => wrapped("Blob("@, bytes_text(v)),
        DatumView::Decimal(v) => wrapped("Decimal("@, decimal_text(v)),
        DatumView::Date(v) => wrapped("Date(Date("@, text::int_text(v as int)) + ")"@,
        DatumView::Time(v) => wrapped("Time(Time("@, text::int_text(v as int)) + ")"@,
        DatumView::TimestampNtz(v) => wrapped("TimestampNtz("@, ntz_text(v)),
        DatumView::TimestampLtz(v) => wrapped("TimestampLtz("@, ltz_text(v)),
        DatumView::Array(v) => wrapped("Array(FlussArray { data: "@, bytes_text(v) + " }"@),
        DatumView::Row(values) => "Row(GenericRow { values: ["@ + datum_texts(values) + "] })"@,
        DatumView::Unreadable(_) => "Unreadable"@,
    }
}

/// Values as diagnostics print them, one after the other.
pub open spec fn datum_texts(values: Seq<DatumView>) -> Seq<char>
    decreases values,
{
    if values.len() == 0 {
        Seq::empty()
    } else if values.len() == 1 {
        datum_text(values.last())
    } else {
        datum_texts(values.drop_last()) + ", "@ + datum_text(values.last())
    }
}

fn print_wrapped(start: &str, inner: &str) -> (r: String)
    ensures
        r@ == wrapped(start@, inner@),
{
    concat3(start, inner, ")")
}

/// Prints bytes.
pub fn print_bytes(bytes: &[u8]) -> (r: String)
    ensures
        r@ == bytes_text(bytes@),
{
    let mut parts: Vec<String> = Vec::new();
    let mut i: usize = 0;
    while i < bytes.len()
        invariant
            i <= bytes@.len(),
            parts@.len() == i,
            forall|j: int|
                0 <= j < i ==> (#[trigger] parts@[j])@ == text::nat_text(bytes@[j] as nat),
        decreases bytes@.len() - i,
    {
        parts.push(u64_to_text(bytes[i] as u64));
        i = i + 1;
    }
    assert(text::names(parts@) =~= Seq::new(
        bytes@.len(),
        |i: int| text::nat_text(bytes@[i] as nat),
    ));
    concat3("[", text::join(&parts, ", ").as_str(), "]")
}

impl Decimal {
    /// The number as diagnostics print it.
    pub fn to_debug_string(&self) -> (r: String)
        ensures
            r@ == decimal_text(self@),
    {
        let mut out = concat5(
            "Decimal { unscaled: ",
            i128_to_text(self.unscaled()).as_str(),
            ", precision: ",
            u64_to_text(self.precision() as u64).as_str(),
            ", scale: ",
        );
        out.append(u64_to_text(self.scale() as u64).as_str());
        out.append(" }");
        out
    }
}

impl TimestampNtz {
    /// The timestamp as diagnostics print it.
    pub fn to_debug_string(&self) -> (r: String)
        ensures
            r@ == ntz_text(*self),
    {
        concat5(
            "TimestampNtz { millisecond: ",
            i64_to_text(self.millisecond).as_str(),
            ", nano_of_millisecond: ",
            i64_to_text(self.nano_of_millisecond as i64).as_str(),
            " }",
        )
    }
}

impl TimestampLtz {
    /// The timestamp as diagnostics print it.
    pub fn to_debug_string(&self) -> (r: String)
        ensures
            r@ == ltz_text(*self),
    {
        concat5(
            "TimestampLtz { epoch_millisecond: ",
            i64_to_text(self.epoch_millisecond).as_str(),
            ", nano_of_millisecond: ",
            i64_to_text(self.nano_of_millisecond as i64).as_str(),
            " }",
        )
    }
}

impl<'a> Datum<'a> {
    /// The value as diagnostics print it.
    pub fn to_debug_string(&self) -> (r: String)
        ensures
            r@ == datum_text(self@),
        decreases self,
    {
        match self {
            Datum::Null => "Null".to_owned(),
            Datum::Bool(v) => if *v {
                "Bool(true)".to_owned()
            } else {
                "Bool(false)".to_owned()
            },
            Datum::Int8(v) => print_wrapped("Int8(", i64_to_text(*v as i64).as_str()),
            Datum::Int16(v) => print_wrapped("Int16(", i64_to_text(*v as i64).as_str()),
            Datum::Int32(v) => print_wrapped("Int32(", i64_to_text(*v as i64).as_str()),
            Datum::Int64(v) => print_wrapped("Int64(", i64_to_text(*v).as_str()),
            Datum::Float32(v) => print_wrapped("Float32(", u64_to_text(*v as u64).as_str()),
            Datum::Float64(v) => print_wrapped("Float64(", u64_to_text(*v).as_str()),
            Datum::String(v) => print_wrapped("String(", text::quote(cow_str(v)).as_str()),
            Datum::Blob(v) => print_wrapped("Blob(", print_bytes(cow_bytes(v)).as_str()),
            Datum::Decimal(v) => print_wrapped("Decimal(", v.to_debug_string().as_str()),
            Datum::Date(v) => {
                let mut out = print_wrapped("Date(Date(", i64_to_text(v.0 as i64).as_str());
                out.append(")");
                out
            },
            Datum::Time(v) => {
                let mut out = print_wrapped("Time(Time(", i64_to_text(v.0 as i64).as_str());
                out.append(")");
                out
            },
            Datum::TimestampNtz(v) => print_wrapped(
                "TimestampNtz(",
                v.to_debug_string().as_str(),
            ),
            Datum::TimestampLtz(v) => print_wrapped(
                "TimestampLtz(",
                v.to_debug_string().as_str(),
            ),
            Datum::Array(v) => {
                let mut inner = print_bytes(v.data.as_slice());
                inner.append(" }");
                print_wrapped("Array(FlussArray { data: ", inner.as_str())
            },
            Datum::Row(row) => {
                assert(decreases_to!(self => self->Row_0));
                proof {
                    datum::nested_row_view(*row);
                }
                let values = print_values(row);
                concat3("Row(GenericRow { values: [", values.as_str(), "] })")
            },
        }
    }
}

fn print_values(row: &GenericRow) -> (r: String)
    ensures
        r@ == datum_texts(row@),
    decreases row,
{
    let ghost all = row@;
    let mut out = String::new();
    let mut i: usize = 0;
    assert(all.take(0) =~= Seq::<DatumView>::empty());
    while i < row.values.len()
        invariant
            i <= row.values@.len(),
            all == row@,
            out@ == datum_texts(all.take(i as int)),
        decreases row.values@.len() - i,
    {
        assert(all.take(i + 1).drop_last() =~= all.take(i as int));
        assert(all.take(i + 1).last() == all[i as int]);
        assert(decreases_to!(row => row.values@[i as int]));
        if i > 0 {
            out.append(", ");
        }
        let value = row.values[i].to_debug_string();
        out.append(value.as_str());
        assert(out@ =~= datum_texts(all.take(i + 1)));
        i = i + 1;
    }
    assert(all.take(i as int) =~= all);
    out
}

} // verus!
