//! Types as diagnostics print them.

use vstd::prelude::*;

use crate::metadata::datatype::{
    self, DataField, DataType, FieldView, RowType, RowView, TypeView,
};
use crate::text::{self, concat3, concat5, i64_to_text, print_opt, u64_to_text};

verus! {

/// Whether values may be absent, as a field of a printed type.
pub open spec fn nullable_text(nullable: bool) -> Seq<char> {
    if nullable {
        "nullable: true"@
    } else {
        "nullable: false"@
    }
}

/// A printed type: its tag, and the name and the printed fields of what is under
/// the tag.
pub open spec fn tagged(tag: Seq<char>, name: Seq<char>, fields: Seq<char>) -> Seq<char> {
    tag + "("@ + name + " { "@ + fields + " })"@
}

/// A type as diagnostics print it.
pub open spec fn type_text(t: TypeView) -> Seq<char>
    decreases t,
{
    match t {
        TypeView::Boolean(x) => tagged("Boolean"@, "BooleanType"@, nullable_text(x.nullable)),
        TypeView::TinyInt(x) => tagged("TinyInt"@, "TinyIntType"@, nullable_text(x.nullable)),
        TypeView::SmallInt(x) => tagged("SmallInt"@, "SmallIntType"@, nullable_text(x.nullable)),
        TypeView::Int(x) => tagged("Int"@, "IntType"@, nullable_text(x.nullable)),
        TypeView::BigInt(x) => tagged("BigInt"@, "BigIntType"@, nullable_text(x.nullable)),
        TypeView::Float(x) => tagged("Float"@, "FloatType"@, nullable_text(x.nullable)),
        TypeView::Double(x) => tagged("Double"@, "DoubleType"@, nullable_text(x.nullable)),
        TypeView::Char(x) => tagged(
            "Char"@,
            "CharType"@,
            nullable_text(x.nullable) + ", length: "@ + text::nat_text(x.length as nat),
        ),
        TypeView::String(x) => tagged("String"@, "StringType"@, nullable_text(x.nullable)),
        TypeView::Decimal(x) => tagged(
            "Decimal"@,
            "DecimalType"@,
            nullable_text(x.nullable) + ", precision: "@ + text::nat_text(x.precision as nat)
                + ", scale: "@ + text::nat_text(x.scale as nat),
        ),
        TypeView::Date(x) => tagged("Date"@, "DateType"@, nullable_text(x.nullable)),
        TypeView::Time(x) => tagged(
            "Time"@,
            "TimeType"@,
            nullable_text(x.nullable) + ", precision: "@ + text::nat_text(x.precision as nat),
        ),
        TypeView::Timestamp(x) => tagged(
            "Timestamp"@,
            "TimestampType"@,
            nullable_text(x.nullable) + ", precision: "@ + text::nat_text(x.precision as nat),
        ),
        TypeView::TimestampLTz(x) => tagged(
            "TimestampLTz"@,
            "TimestampLTzType"@,
            nullable_text(x.nullable) + ", precision: "@ + text::nat_text(x.precision as nat),
        ),
        TypeView::Bytes(x) => tagged("Bytes"@, "BytesType"@, nullable_text(x.nullable)),
        TypeView::Binary(x) => tagged(
            "Binary"@,
            "BinaryType"@,
            nullable_text(x.nullable) + ", length: "@ + text::nat_text(x.length as nat),
        ),
        TypeView::Array(nullable, element) => tagged(
            "Array"@,
            "ArrayType"@,
            nullable_text(nullable) + ", element_type: "@ + type_text(*element),
        ),
        TypeView::Mapping(nullable, key, value) => tagged(
            "Map"@,
            "MapType"@,
            nullable_text(nullable) + ", key_type: "@ + type_text(*key) + ", value_type: "@
                + type_text(*value),
        ),
        TypeView::Row(row) => "Row("@ + row_text(row) + ")"@,
    }
}

/// A row type as diagnostics print it.
pub open spec fn row_text(row: RowView) -> Seq<char>
    decreases row,
{
    "RowType { "@ + nullable_text(row.nullable) + ", fields: ["@ + fields_text(row.fields)
        + "] }"@
}

/// Fields as diagnostics print them, one after the other.
pub open spec fn fields_text(fields: Seq<FieldView>) -> Seq<char>
    decreases fields,
{
    if fields.len() == 0 {
        Seq::empty()
    } else if fields.len() == 1 {
        field_text(fields.last())
    } else {
        fields_text(fields.drop_last()) + ", "@ + field_text(fields.last())
    }
}

/// A field as diagnostics print it.
pub open spec fn field_text(f: FieldView) -> Seq<char>
    decreases f,
{
    "DataField { name: "@ + text::quoted(f.name) + ", data_type: "@ + type_text(f.data_type)
        + ", description: "@ + text::opt_text_shown(f.description) + ", field_id: "@
        + text::int_text(f.field_id as int) + " }"@
}

fn nullable_word(nullable: bool) -> (r: &'static str)
    ensures
        r@ == nullable_text(nullable),
{
    if nullable {
        "nullable: true"
    } else {
        "nullable: false"
    }
}

fn print_tagged(tag: &str, name: &str, fields: &str) -> (r: String)
    ensures
        r@ == tagged(tag@, name@, fields@),
{
    let mut out = concat5(tag, "(", name, " { ", fields);
    out.append(" })");
    out
}

impl DataType {
    /// The type as diagnostics print it.
    pub fn to_debug_string(&self) -> (r: String)
        ensures
            r@ == type_text(self@),
        decreases self,
    {
        match self {
            DataType::Boolean(x) => print_tagged("Boolean", "BooleanType", nullable_word(x.nullable)),
            DataType::TinyInt(x) => print_tagged("TinyInt", "TinyIntType", nullable_word(x.nullable)),
            DataType::SmallInt(x) => print_tagged("SmallInt", "SmallIntType", nullable_word(x.nullable)),
            DataType::Int(x) => print_tagged("Int", "IntType", nullable_word(x.nullable)),
            DataType::BigInt(x) => print_tagged("BigInt", "BigIntType", nullable_word(x.nullable)),
            DataType::Float(x) => print_tagged("Float", "FloatType", nullable_word(x.nullable)),
            DataType::Double(x) => print_tagged("Double", "DoubleType", nullable_word(x.nullable)),
            DataType::Char(x) => {
                let number = u64_to_text(x.length as u64);
                let fields = concat3(nullable_word(x.nullable), ", length: ", number.as_str());
                print_tagged("Char", "CharType", fields.as_str())
            },
            DataType::String(x) => print_tagged("String", "StringType", nullable_word(x.nullable)),
            DataType::Decimal(x) => {
                let precision = u64_to_text(x.precision as u64);
                let scale = u64_to_text(x.scale as u64);
                let fields = concat5(
                    nullable_word(x.nullable),
                    ", precision: ",
                    precision.as_str(),
                    ", scale: ",
                    scale.as_str(),
                );
                print_tagged("Decimal", "DecimalType", fields.as_str())
            },
            DataType::Date(x) => print_tagged("Date", "DateType", nullable_word(x.nullable)),
            DataType::Time(x) => {
                let number = u64_to_text(x.precision as u64);
                let fields = concat3(nullable_word(x.nullable), ", precision: ", number.as_str());
                print_tagged("Time", "TimeType", fields.as_str())
            },
            DataType::Timestamp(x) => {
                let number = u64_to_text(x.precision as u64);
                let fields = concat3(nullable_word(x.nullable), ", precision: ", number.as_str());
                print_tagged("Timestamp", "TimestampType", fields.as_str())
            },
            DataType::TimestampLTz(x) => {
                let number = u64_to_text(x.precision as u64);
                let fields = concat3(nullable_word(x.nullable), ", precision: ", number.as_str());
                print_tagged("TimestampLTz", "TimestampLTzType", fields.as_str())
            },
            DataType::Bytes(x) => print_tagged("Bytes", "BytesType", nullable_word(x.nullable)),
            DataType::Binary(x) => {
                let number = u64_to_text(x.length as u64);
                let fields = concat3(nullable_word(x.nullable), ", length: ", number.as_str());
                print_tagged("Binary", "BinaryType", fields.as_str())
            },
            DataType::Array(x) => {
                assert(decreases_to!(self => self->Array_0));
                let element = x.element_type.to_debug_string();
                let fields = concat3(
                    nullable_word(x.nullable),
                    ", element_type: ",
                    element.as_str(),
                );
                print_tagged("Array", "ArrayType", fields.as_str())
            },
            DataType::Mapping(x) => {
                assert(decreases_to!(self => self->Mapping_0));
                let key = x.key_type.to_debug_string();
                let value = x.value_type.to_debug_string();
                let fields = concat5(
                    nullable_word(x.nullable),
                    ", key_type: ",
                    key.as_str(),
                    ", value_type: ",
                    value.as_str(),
                );
                print_tagged("Map", "MapType", fields.as_str())
            },
            DataType::Row(x) => {
                assert(decreases_to!(self => self->Row_0));
                proof {
                    datatype::row_type_view(*x);
                }
                let row = x.to_debug_string();
                concat3("Row(", row.as_str(), ")")
            },
        }
    }
}

impl RowType {
    /// The row type as diagnostics print it.
    pub fn to_debug_string(&self) -> (r: String)
        ensures
            r@ == row_text(self@),
        decreases self,
    {
        assert(decreases_to!(self => self.fields));
        let fields = print_fields(&self.fields);
        concat5(
            "RowType { ",
            nullable_word(self.nullable),
            ", fields: [",
            fields.as_str(),
            "] }",
        )
    }
}

fn print_fields(fields: &Vec<DataField>) -> (r: String)
    ensures
        r@ == fields_text(datatype::field_views(fields@)),
    decreases fields,
{
    let ghost all = datatype::field_views(fields@);
    let mut out = String::new();
    let mut i: usize = 0;
    assert(all.take(0) =~= Seq::<FieldView>::empty());
    while i < fields.len()
        invariant
            i <= fields@.len(),
            all == datatype::field_views(fields@),
            out@ == fields_text(all.take(i as int)),
        decreases fields@.len() - i,
    {
        assert(all.take(i + 1).drop_last() =~= all.take(i as int));
        assert(all.take(i + 1).last() == all[i as int]);
        assert(decreases_to!(fields => fields@[i as int]));
        if i > 0 {
            out.append(", ");
        }
        let field = fields[i].to_debug_string();
        out.append(field.as_str());
        assert(out@ =~= fields_text(all.take(i + 1)));
        i = i + 1;
    }
    assert(all.take(i as int) =~= all);
    out
}

impl DataField {
    /// The field as diagnostics print it.
    pub fn to_debug_string(&self) -> (r: String)
        ensures
            r@ == field_text(self@),
        decreases self,
    {
        assert(decreases_to!(self => self.data_type));
        let name = text::quote(self.name.as_str());
        let data_type = self.data_type.to_debug_string();
        let mut out = concat5(
            "DataField { name: ",
            name.as_str(),
            ", data_type: ",
            data_type.as_str(),
            ", description: ",
        );
        out.append(print_opt(&self.description).as_str());
        out.append(", field_id: ");
        out.append(i64_to_text(self.field_id as i64).as_str());
        out.append(" }");
        out
    }
}

} // verus!
