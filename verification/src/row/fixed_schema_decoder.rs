//! Decoding rows of one schema to the columns of another.

use vstd::prelude::*;

use crate::error::{Error, ErrorView, Result};
use crate::metadata::datatype::{FieldView, RowType, RowView};
use crate::metadata::formats::KvFormat;
use crate::metadata::schema::Schema;
use crate::record::kv::SCHEMA_ID_LENGTH;
use crate::row::compacted::compacted_row::{self, CompactedRow};
use crate::row::datum::{self, Datum, DatumView};
use crate::row::generic_row::GenericRow;
use crate::row::internal_row::InternalRow;
use crate::row::lookup_row::LookupRow;
use crate::row::row_decoder;
use crate::text::{self, u64_to_text};

verus! {

/// The place of the first column with an id.
pub open spec fn place_of_id(columns: Seq<FieldView>, id: i32) -> Option<int>
    decreases columns.len(),
{
    if columns.len() == 0 {
        None
    } else {
        match place_of_id(columns.drop_last(), id) {
            Some(i) => Some(i),
            None => if columns.last().field_id == id {
                Some(columns.len() - 1)
            } else {
                None
            },
        }
    }
}

/// Where the columns of one schema stand in another, by their ids.
pub open spec fn column_mapping(source: Seq<FieldView>, target: Seq<FieldView>) -> Seq<
    Option<int>,
> {
    Seq::new(target.len(), |i: int| place_of_id(source, target[i].field_id))
}

/// A place is that of a column.
pub proof fn place_is_held(columns: Seq<FieldView>, id: i32)
    ensures
        place_of_id(columns, id) matches Some(k) ==> 0 <= k < columns.len() && columns[k].field_id
            == id,
    decreases columns.len(),
{
    if columns.len() > 0 {
        place_is_held(columns.drop_last(), id);
    }
}

/// How rows are decoded.
pub struct FixedSchemaView {
    /// The type of the rows.
    pub row_type: RowView,
    /// Where each column of the result comes from. A column from nowhere is null.
    pub mapping: Seq<Option<int>>,
}

impl FixedSchemaView {
    /// Whether every column comes from a column that there is.
    pub open spec fn valid(self) -> bool {
        forall|i: int|
            0 <= i < self.mapping.len() ==> (#[trigger] self.mapping[i] matches Some(k) ==> 0 <= k
                < self.row_type.fields.len())
    }

    /// A row with the columns of the result.
    pub open spec fn project(self, values: Seq<DatumView>) -> Seq<DatumView> {
        Seq::new(
            self.mapping.len(),
            |i: int|
                match self.mapping[i] {
                    Some(k) => values[k],
                    None => DatumView::Null,
                },
        )
    }

    /// The values of a row behind its schema id, or why there are none.
    pub open spec fn decoded(self, bytes: Seq<u8>) -> core::result::Result<
        Seq<DatumView>,
        ErrorView,
    > {
        if bytes.len() < SCHEMA_ID_LENGTH {
            Err(too_short(bytes))
        } else {
            match compacted_row::row_values(self.row_type, bytes.skip(SCHEMA_ID_LENGTH as int)) {
                Ok(values) => Ok(self.project(values)),
                Err(e) => Err(e),
            }
        }
    }
}

/// The error for a row that is too short for a schema id.
pub open spec fn too_short(bytes: Seq<u8>) -> ErrorView {
    ErrorView::RowConvertError(
        "Row payload too short: "@ + text::nat_text(bytes.len()) + " bytes, need at least "@
            + text::nat_text(SCHEMA_ID_LENGTH as nat) + " for schema id"@,
    )
}

pub fn too_short_error(bytes: &[u8]) -> (r: Error)
    ensures
        r@ == too_short(bytes@),
{
    Error::row_convert(
        text::concat5(
            "Row payload too short: ",
            u64_to_text(bytes.len() as u64).as_str(),
            " bytes, need at least ",
            u64_to_text(SCHEMA_ID_LENGTH as u64).as_str(),
            " for schema id",
        ),
    )
}

/// Decodes rows of one schema to the columns of another.
#[derive(Debug)]
pub struct FixedSchemaDecoder {
    row_type: RowType,
    mapping: Vec<Option<usize>>,
}

/// Places as integers.
pub open spec fn places(mapping: Seq<Option<usize>>) -> Seq<Option<int>> {
    Seq::new(
        mapping.len(),
        |i: int|
            match mapping[i] {
                Some(k) => Some(k as int),
                None => None,
            },
    )
}

impl View for FixedSchemaDecoder {
    type V = FixedSchemaView;

    closed spec fn view(&self) -> FixedSchemaView {
        FixedSchemaView { row_type: self.row_type@, mapping: places(self.mapping@) }
    }
}

impl FixedSchemaDecoder {
    /// A decoder of rows of `source` to the columns of `target`.
    pub fn new(kv_format: KvFormat, source: &Schema, target: &Schema) -> (r: Result<Self>)
        requires
            source@.valid(),
        ensures
            match row_decoder::decoder_for(kv_format, source@.row_type) {
                Ok(row_type) => r is Ok && r->Ok_0@.valid() && r->Ok_0@ == (FixedSchemaView {
                    row_type,
                    mapping: column_mapping(source@.columns, target@.columns),
                }),
                Err(e) => r is Err && r->Err_0@ == e,
            },
    {
        match kv_format {
            KvFormat::COMPACTED => {},
            KvFormat::INDEXED => {
                return Err(
                    Error::unsupported("RowDecoder for INDEXED format is not yet implemented"),
                );
            },
        }
        let ghost from = source@.columns;
        let ghost to = target@.columns;
        let wanted = target.columns();
        let held = source.columns();
        let mut mapping: Vec<Option<usize>> = Vec::new();
        let mut i: usize = 0;
        while i < wanted.len()
            invariant
                i <= wanted@.len(),
                crate::metadata::schema::column_views(wanted@) == to,
                crate::metadata::schema::column_views(held@) == from,
                mapping@.len() == i,
                forall|j: int|
                    0 <= j < i ==> #[trigger] places(mapping@)[j] == place_of_id(
                        from,
                        to[j].field_id,
                    ),
                forall|j: int|
                    0 <= j < i ==> (#[trigger] mapping@[j] matches Some(k) ==> k < from.len()),
            decreases wanted@.len() - i,
        {
            let id: i32 = wanted[i].id();
            assert(to[i as int] == wanted@[i as int]@);
            let mut found: Option<usize> = None;
            let mut k: usize = 0;
            assert(from.take(0) =~= Seq::<FieldView>::empty());
            while k < held.len()
                invariant
                    k <= held@.len(),
                    crate::metadata::schema::column_views(held@) == from,
                    match found {
                        Some(p) => p < k && place_of_id(from.take(k as int), id) == Some(p as int),
                        None => place_of_id(from.take(k as int), id) is None,
                    },
                decreases held@.len() - k,
            {
                assert(from.take(k + 1).drop_last() =~= from.take(k as int));
                assert(from.take(k + 1).last() == held@[k as int]@);
                if found.is_none() && held[k].id() == id {
                    found = Some(k);
                }
                k = k + 1;
            }
            assert(from.take(k as int) =~= from);
            let ghost before = mapping@;
            mapping.push(found);
            assert forall|j: int| 0 <= j < i + 1 implies #[trigger] places(mapping@)[j]
                == place_of_id(from, to[j].field_id) by {
                if j < i {
                    assert(places(mapping@)[j] == places(before)[j]);
                }
            }
            i = i + 1;
        }
        let r = FixedSchemaDecoder { row_type: source.row_type().clone(), mapping };
        assert(r@.mapping =~= column_mapping(from, to));
        Ok(r)
    }

    /// A decoder of rows of a schema to its own columns.
    pub fn new_no_projection(kv_format: KvFormat, schema: &Schema) -> (r: Result<Self>)
        ensures
            match row_decoder::decoder_for(kv_format, schema@.row_type) {
                Ok(row_type) => r is Ok && r->Ok_0@.valid() && r->Ok_0@ == (FixedSchemaView {
                    row_type,
                    mapping: Seq::new(row_type.fields.len(), |i: int| Some(i)),
                }),
                Err(e) => r is Err && r->Err_0@ == e,
            },
    {
        match kv_format {
            KvFormat::COMPACTED => {},
            KvFormat::INDEXED => {
                return Err(
                    Error::unsupported("RowDecoder for INDEXED format is not yet implemented"),
                );
            },
        }
        let row_type = schema.row_type().clone();
        let mut mapping: Vec<Option<usize>> = Vec::new();
        let mut i: usize = 0;
        while i < row_type.fields.len()
            invariant
                i <= row_type.fields@.len(),
                mapping@.len() == i,
                forall|j: int| 0 <= j < i ==> #[trigger] mapping@[j] == Some(j as usize),
            decreases row_type.fields@.len() - i,
        {
            mapping.push(Some(i));
            i = i + 1;
        }
        let r = FixedSchemaDecoder { row_type, mapping };
        assert(r@.mapping =~= Seq::new(r@.row_type.fields.len(), |i: int| Some(i)));
        Ok(r)
    }

    /// Decodes a row behind its schema id.
    pub fn decode<'a>(&self, bytes: &'a [u8]) -> (r: Result<LookupRow<'a>>)
        requires
            self@.valid(),
        ensures
            match r {
                Ok(row) => self@.decoded(bytes@) == Ok::<Seq<DatumView>, ErrorView>(row.row()),
                Err(e) => self@.decoded(bytes@) == Err::<Seq<DatumView>, ErrorView>(e@),
            },
    {
        if bytes.len() < SCHEMA_ID_LENGTH {
            return Err(too_short_error(bytes));
        }
        let row_bytes = vstd::slice::slice_subrange(bytes, SCHEMA_ID_LENGTH, bytes.len());
        assert(row_bytes@ =~= bytes@.skip(SCHEMA_ID_LENGTH as int));
        let source = match CompactedRow::from_bytes(&self.row_type, row_bytes).into_values() {
            Ok(values) => values,
            Err(e) => {
                return Err(e);
            },
        };
        let ghost decoded = source@;
        proof {
            compacted_row::as_many_values_as_fields(self.row_type@, row_bytes@);
        }
        let mut values: Vec<Datum<'a>> = Vec::new();
        let mut i: usize = 0;
        while i < self.mapping.len()
            invariant
                i <= self.mapping@.len(),
                self@.valid(),
                source@ == decoded,
                decoded.len() == self.row_type@.fields.len(),
                values@.len() == i,
                forall|j: int|
                    0 <= j < i ==> datum::datum_view(#[trigger] values@[j]) == self@.project(
                        decoded,
                    )[j],
            decreases self.mapping@.len() - i,
        {
            match self.mapping[i] {
                Some(k) => {
                    assert(self@.mapping[i as int] == Some(k as int));
                    values.push(source.values[k].clone());
                },
                None => {
                    values.push(Datum::Null);
                },
            }
            i = i + 1;
        }
        assert(datum::datum_views(values@) =~= self@.project(decoded));
        Ok(LookupRow::new(GenericRow { values }))
    }
}

/// A row of a schema decoded to the columns of the same schema is the row.
pub proof fn no_projection_keeps_rows(view: FixedSchemaView, values: Seq<DatumView>)
    requires
        view.mapping == Seq::new(values.len(), |i: int| Some(i)),
    ensures
        view.project(values) == values,
{
    assert(view.project(values) =~= values);
}

/// A row that is read to other columns has one value for each of them: that of
/// the column with the same id, and a null where no column has it.
pub proof fn columns_are_found_by_id(
    row_type: RowView,
    source: Seq<FieldView>,
    target: Seq<FieldView>,
    values: Seq<DatumView>,
    i: int,
)
    requires
        0 <= i < target.len(),
        forall|j: int, k: int|
            0 <= j < k < source.len() ==> (#[trigger] source[j]).field_id != (
            #[trigger] source[k]).field_id,
    ensures
        ({
            let row = (FixedSchemaView {
                row_type,
                mapping: column_mapping(source, target),
            }).project(values);
            &&& row.len() == target.len()
            &&& forall|k: int|
                0 <= k < source.len() && (#[trigger] source[k]).field_id == target[i].field_id
                    ==> row[i] == values[k]
            &&& (forall|k: int|
                0 <= k < source.len() ==> (#[trigger] source[k]).field_id != target[i].field_id)
                ==> row[i] == DatumView::Null
        }),
{
    let id = target[i].field_id;
    place_is_held(source, id);
    assert forall|k: int| 0 <= k < source.len() && (#[trigger] source[k]).field_id == id implies
        place_of_id(source, id) == Some(k) by {
        held_id_has_a_place(source, id, k);
        let p = place_of_id(source, id)->0;
        if p != k {
            assert(source[p].field_id == source[k].field_id);
        }
    }
}

/// An id that a column has has a place.
pub proof fn held_id_has_a_place(columns: Seq<FieldView>, id: i32, k: int)
    requires
        0 <= k < columns.len(),
        columns[k].field_id == id,
    ensures
        place_of_id(columns, id) is Some,
    decreases columns.len(),
{
    if k < columns.len() - 1 {
        held_id_has_a_place(columns.drop_last(), id, k);
    }
}

/// Columns can be moved about and added without a change to the values of those
/// that were there: what a column of the result holds depends on its id alone.
pub proof fn order_of_columns_does_not_count(
    row_type: RowView,
    source: Seq<FieldView>,
    target: Seq<FieldView>,
    other: Seq<FieldView>,
    values: Seq<DatumView>,
    i: int,
    j: int,
)
    requires
        0 <= i < target.len(),
        0 <= j < other.len(),
        target[i].field_id == other[j].field_id,
    ensures
        ({
            let first = (FixedSchemaView { row_type, mapping: column_mapping(source, target) });
            let second = (FixedSchemaView { row_type, mapping: column_mapping(source, other) });
            first.project(values)[i] == second.project(values)[j]
        }),
{
}

/// A row is read behind its two bytes of schema id, and only these are skipped.
pub proof fn schema_id_is_skipped(view: FixedSchemaView, id: Seq<u8>, row: Seq<u8>)
    requires
        id.len() == 2,
    ensures
        (view.decoded(id + row) == match compacted_row::row_values(view.row_type, row) {
            Ok(values) => Ok::<Seq<DatumView>, ErrorView>(view.project(values)),
            Err(e) => Err(e),
        }),
{
    assert((id + row).skip(2) =~= row);
}

} // verus!
