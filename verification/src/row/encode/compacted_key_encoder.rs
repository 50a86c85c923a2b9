//! Key encoder in the compacted format.

use bytes::Bytes;
use vstd::prelude::*;

use crate::byte_buffer;
use crate::error::{Error, ErrorView, Result};
use crate::metadata::datatype::{RowType, RowView};
use crate::name_list;
use crate::row::binary::binary_writer::{BinaryWriter, WriterState};
use crate::row::compacted::compacted_row_writer::{self, CompactedRowWriter};
use crate::row::datum::DatumView;
use crate::row::encode::KeyEncoder;
use crate::row::field_kind::{self, missing_field, unsupported_type, FieldGetter, FieldKind, ValueWriter};
use crate::row::internal_row::{self, InternalRow};
use crate::text::{self, u64_to_text};

verus! {

/// Encodes the key columns of rows in the compacted format, one after the other.
pub struct CompactedKeyEncoder {
    field_getters: Vec<FieldGetter>,
    writer: CompactedRowWriter,
}

/// How the column `name` of a row type is read, where there is one whose type
/// has a kind.
pub open spec fn column_getter(row: RowView, name: Seq<char>) -> Option<FieldGetter> {
    match name_list::position(row.names(), name) {
        Some(i) => match field_kind::kind_of(row.fields[i].data_type) {
            Some(kind) => Some(
                FieldGetter {
                    kind,
                    nullable: row.fields[i].data_type.nullable(),
                    pos: i as usize,
                },
            ),
            None => None,
        },
        None => None,
    }
}

/// Whether the type of the column `name` of a row type has no kind.
pub open spec fn unsupported_column(row: RowView, name: Seq<char>) -> bool {
    name_list::position(row.names(), name) matches Some(i) && field_kind::kind_of(
        row.fields[i].data_type,
    ) is None
}

/// Whether an error says why columns cannot be the key of a row type: because
/// the row type lacks one, or because of the type of the first whose type has no
/// kind.
pub open spec fn refuses_keys(e: ErrorView, row: RowView, keys: Seq<Seq<char>>) -> bool {
    match name_list::first_absent(keys, row.names()) {
        Some(name) => e == field_kind::field_not_found(name, row),
        None => exists|i: int|
            {
                &&& 0 <= i < keys.len()
                &&& unsupported_column(row, #[trigger] keys[i])
                &&& e == field_kind::unsupported(
                    "Unsupported type for value writer: "@,
                    row.fields[name_list::position(row.names(), keys[i])->0].data_type,
                )
                &&& forall|j: int| 0 <= j < i ==> !unsupported_column(row, #[trigger] keys[j])
            },
    }
}

/// How the columns `keys` of a row type are read, where it has all of them and
/// their types have kinds.
pub open spec fn key_fields(row: RowView, keys: Seq<Seq<char>>) -> Option<Seq<FieldGetter>> {
    if forall|i: int| 0 <= i < keys.len() ==> column_getter(row, #[trigger] keys[i]) is Some {
        Some(Seq::new(keys.len(), |i: int| column_getter(row, keys[i])->0))
    } else {
        None
    }
}

/// Whether a row has a key value in a field.
pub open spec fn has_value(getter: FieldGetter, row: Seq<DatumView>) -> bool {
    getter.pos < row.len() && getter.found(row) is Some && !(getter.found(row)->0 is Null)
}

/// The bytes of the key value in a field.
pub open spec fn value_bytes(getter: FieldGetter, row: Seq<DatumView>) -> Seq<u8> {
    compacted_row_writer::compacted_bytes(getter.kind.item(getter.found(row)->0)->0)
}

/// The bytes of the key values in fields, one after the other.
pub open spec fn all_value_bytes(getters: Seq<FieldGetter>, row: Seq<DatumView>) -> Seq<u8>
    decreases getters.len(),
{
    if getters.len() == 0 {
        Seq::empty()
    } else {
        all_value_bytes(getters.drop_last(), row) + value_bytes(getters.last(), row)
    }
}

/// Whether an error says why a row has no key value in the field at place `i` of
/// the key.
pub open spec fn refuses_value(
    e: ErrorView,
    getter: FieldGetter,
    i: int,
    row: Seq<DatumView>,
) -> bool {
    if getter.pos >= row.len() {
        e == internal_row::out_of_bounds(getter.pos as int, row.len() as int)
    } else {
        match getter.found(row) {
            None => e == internal_row::no_such_value(
                getter.pos as int,
                getter.kind.expected(),
                row[getter.pos as int],
            ),
            Some(value) => value is Null && e == ErrorView::IllegalArgument(
                "Cannot encode key with null value at position: "@ + text::nat_text(i as nat),
            ),
        }
    }
}

/// The key of a row, where it has a value in each key field.
pub open spec fn row_key(fields: Seq<FieldGetter>, row: Seq<DatumView>) -> Option<Seq<u8>> {
    if forall|i: int| 0 <= i < fields.len() ==> has_value(#[trigger] fields[i], row) {
        Some(all_value_bytes(fields, row))
    } else {
        None
    }
}

/// Whether an error says why a row has no key: because of the first key field
/// without a value.
pub open spec fn refuses_row(e: ErrorView, fields: Seq<FieldGetter>, row: Seq<DatumView>) -> bool {
    exists|i: int|
        {
            &&& 0 <= i < fields.len()
            &&& !has_value(#[trigger] fields[i], row)
            &&& refuses_value(e, fields[i], i, row)
            &&& forall|j: int| 0 <= j < i ==> has_value(#[trigger] fields[j], row)
        }
}

impl CompactedKeyEncoder {
    /// How the key columns are read from rows.
    pub closed spec fn fields(&self) -> Seq<FieldGetter> {
        self.field_getters@
    }

    pub fn create_key_encoder(row_type: &RowType, keys: &[String]) -> (r: Result<Self>)
        ensures
            match r {
                Ok(encoder) => {
                    &&& encoder.valid()
                    &&& Some(encoder.fields()) == key_fields(row_type@, text::names(keys@))
                },
                Err(e) => key_fields(row_type@, text::names(keys@)) is None && refuses_keys(
                    e@,
                    row_type@,
                    text::names(keys@),
                ),
            },
    {
        let ghost names = text::names(keys@);
        let ghost all = row_type@.names();
        let mut field_getters: Vec<FieldGetter> = Vec::new();
        let mut unsupported: Option<usize> = None;
        let mut i: usize = 0;
        assert(names.take(0) =~= Seq::<Seq<char>>::empty());
        while i < keys.len()
            invariant
                i <= keys@.len(),
                names == text::names(keys@),
                all == row_type@.names(),
                name_list::first_absent(names.take(i as int), all) is None,
                match unsupported {
                    Some(k) => k < row_type.fields@.len() && exists|j: int|
                        {
                            &&& 0 <= j < i
                            &&& unsupported_column(row_type@, #[trigger] names[j])
                            &&& name_list::position(all, names[j]) == Some(k as int)
                            &&& forall|m: int|
                                0 <= m < j ==> !unsupported_column(row_type@, #[trigger] names[m])
                        },
                    None => {
                        &&& field_getters@.len() == i
                        &&& forall|j: int|
                            0 <= j < i ==> Some(#[trigger] field_getters@[j]) == column_getter(
                                row_type@,
                                names[j],
                            )
                    },
                },
            decreases keys@.len() - i,
        {
            proof {
                assert(names.take(i + 1).drop_last() =~= names.take(i as int));
                assert(names.take(i + 1).last() == keys@[i as int]@);
                name_list::position_is_first(all, keys@[i as int]@);
                assert(names[i as int] == keys@[i as int]@);
            }
            match row_type.get_field_index(keys[i].as_str()) {
                Some(k) => {
                    assert(all[k as int] == keys@[i as int]@);
                    let data_type = row_type.fields[k].data_type();
                    assert(row_type@.fields[k as int].data_type == data_type@);
                    match FieldKind::of(data_type) {
                        Some(_) => {
                            if unsupported.is_none() {
                                field_getters.push(FieldGetter::create(data_type, k));
                            }
                        },
                        None => {
                            if unsupported.is_none() {
                                unsupported = Some(k);
                                assert(unsupported_column(row_type@, names[i as int]));
                                assert forall|m: int| 0 <= m < i implies !unsupported_column(
                                    row_type@,
                                    #[trigger] names[m],
                                ) by {
                                    assert(Some(field_getters@[m]) == column_getter(
                                        row_type@,
                                        names[m],
                                    ));
                                }
                            }
                        },
                    }
                },
                None => {
                    proof {
                        lemma_first_absent_at(names, all, i as int);
                        assert(column_getter(row_type@, names[i as int]) is None);
                    }
                    return Err(missing_field(keys[i].as_str(), row_type));
                },
            }
            i = i + 1;
        }
        assert(names.take(i as int) =~= names);
        match unsupported {
            Some(k) => Err(
                unsupported_type(
                    "Unsupported type for value writer: ",
                    row_type.fields[k].data_type(),
                ),
            ),
            None => {
                proof {
                    assert forall|j: int| 0 <= j < names.len() implies column_getter(
                        row_type@,
                        #[trigger] names[j],
                    ) is Some by {
                        assert(Some(field_getters@[j]) == column_getter(row_type@, names[j]));
                    }
                    assert(field_getters@ =~= key_fields(row_type@, names)->0);
                }
                Ok(
                    CompactedKeyEncoder {
                        field_getters,
                        writer: CompactedRowWriter::without_header(),
                    },
                )
            },
        }
    }

    /// The key of a row.
    pub fn encode_row<R: InternalRow + ?Sized>(&mut self, row: &R) -> (r: Result<Bytes>)
        requires
            old(self).valid(),
        ensures
            final(self).valid(),
            final(self).fields() == old(self).fields(),
            match r {
                Ok(bytes) => old(self).key_of(row.row()) == Some(byte_buffer::contents(bytes)),
                Err(e) => old(self).key_of(row.row()) is None && old(self).refuses(e@, row.row()),
            },
    {
        self.writer.reset();
        let ghost getters = self.field_getters@;
        let mut i: usize = 0;
        assert(getters.take(0) =~= Seq::<FieldGetter>::empty());
        while i < self.field_getters.len()
            invariant
                i <= getters.len(),
                self.field_getters@ == getters,
                old(self).fields() == getters,
                self.valid(),
                self.writer.written() == all_value_bytes(getters.take(i as int), row.row()),
                forall|j: int| 0 <= j < i ==> has_value(#[trigger] getters[j], row.row()),
            decreases getters.len() - i,
        {
            let getter = self.field_getters[i];
            proof {
                assert(old(self).fields()[i as int] == getter);
                assert(getters.take(i + 1).drop_last() =~= getters.take(i as int));
                assert(getters.take(i + 1).last() == getter);
            }
            let value = match getter.get_field(row) {
                Ok(value) => value,
                Err(e) => {
                    assert(!has_value(getters[i as int], row.row()));
                    return Err(e);
                },
            };
            if value.is_null() {
                assert(!has_value(getters[i as int], row.row()));
                let mut message = "Cannot encode key with null value at position: ".to_owned();
                message.append(u64_to_text(i as u64).as_str());
                return Err(Error::illegal_argument(message));
            }
            proof {
                field_kind::read_values_are_written(getter.kind, row.row()[getter.pos as int]);
            }
            let writer = ValueWriter { kind: getter.kind, nullable: getter.nullable };
            match writer.write_value(&mut self.writer, i, &value) {
                Ok(_) => {},
                Err(e) => {
                    return Err(e);
                },
            }
            i = i + 1;
        }
        assert(getters.take(i as int) =~= getters);
        self.writer.complete();
        Ok(self.writer.to_bytes())
    }
}

proof fn lemma_first_absent_at(list: Seq<Seq<char>>, other: Seq<Seq<char>>, i: int)
    requires
        0 <= i < list.len(),
        name_list::first_absent(list.take(i), other) is None,
        !other.contains(list[i]),
    ensures
        name_list::first_absent(list, other) == Some(list[i]),
    decreases list.len(),
{
    if i == list.len() - 1 {
        assert(list.take(i) =~= list.drop_last());
    } else {
        assert(list.drop_last().take(i) =~= list.take(i));
        lemma_first_absent_at(list.drop_last(), other, i);
    }
}

impl KeyEncoder for CompactedKeyEncoder {
    closed spec fn valid(&self) -> bool {
        self.writer.valid() && self.writer.start() == Seq::<u8>::empty()
    }

    open spec fn key_of(&self, row: Seq<DatumView>) -> Option<Seq<u8>> {
        row_key(self.fields(), row)
    }

    open spec fn refuses(&self, e: ErrorView, row: Seq<DatumView>) -> bool {
        refuses_row(e, self.fields(), row)
    }

    open spec fn fits(&self, row: Seq<DatumView>) -> bool {
        true
    }

    fn encode_key(&mut self, row: &dyn InternalRow) -> (r: Result<Bytes>) {
        self.encode_row(row)
    }
}

/// A key is the values of its columns one after the other, in the order of the
/// columns; it has none where one of these has no value.
pub proof fn keys_go_column_by_column(
    first: Seq<FieldGetter>,
    second: Seq<FieldGetter>,
    getter: FieldGetter,
    row: Seq<DatumView>,
)
    ensures
        match (row_key(first, row), row_key(second, row)) {
            (Some(a), Some(b)) => row_key(first + second, row) == Some(a + b),
            _ => row_key(first + second, row) is None,
        },
        row_key(Seq::empty(), row) == Some(Seq::<u8>::empty()),
        getter.pos < row.len() && getter.kind.read(row[getter.pos as int]) is Some ==> row_key(
            seq![getter],
            row,
        ) == Some(
            compacted_row_writer::compacted_bytes(
                getter.kind.item(getter.kind.read(row[getter.pos as int])->0)->0,
            ),
        ),
        getter.pos >= row.len() || getter.kind.read(row[getter.pos as int]) is None ==> row_key(
            seq![getter],
            row,
        ) is None,
{
    let one = seq![getter];
    assert(one.drop_last() =~= Seq::<FieldGetter>::empty());
    assert(all_value_bytes(one.drop_last(), row) =~= Seq::<u8>::empty());
    assert(all_value_bytes(one, row) =~= value_bytes(getter, row));
    if getter.pos < row.len() {
        field_kind::values_are_read_as_they_are(getter.kind, row[getter.pos as int]);
    }
    assert(row_key(one, row) is Some <==> has_value(getter, row)) by {
        if has_value(getter, row) {
            assert forall|i: int| 0 <= i < one.len() implies has_value(#[trigger] one[i], row) by {}
        } else {
            assert(!has_value(one[0], row));
        }
    }
    let both = first + second;
    lemma_bytes_of_both(first, second, row);
    if row_key(first, row) is Some && row_key(second, row) is Some {
        assert forall|i: int| 0 <= i < both.len() implies has_value(#[trigger] both[i], row) by {
            if i < first.len() {
                assert(both[i] == first[i]);
            } else {
                assert(both[i] == second[i - first.len()]);
            }
        }
    } else if row_key(first, row) is None {
        let i = choose|i: int| 0 <= i < first.len() && !has_value(#[trigger] first[i], row);
        assert(both[i] == first[i]);
    } else {
        let i = choose|i: int| 0 <= i < second.len() && !has_value(#[trigger] second[i], row);
        assert(both[first.len() + i] == second[i]);
    }
}

proof fn lemma_bytes_of_both(
    first: Seq<FieldGetter>,
    second: Seq<FieldGetter>,
    row: Seq<DatumView>,
)
    ensures
        all_value_bytes(first + second, row) == all_value_bytes(first, row) + all_value_bytes(
            second,
            row,
        ),
    decreases second.len(),
{
    if second.len() > 0 {
        let front = second.drop_last();
        lemma_bytes_of_both(first, front, row);
        assert((first + second).drop_last() =~= first + front);
        assert((first + second).last() == second.last());
        assert(all_value_bytes(first, row) + all_value_bytes(front, row) + value_bytes(
            second.last(),
            row,
        ) =~= all_value_bytes(first, row) + (all_value_bytes(front, row) + value_bytes(
            second.last(),
            row,
        )));
    } else {
        assert(first + second =~= first);
        assert(all_value_bytes(first, row) + Seq::<u8>::empty() =~= all_value_bytes(first, row));
    }
}

/// Key columns are found by name, each for itself: the first column with the name,
/// whatever its kind; a key has no encoder where there is none, or where its type
/// has no kind.
pub proof fn key_columns_are_found_by_name(row: RowView, keys: Seq<Seq<char>>)
    requires
        row.fields.len() <= usize::MAX,
    ensures
        match key_fields(row, keys) {
            Some(getters) => {
                &&& getters.len() == keys.len()
                &&& forall|i: int|
                    0 <= i < keys.len() ==> {
                        let g = #[trigger] getters[i];
                        &&& g.pos < row.fields.len()
                        &&& row.fields[g.pos as int].name == keys[i]
                        &&& Some(g.kind) == field_kind::kind_of(row.fields[g.pos as int].data_type)
                        &&& g.nullable == row.fields[g.pos as int].data_type.nullable()
                        &&& forall|j: int|
                            0 <= j < g.pos ==> (#[trigger] row.fields[j]).name != keys[i]
                    }
            },
            None => exists|i: int|
                0 <= i < keys.len() && forall|j: int|
                    0 <= j < row.fields.len() && (#[trigger] row.fields[j]).name
                        == #[trigger] keys[i] && (forall|h: int|
                        0 <= h < j ==> (#[trigger] row.fields[h]).name != keys[i])
                        ==> field_kind::kind_of(row.fields[j].data_type) is None,
        },
{
    let names = row.names();
    assert(forall|j: int| 0 <= j < row.fields.len() ==> #[trigger] names[j] == row.fields[j].name);
    if let Some(getters) = key_fields(row, keys) {
        assert forall|i: int| 0 <= i < keys.len() implies {
            let g = #[trigger] getters[i];
            &&& g.pos < row.fields.len()
            &&& row.fields[g.pos as int].name == keys[i]
            &&& Some(g.kind) == field_kind::kind_of(row.fields[g.pos as int].data_type)
            &&& g.nullable == row.fields[g.pos as int].data_type.nullable()
            &&& forall|j: int| 0 <= j < g.pos ==> (#[trigger] row.fields[j]).name != keys[i]
        } by {
            assert(column_getter(row, keys[i]) is Some);
            name_list::position_is_first(names, keys[i]);
            let p = name_list::position(names, keys[i])->0;
            assert forall|j: int| 0 <= j < p implies (#[trigger] row.fields[j]).name != keys[i] by {
                assert(names[j] != keys[i]);
            }
        }
    } else {
        let i = choose|i: int| 0 <= i < keys.len() && column_getter(row, #[trigger] keys[i]) is None;
        name_list::position_is_first(names, keys[i]);
        assert forall|j: int|
            0 <= j < row.fields.len() && (#[trigger] row.fields[j]).name == keys[i] && (forall|
                h: int,
            | 0 <= h < j ==> (#[trigger] row.fields[h]).name != keys[i]) implies field_kind::kind_of(
            row.fields[j].data_type,
        ) is None by {
            assert forall|h: int| 0 <= h < j implies names[h] != keys[i] by {
                assert(row.fields[h].name != keys[i]);
            }
            name_list::position_at(names, keys[i], j);
        }
        assert(0 <= i < keys.len() && forall|j: int|
            0 <= j < row.fields.len() && (#[trigger] row.fields[j]).name == #[trigger] keys[i] && (
            forall|h: int| 0 <= h < j ==> (#[trigger] row.fields[h]).name != keys[i])
                ==> field_kind::kind_of(row.fields[j].data_type) is None);
    }
}

/// Only the key columns count: rows that hold the same values there have the same
/// key.
pub proof fn only_key_columns_count(
    fields: Seq<FieldGetter>,
    row: Seq<DatumView>,
    other: Seq<DatumView>,
)
    requires
        forall|i: int|
            0 <= i < fields.len() ==> {
                &&& (#[trigger] fields[i]).pos < row.len()
                &&& fields[i].pos < other.len()
                &&& row[fields[i].pos as int] == other[fields[i].pos as int]
            },
    ensures
        row_key(fields, row) == row_key(fields, other),
    decreases fields.len(),
{
    if fields.len() > 0 {
        let front = fields.drop_last();
        let last = fields.last();
        assert forall|i: int| 0 <= i < front.len() implies {
            &&& (#[trigger] front[i]).pos < row.len()
            &&& front[i].pos < other.len()
            &&& row[front[i].pos as int] == other[front[i].pos as int]
        } by {
            assert(front[i] == fields[i]);
        }
        only_key_columns_count(front, row, other);
        assert(fields[fields.len() - 1] == last);
        keys_go_column_by_column(front, seq![last], last, row);
        keys_go_column_by_column(front, seq![last], last, other);
        assert(front + seq![last] =~= fields);
    } else {
        assert(fields =~= Seq::<FieldGetter>::empty());
        keys_go_column_by_column(fields, fields, FieldGetter { kind: FieldKind::Int, nullable: true, pos: 0 }, row);
        keys_go_column_by_column(fields, fields, FieldGetter { kind: FieldKind::Int, nullable: true, pos: 0 }, other);
    }
}

} // verus!
