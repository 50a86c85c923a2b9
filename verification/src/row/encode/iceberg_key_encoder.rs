//! Primary key encoder for Iceberg lake tiering (single key column).

use bytes::Bytes;
use vstd::prelude::*;

use crate::byte_buffer;
use crate::error::{Error, ErrorView, Result};
use crate::metadata::datatype::{RowType, RowView};
use crate::name_list;
use crate::row::binary::binary_writer::{BinaryWriter, WriterState};
use crate::row::binary::iceberg_binary_row_writer::{
    self, IcebergBinaryRowWriter, INITIAL_SIZE,
};
use crate::row::datum::DatumView;
use crate::row::encode::{self, KeyEncoder};
use crate::row::field_kind::{self, missing_field, FieldGetter, ValueWriter};
use crate::row::internal_row::{self, InternalRow};
use crate::text;

verus! {

/// Encodes the one key column of rows as Iceberg does.
pub struct IcebergKeyEncoder {
    field_getter: FieldGetter,
    field_encoder: ValueWriter,
    writer: IcebergBinaryRowWriter,
}

/// The place of the one key column in a row type, where there is just one and
/// the row type has it.
pub open spec fn key_place(row: RowView, keys: Seq<Seq<char>>) -> Option<int> {
    if keys.len() == 1 {
        name_list::position(row.names(), keys[0])
    } else {
        None
    }
}

/// The error for a number of key columns other than one.
pub open spec fn not_one_key(keys: Seq<Seq<char>>) -> ErrorView {
    ErrorView::IllegalArgument(
        "Key fields must have exactly one field for iceberg format, but got: "@ + text::list_text(
            keys,
        ),
    )
}

/// Whether an error says why columns cannot be the key of a row type: because
/// there is not exactly one, because the row type lacks it, or because of its
/// type.
pub open spec fn refuses_key(e: ErrorView, row: RowView, keys: Seq<Seq<char>>) -> bool {
    if keys.len() != 1 {
        e == not_one_key(keys)
    } else {
        match key_place(row, keys) {
            None => e == field_kind::field_not_found(keys[0], row),
            Some(i) => iceberg_binary_row_writer::iceberg_kind(row.fields[i].data_type) is None
                && iceberg_binary_row_writer::refuses_type(e, row.fields[i].data_type),
        }
    }
}

/// How the key column of a row type is read, where there is one that can be a key.
pub open spec fn key_field(row: RowView, keys: Seq<Seq<char>>) -> Option<FieldGetter> {
    match key_place(row, keys) {
        Some(i) => match iceberg_binary_row_writer::iceberg_kind(row.fields[i].data_type) {
            Some(kind) => Some(
                FieldGetter {
                    kind,
                    nullable: row.fields[i].data_type.nullable(),
                    pos: i as usize,
                },
            ),
            None => None,
        },
        None => None,
    }
}

/// The key of a row, where it has one.
pub open spec fn row_key(field: FieldGetter, row: Seq<DatumView>) -> Option<Seq<u8>> {
    let value = field.found(row);
    if field.pos < row.len() && value is Some && !(value->0 is Null) {
        Some(key_bytes(field, value->0))
    } else {
        None
    }
}

/// The bytes of a key value.
pub open spec fn key_bytes(field: FieldGetter, value: DatumView) -> Seq<u8> {
    iceberg_binary_row_writer::iceberg_bytes(field.kind.item(value)->0)
}

impl IcebergKeyEncoder {
    /// How the key column is read from rows.
    pub closed spec fn field(&self) -> FieldGetter {
        self.field_getter
    }

    /// The size of the buffer that keys are written to.
    pub closed spec fn size(&self) -> int {
        self.writer.size()
    }

    /// Create an Iceberg-format key encoder for the given primary key field names.
    ///
    /// Iceberg tiering requires exactly one primary key column.
    pub fn create_key_encoder(row_type: &RowType, keys: &[String]) -> (r: Result<Self>)
        ensures
            match r {
                Ok(encoder) => {
                    &&& encoder.valid()
                    &&& Some(encoder.field()) == key_field(row_type@, text::names(keys@))
                    &&& encoder.size() == INITIAL_SIZE
                },
                Err(e) => key_field(row_type@, text::names(keys@)) is None && refuses_key(
                    e@,
                    row_type@,
                    text::names(keys@),
                ),
            },
    {
        if keys.len() != 1 {
            let mut message =
                "Key fields must have exactly one field for iceberg format, but got: ".to_owned();
            message.append(text::print_list(keys).as_str());
            return Err(Error::illegal_argument(message));
        }
        let key_name = keys[0].as_str();
        let key_index: usize = match row_type.get_field_index(key_name) {
            Some(i) => i,
            None => {
                return Err(missing_field(key_name, row_type));
            },
        };
        let data_type = row_type.fields[key_index].data_type();
        match IcebergBinaryRowWriter::create_value_writer(data_type) {
            Ok(field_encoder) => {
                let field_getter = FieldGetter::create(data_type, key_index);
                Ok(
                    IcebergKeyEncoder {
                        field_getter,
                        field_encoder,
                        writer: IcebergBinaryRowWriter::new(),
                    },
                )
            },
            Err(e) => Err(e),
        }
    }

    /// The key of a row.
    pub fn encode_row<R: InternalRow + ?Sized>(&mut self, row: &R) -> (r: Result<Bytes>)
        requires
            old(self).valid(),
            encode::key_fits(old(self).key_of(row.row())),
        ensures
            encodes_row(*old(self), *final(self), row.row(), outcome(r)),
    {
        self.writer.reset();
        let value = match self.field_getter.get_field(row) {
            Ok(value) => value,
            Err(e) => {
                return Err(e);
            },
        };
        if value.is_null() {
            return Err(Error::illegal_argument("Cannot encode Iceberg key with null value"));
        }
        proof {
            field_kind::read_values_are_written(
                self.field_getter.kind,
                row.row()[self.field_getter.pos as int],
            );
            iceberg_binary_row_writer::half_fits(
                self.writer,
                key_bytes(self.field_getter, value@).len() as int,
            );
        }
        match self.field_encoder.write_value(&mut self.writer, 0, &value) {
            Ok(_) => {},
            Err(e) => {
                return Err(e);
            },
        }
        self.writer.complete();
        let bytes = self.writer.to_bytes();
        assert(byte_buffer::contents(bytes) =~= key_bytes(self.field_getter, value@));
        Ok(bytes)
    }
}

impl KeyEncoder for IcebergKeyEncoder {
    closed spec fn valid(&self) -> bool {
        &&& self.writer.valid()
        &&& self.field_encoder.kind == self.field_getter.kind
        &&& self.field_encoder.nullable == self.field_getter.nullable
        &&& !(self.field_getter.kind is Array)
    }

    open spec fn key_of(&self, row: Seq<DatumView>) -> Option<Seq<u8>> {
        row_key(self.field(), row)
    }

    open spec fn refuses(&self, e: ErrorView, row: Seq<DatumView>) -> bool {
        refuses_row(e, self.field(), row)
    }

    open spec fn fits(&self, row: Seq<DatumView>) -> bool {
        encode::key_fits(self.key_of(row))
    }

    fn encode_key(&mut self, row: &dyn InternalRow) -> (r: Result<Bytes>)
        ensures
            encodes_row(*old(self), *final(self), row.row(), outcome(r)),
    {
        self.encode_row(row)
    }
}

/// What comes of encoding a row: the bytes of its key, or an error.
pub open spec fn outcome(r: Result<Bytes>) -> core::result::Result<Seq<u8>, ErrorView> {
    match r {
        Ok(bytes) => Ok(byte_buffer::contents(bytes)),
        Err(e) => Err(e@),
    }
}

/// Whether encoding a row takes an encoder from `before` to `after` and gives
/// `result`.
pub open spec fn encodes_row(
    before: IcebergKeyEncoder,
    after: IcebergKeyEncoder,
    row: Seq<DatumView>,
    result: core::result::Result<Seq<u8>, ErrorView>,
) -> bool {
    &&& after.valid()
    &&& after.field() == before.field()
    &&& match result {
        Ok(key) => {
            &&& row_key(before.field(), row) == Some(key)
            &&& after.size() == iceberg_binary_row_writer::grown(
                before.size(),
                0,
                key.len() as int,
            )
        },
        Err(e) => {
            &&& row_key(before.field(), row) is None
            &&& refuses_row(e, before.field(), row)
            &&& after.size() == before.size()
        },
    }
}

/// Whether an encoder went through `encoders` as it encoded `rows` one by one.
pub open spec fn encodes_rows(
    encoders: Seq<IcebergKeyEncoder>,
    rows: Seq<Seq<DatumView>>,
    results: Seq<core::result::Result<Seq<u8>, ErrorView>>,
) -> bool {
    &&& encoders.len() == rows.len() + 1
    &&& results.len() == rows.len()
    &&& forall|i: int|
        0 <= i < rows.len() ==> encodes_row(
            encoders[i],
            #[trigger] encoders[i + 1],
            rows[i],
            results[i],
        )
}

/// After any number of rows, those that were refused among them, an encoder gives
/// for a row what a fresh encoder of the same column gives for any row with the
/// same key value: nothing is left over from earlier rows, and other columns do
/// not count. A row whose key value is null is refused.
pub proof fn only_the_key_column_counts(
    encoders: Seq<IcebergKeyEncoder>,
    rows: Seq<Seq<DatumView>>,
    results: Seq<core::result::Result<Seq<u8>, ErrorView>>,
    after: IcebergKeyEncoder,
    row: Seq<DatumView>,
    result: core::result::Result<Seq<u8>, ErrorView>,
    fresh: IcebergKeyEncoder,
    fresh_after: IcebergKeyEncoder,
    other_row: Seq<DatumView>,
    fresh_result: core::result::Result<Seq<u8>, ErrorView>,
)
    requires
        encodes_rows(encoders, rows, results),
        encodes_row(encoders.last(), after, row, result),
        fresh.field() == encoders[0].field(),
        encodes_row(fresh, fresh_after, other_row, fresh_result),
        fresh.field().pos < row.len(),
        fresh.field().pos < other_row.len(),
        row[fresh.field().pos as int] == other_row[fresh.field().pos as int],
    ensures
        result == fresh_result,
        row[fresh.field().pos as int] is Null ==> (result matches Err(e) && e is IllegalArgument),
{
    lemma_field_stays(encoders, rows, results, rows.len() as int);
}

proof fn lemma_field_stays(
    encoders: Seq<IcebergKeyEncoder>,
    rows: Seq<Seq<DatumView>>,
    results: Seq<core::result::Result<Seq<u8>, ErrorView>>,
    n: int,
)
    requires
        encodes_rows(encoders, rows, results),
        0 <= n <= rows.len(),
    ensures
        encoders[n].field() == encoders[0].field(),
    decreases n,
{
    if n > 0 {
        lemma_field_stays(encoders, rows, results, n - 1);
        assert(encodes_row(encoders[n - 1], encoders[n - 1 + 1], rows[n - 1], results[n - 1]));
    }
}

/// Whether an error says why a row has no key: because it has no such field,
/// because of the value in it, or because there is none.
pub open spec fn refuses_row(e: ErrorView, field: FieldGetter, row: Seq<DatumView>) -> bool {
    if field.pos >= row.len() {
        e == internal_row::out_of_bounds(field.pos as int, row.len() as int)
    } else {
        match field.found(row) {
            None => e == internal_row::no_such_value(
                field.pos as int,
                field.kind.expected(),
                row[field.pos as int],
            ),
            Some(value) => value is Null && e == ErrorView::IllegalArgument(
                "Cannot encode Iceberg key with null value"@,
            ),
        }
    }
}

/// Iceberg's keys are of one column, the one with the name, of a type that they
/// can have. A row has a key where the column has a value that is read as one of
/// its type, and the key is that value alone.
pub proof fn one_column_is_the_key(
    row: RowView,
    keys: Seq<Seq<char>>,
    k: int,
    values: Seq<DatumView>,
)
    requires
        row.fields.len() <= usize::MAX,
        0 <= k < row.fields.len(),
        forall|j: int| 0 <= j < k ==> (#[trigger] row.fields[j]).name != row.fields[k].name,
    ensures
        keys.len() != 1 ==> key_field(row, keys) is None,
        keys.len() == 1 && keys[0] == row.fields[k].name ==> {
            let t = row.fields[k].data_type;
            let kind = iceberg_binary_row_writer::iceberg_kind(t);
            &&& key_field(row, keys) is Some <==> kind is Some
            &&& key_field(row, keys) matches Some(field) ==> {
                &&& field.pos == k
                &&& field.nullable == t.nullable()
                &&& Some(field.kind) == kind
                &&& match row_key(field, values) {
                    Some(key) => {
                        &&& k < values.len()
                        &&& kind->0.read(values[k]) is Some
                        &&& key == iceberg_binary_row_writer::iceberg_bytes(
                            kind->0.item(kind->0.read(values[k])->0)->0,
                        )
                    },
                    None => k >= values.len() || kind->0.read(values[k]) is None,
                }
            }
        },
{
    let names = row.names();
    assert forall|j: int| 0 <= j < k implies names[j] != row.fields[k].name by {
        assert(names[j] == row.fields[j].name);
    }
    name_list::position_at(names, row.fields[k].name, k);
    if let Some(kind) = iceberg_binary_row_writer::iceberg_kind(row.fields[k].data_type) {
        if k < values.len() {
            field_kind::values_are_read_as_they_are(kind, values[k]);
        }
    }
}

} // verus!
