//! What lookups find.

use std::collections::HashMap;
use std::sync::Arc;

use byteorder::{ByteOrder, LittleEndian};
use vstd::prelude::*;

use crate::error::{Error, ErrorView, Result};
use crate::little_endian;
use crate::metadata::datatype::{RowType, RowView};
use crate::record::kv::SCHEMA_ID_LENGTH;
use crate::record::record_batch::{RecordBatch, RecordBatchView};
use crate::row::compacted::compacted_row;
use crate::row::datum::{self, Datum, DatumView};
use crate::row::fixed_schema_decoder::{
    self, too_short_error, FixedSchemaDecoder, FixedSchemaView,
};
use crate::row::internal_row::InternalRow;
use crate::row::lookup_row::LookupRow;
use crate::text::{self, i64_to_text};

verus! {

broadcast use vstd::std_specs::hash::group_hash_axioms;

/// The decoders that rows were found to need. The decoder of the schema that
/// rows are wanted in is held apart; those of other schemas are added once a row
/// of the schema turns up.
#[derive(Debug)]
pub struct DecoderCache {
    target_id: i16,
    target_decoder: Arc<FixedSchemaDecoder>,
    others: HashMap<i16, Arc<FixedSchemaDecoder>>,
}

/// A [`DecoderCache`] as a value.
pub struct DecoderCacheView {
    pub target_id: i16,
    pub target: FixedSchemaView,
    pub others: Map<i16, FixedSchemaView>,
}

impl View for DecoderCache {
    type V = DecoderCacheView;

    closed spec fn view(&self) -> DecoderCacheView {
        DecoderCacheView {
            target_id: self.target_id,
            target: (*self.target_decoder)@,
            others: self.others@.map_values(|d: Arc<FixedSchemaDecoder>| (*d)@),
        }
    }
}

impl DecoderCacheView {
    /// The decoder for rows of a schema.
    pub open spec fn decoder(self, schema_id: i16) -> Option<FixedSchemaView> {
        if schema_id == self.target_id {
            Some(self.target)
        } else if self.others.contains_key(schema_id) {
            Some(self.others[schema_id])
        } else {
            None
        }
    }

    /// Whether every decoder gives rows of `width` columns.
    pub open spec fn valid(self, width: nat) -> bool {
        &&& gives(self.target, width)
        &&& forall|id: i16| #[trigger]
            self.others.contains_key(id) ==> gives(self.others[id], width)
    }

    /// The row of a schema that bytes hold, or why they hold none.
    pub open spec fn decoded(self, schema_id: i16, bytes: Seq<u8>) -> core::result::Result<
        Seq<DatumView>,
        ErrorView,
    > {
        match self.decoder(schema_id) {
            Some(decoder) => decoder.decoded(bytes),
            None => Err(
                ErrorView::RowConvertError(
                    "No decoder available for schema id "@ + text::int_text(schema_id as int),
                ),
            ),
        }
    }

    /// The row that bytes hold behind the id of its schema, or why they hold none.
    pub open spec fn row_of(self, bytes: Seq<u8>) -> core::result::Result<
        Seq<DatumView>,
        ErrorView,
    > {
        match schema_id(bytes) {
            Ok(id) => self.decoded(id, bytes),
            Err(e) => Err(e),
        }
    }

    /// The rows of a list of bytes, or why the first that is none is none.
    pub open spec fn rows_of(self, rows: Seq<Vec<u8>>) -> core::result::Result<
        Seq<Seq<DatumView>>,
        ErrorView,
    >
        decreases rows.len(),
    {
        if rows.len() == 0 {
            Ok(Seq::empty())
        } else {
            match self.rows_of(rows.drop_last()) {
                Ok(before) => match self.row_of(rows.last()@) {
                    Ok(row) => Ok(before.push(row)),
                    Err(e) => Err(e),
                },
                Err(e) => Err(e),
            }
        }
    }
}

/// Whether a decoder gives rows of `width` columns.
pub open spec fn gives(decoder: FixedSchemaView, width: nat) -> bool {
    decoder.valid() && decoder.mapping.len() == width
}

/// The schema id in front of a row, or why there is none.
pub open spec fn schema_id(bytes: Seq<u8>) -> core::result::Result<i16, ErrorView> {
    let id = little_endian::le_signed(bytes.take(SCHEMA_ID_LENGTH as int));
    if bytes.len() < SCHEMA_ID_LENGTH {
        Err(fixed_schema_decoder::too_short(bytes))
    } else if id < 0 {
        Err(
            ErrorView::RowConvertError(
                "Invalid negative schema id "@ + text::int_text(id)
                    + "; row prefix is corrupt"@,
            ),
        )
    } else {
        Ok(id as i16)
    }
}

/// Once rows stop being rows, they do not start again.
proof fn lemma_rows_prefix(cache: DecoderCacheView, rows: Seq<Vec<u8>>, i: int)
    requires
        0 <= i <= rows.len(),
    ensures
        cache.rows_of(rows.take(i)) matches Err(e) ==> cache.rows_of(rows) == Err::<
            Seq<Seq<DatumView>>,
            ErrorView,
        >(e),
    decreases rows.len(),
{
    if i == rows.len() {
        assert(rows.take(i) =~= rows);
    } else {
        assert(rows.drop_last().take(i) =~= rows.take(i));
        lemma_rows_prefix(cache, rows.drop_last(), i);
    }
}

/// A row that was written behind the id of its schema comes back as the columns
/// that the decoder of the schema gives.
pub proof fn stored_row_is_found(cache: DecoderCacheView, id: i16, values: Seq<DatumView>)
    requires
        0 <= id,
        cache.decoder(id) is Some,
        compacted_row::fields_of(cache.decoder(id)->0.row_type) is Some,
        compacted_row::row_keeps_to_fields(
            compacted_row::fields_of(cache.decoder(id)->0.row_type)->0,
            values,
        ),
    ensures
        cache.row_of(
            little_endian::le_bytes(id as int, SCHEMA_ID_LENGTH as nat)
                + compacted_row::encoded_row(
                compacted_row::fields_of(cache.decoder(id)->0.row_type)->0,
                values,
            ),
        ) == Ok::<Seq<DatumView>, ErrorView>(cache.decoder(id)->0.project(values)),
{
    let fields = compacted_row::fields_of(cache.decoder(id)->0.row_type)->0;
    let head = little_endian::le_bytes(id as int, SCHEMA_ID_LENGTH as nat);
    let row = compacted_row::encoded_row(fields, values);
    let bytes = head + row;
    compacted_row::row_reads_back(fields, values);
    little_endian::le_bytes_len(id as int, SCHEMA_ID_LENGTH as nat);
    little_endian::span_values();
    little_endian::le_signed_of_bytes(id as int, SCHEMA_ID_LENGTH as nat);
    assert(bytes.take(SCHEMA_ID_LENGTH as int) =~= head);
    assert(bytes.skip(SCHEMA_ID_LENGTH as int) =~= row);
}

/// `byteorder::LittleEndian::read_i16`: the number that the first two bytes hold,
/// the lowest byte first, in two's complement. It panics on fewer bytes.
#[verifier::external_body]
pub(crate) fn read_i16(bytes: &[u8]) -> (r: i16)
    requires
        bytes@.len() >= 2,
    ensures
        r == little_endian::le_signed(bytes@.take(2)),
{
    LittleEndian::read_i16(bytes)
}

impl Clone for DecoderCache {
    fn clone(&self) -> (r: Self)
        ensures
            r@ == self@,
    {
        DecoderCache {
            target_id: self.target_id,
            target_decoder: self.target_decoder.clone(),
            others: self.others.clone(),
        }
    }
}

impl DecoderCache {
    pub fn new(target_id: i16, target_decoder: Arc<FixedSchemaDecoder>) -> (r: Self)
        ensures
            r@ == (DecoderCacheView {
                target_id,
                target: (*target_decoder)@,
                others: Map::empty(),
            }),
    {
        let r = DecoderCache { target_id, target_decoder, others: HashMap::new() };
        assert(r@.others =~= Map::empty());
        r
    }

    /// Decodes a row of a schema.
    pub fn decode<'a>(&self, schema_id: i16, bytes: &'a [u8]) -> (r: Result<LookupRow<'a>>)
        requires
            exists|width: nat| self@.valid(width),
        ensures
            match r {
                Ok(row) => self@.decoded(schema_id, bytes@) == Ok::<Seq<DatumView>, ErrorView>(
                    row.row(),
                ),
                Err(e) => self@.decoded(schema_id, bytes@) == Err::<Seq<DatumView>, ErrorView>(e@),
            },
    {
        if schema_id == self.target_id {
            return self.target_decoder.decode(bytes);
        }
        match self.others.get(&schema_id) {
            Some(decoder) => {
                assert(self@.others.contains_key(schema_id));
                decoder.decode(bytes)
            },
            None => {
                let mut message = "No decoder available for schema id ".to_owned();
                message.append(i64_to_text(schema_id as i64).as_str());
                Err(Error::row_convert(message))
            },
        }
    }

    /// Whether there is a decoder for rows of a schema.
    pub fn contains(&self, schema_id: i16) -> (r: bool)
        ensures
            r == self@.decoder(schema_id) is Some,
    {
        schema_id == self.target_id || self.others.contains_key(&schema_id)
    }

    /// Adds a decoder for rows of another schema.
    pub fn insert(&mut self, schema_id: i16, decoder: Arc<FixedSchemaDecoder>)
        ensures
            final(self)@ == (DecoderCacheView {
                others: old(self)@.others.insert(schema_id, (*decoder)@),
                ..old(self)@
            }),
    {
        self.others.insert(schema_id, decoder);
        assert(self@.others =~= old(self)@.others.insert(schema_id, (*decoder)@));
    }

    /// The decoder for rows of a schema.
    pub fn get(&self, schema_id: i16) -> (r: Option<Arc<FixedSchemaDecoder>>)
        ensures
            match r {
                Some(decoder) => self@.decoder(schema_id) == Some((*decoder)@),
                None => self@.decoder(schema_id) is None,
            },
    {
        if schema_id == self.target_id {
            return Some(self.target_decoder.clone());
        }
        match self.others.get(&schema_id) {
            Some(decoder) => Some(decoder.clone()),
            None => None,
        }
    }
}

/// Rows returned from a lookup. Primary-key lookups produce at most one
/// row; prefix-key lookups may produce many. Rows written under older
/// schemas are decoded with the schema of their day and projected to the
/// schema captured when the lookup was created; schema evolutions
/// that land after that point are not picked up by an existing
/// lookup, only by a new one.
#[derive(Debug)]
pub struct LookupResult {
    rows: Vec<Vec<u8>>,
    target_row_type: Arc<RowType>,
    decoders: Arc<DecoderCache>,
}

/// A [`LookupResult`] as a value.
pub struct LookupResultView {
    pub rows: Seq<Vec<u8>>,
    pub row_type: RowView,
    pub decoders: DecoderCacheView,
}

impl View for LookupResult {
    type V = LookupResultView;

    closed spec fn view(&self) -> LookupResultView {
        LookupResultView {
            rows: self.rows@,
            row_type: (*self.target_row_type)@,
            decoders: (*self.decoders)@,
        }
    }
}

impl LookupResultView {
    /// Whether every decoder gives rows of the row type.
    pub open spec fn valid(self) -> bool {
        self.decoders.valid(self.row_type.fields.len())
    }

    /// The only row, none if there is none, or why it is not to be had.
    pub open spec fn single_row(self) -> core::result::Result<Option<Seq<DatumView>>, ErrorView> {
        if self.rows.len() == 0 {
            Ok(None)
        } else if self.rows.len() == 1 {
            match self.decoders.row_of(self.rows[0]@) {
                Ok(row) => Ok(Some(row)),
                Err(e) => Err(e),
            }
        } else {
            Err(
                ErrorView::UnexpectedError(
                    "LookupResult contains multiple rows, use get_rows() instead"@,
                ),
            )
        }
    }

    /// The rows, or why they are not to be had.
    pub open spec fn all_rows(self) -> core::result::Result<Seq<Seq<DatumView>>, ErrorView> {
        self.decoders.rows_of(self.rows)
    }
}

/// The values of rows.
pub open spec fn row_values<'a>(rows: Seq<LookupRow<'a>>) -> Seq<Seq<DatumView>> {
    Seq::new(rows.len(), |i: int| rows[i].row())
}

/// The columns of rows of `width` columns.
pub open spec fn columns_of(rows: Seq<Seq<DatumView>>, width: nat) -> Seq<Seq<DatumView>> {
    Seq::new(width, |c: int| Seq::new(rows.len(), |i: int| rows[i][c]))
}

impl LookupResult {
    pub fn new(
        rows: Vec<Vec<u8>>,
        target_row_type: Arc<RowType>,
        decoders: Arc<DecoderCache>,
    ) -> (r: Self)
        requires
            (*decoders)@.valid((*target_row_type)@.fields.len()),
        ensures
            r@ == (LookupResultView {
                rows: rows@,
                row_type: (*target_row_type)@,
                decoders: (*decoders)@,
            }),
            r@.valid(),
    {
        LookupResult { rows, target_row_type, decoders }
    }

    /// Reads the schema id in front of a row.
    pub fn read_schema_id(bytes: &[u8]) -> (r: Result<i16>)
        ensures
            crate::error::err_view(r) == schema_id(bytes@),
    {
        if bytes.len() < SCHEMA_ID_LENGTH {
            return Err(too_short_error(bytes));
        }
        let id: i16 = read_i16(bytes);
        if id < 0 {
            return Err(
                Error::row_convert(
                    text::concat3(
                        "Invalid negative schema id ",
                        i64_to_text(id as i64).as_str(),
                        "; row prefix is corrupt",
                    ),
                ),
            );
        }
        Ok(id)
    }

    /// Decodes a row with the decoder of its schema.
    pub fn decode<'a>(&self, bytes: &'a [u8]) -> (r: Result<LookupRow<'a>>)
        requires
            self@.valid(),
        ensures
            match r {
                Ok(row) => self@.decoders.row_of(bytes@) == Ok::<Seq<DatumView>, ErrorView>(
                    row.row(),
                ),
                Err(e) => self@.decoders.row_of(bytes@) == Err::<Seq<DatumView>, ErrorView>(e@),
            },
    {
        match Self::read_schema_id(bytes) {
            Ok(id) => self.decoders.decode(id, bytes),
            Err(e) => Err(e),
        }
    }

    /// Returns the single row when exactly one is present, `None` for
    /// empty, or an error if the result holds more than one row.
    pub fn get_single_row(&self) -> (r: Result<Option<LookupRow<'_>>>)
        requires
            self@.valid(),
        ensures
            match r {
                Ok(Some(row)) => self@.single_row() == Ok::<Option<Seq<DatumView>>, ErrorView>(
                    Some(row.row()),
                ),
                Ok(None) => self@.single_row() == Ok::<Option<Seq<DatumView>>, ErrorView>(None),
                Err(e) => self@.single_row() == Err::<Option<Seq<DatumView>>, ErrorView>(e@),
            },
    {
        if self.rows.len() == 0 {
            Ok(None)
        } else if self.rows.len() == 1 {
            match self.decode(self.rows[0].as_slice()) {
                Ok(row) => Ok(Some(row)),
                Err(e) => Err(e),
            }
        } else {
            Err(Error::unexpected("LookupResult contains multiple rows, use get_rows() instead"))
        }
    }

    /// Returns every row.
    pub fn get_rows(&self) -> (r: Result<Vec<LookupRow<'_>>>)
        requires
            self@.valid(),
        ensures
            match r {
                Ok(rows) => self@.all_rows() == Ok::<Seq<Seq<DatumView>>, ErrorView>(
                    row_values(rows@),
                ),
                Err(e) => self@.all_rows() == Err::<Seq<Seq<DatumView>>, ErrorView>(e@),
            },
    {
        let ghost bytes = self.rows@;
        let mut rows: Vec<LookupRow<'_>> = Vec::new();
        let mut i: usize = 0;
        assert(bytes.take(0) =~= Seq::<Vec<u8>>::empty());
        assert(row_values(rows@) =~= Seq::<Seq<DatumView>>::empty());
        while i < self.rows.len()
            invariant
                i <= self.rows@.len(),
                bytes == self.rows@,
                self@.valid(),
                self@.decoders.rows_of(bytes.take(i as int)) == Ok::<
                    Seq<Seq<DatumView>>,
                    ErrorView,
                >(row_values(rows@)),
            decreases self.rows@.len() - i,
        {
            proof {
                assert(bytes.take(i + 1).drop_last() =~= bytes.take(i as int));
                assert(bytes.take(i + 1).last() == bytes[i as int]);
                lemma_rows_prefix(self@.decoders, bytes, i + 1);
            }
            let row = match self.decode(self.rows[i].as_slice()) {
                Ok(row) => row,
                Err(e) => {
                    return Err(e);
                },
            };
            let ghost before = row_values(rows@);
            rows.push(row);
            assert(row_values(rows@) =~= before.push(row.row()));
            i = i + 1;
        }
        assert(bytes.take(i as int) =~= bytes);
        Ok(rows)
    }

    /// Returns every row, column by column.
    pub fn to_record_batch(&self) -> (r: Result<RecordBatch>)
        requires
            self@.valid(),
        ensures
            match r {
                Ok(batch) => {
                    &&& self@.all_rows() is Ok
                    &&& batch@ == (RecordBatchView {
                        columns: columns_of(
                            self@.all_rows()->Ok_0,
                            self@.row_type.fields.len(),
                        ),
                        row_count: self@.rows.len(),
                    })
                },
                Err(e) => self@.all_rows() == Err::<Seq<Seq<DatumView>>, ErrorView>(e@),
            },
    {
        let rows = match self.get_rows() {
            Ok(rows) => rows,
            Err(e) => {
                return Err(e);
            },
        };
        let ghost all = row_values(rows@);
        let width: usize = self.target_row_type.fields.len();
        proof {
            lemma_widths(self@.decoders, self@.rows, width as nat);
        }
        let mut columns: Vec<Vec<Datum<'static>>> = Vec::new();
        let mut c: usize = 0;
        while c < width
            invariant
                c <= width,
                all == row_values(rows@),
                forall|i: int| 0 <= i < all.len() ==> (#[trigger] all[i]).len() == width,
                columns@.len() == c,
                forall|k: int|
                    0 <= k < c ==> datum::datum_views(#[trigger] columns@[k]@) == columns_of(
                        all,
                        width as nat,
                    )[k],
            decreases width - c,
        {
            let mut column: Vec<Datum<'static>> = Vec::new();
            let mut i: usize = 0;
            while i < rows.len()
                invariant
                    i <= rows@.len(),
                    c < width,
                    all == row_values(rows@),
                    forall|i: int| 0 <= i < all.len() ==> (#[trigger] all[i]).len() == width,
                    column@.len() == i,
                    forall|j: int|
                        0 <= j < i ==> datum::datum_view(#[trigger] column@[j]) == all[j][c as int],
                decreases rows@.len() - i,
            {
                assert(all[i as int] == rows@[i as int].row());
                column.push(rows[i].value(c).to_owned_datum());
                i = i + 1;
            }
            assert(datum::datum_views(column@) =~= columns_of(all, width as nat)[c as int]);
            columns.push(column);
            c = c + 1;
        }
        let r = RecordBatch::of_columns(columns, rows.len());
        assert(r@.columns =~= columns_of(all, width as nat));
        Ok(r)
    }
}

/// Every row has as many columns as its decoder gives.
proof fn lemma_widths(cache: DecoderCacheView, rows: Seq<Vec<u8>>, width: nat)
    requires
        cache.valid(width),
    ensures
        cache.rows_of(rows) matches Ok(all) ==> all.len() == rows.len() && forall|i: int|
            0 <= i < all.len() ==> (#[trigger] all[i]).len() == width,
    decreases rows.len(),
{
    if rows.len() > 0 {
        lemma_widths(cache, rows.drop_last(), width);
    }
}

/// The rows of a result are its rows one by one, in their order; where some are
/// none, the first of these says why.
pub proof fn rows_go_one_by_one(result: LookupResultView)
    ensures
        match result.all_rows() {
            Ok(rows) => {
                &&& rows.len() == result.rows.len()
                &&& forall|i: int|
                    0 <= i < rows.len() ==> result.decoders.row_of((#[trigger] result.rows[i])@)
                        == Ok::<Seq<DatumView>, ErrorView>(rows[i])
            },
            Err(e) => exists|i: int|
                0 <= i < result.rows.len() && result.decoders.row_of((#[trigger] result.rows[i])@)
                    == Err::<Seq<DatumView>, ErrorView>(e) && forall|j: int|
                    0 <= j < i ==> result.decoders.row_of((#[trigger] result.rows[j])@) is Ok,
        },
        result.rows.len() == 0 ==> result.single_row() == Ok::<Option<Seq<DatumView>>, ErrorView>(
            None,
        ),
        result.rows.len() == 1 ==> (result.single_row() is Ok <==> result.all_rows() is Ok),
        result.rows.len() == 1 && result.all_rows() is Ok ==> result.single_row() == Ok::<
            Option<Seq<DatumView>>,
            ErrorView,
        >(Some(result.all_rows()->Ok_0[0])),
        result.rows.len() > 1 ==> (result.single_row() matches Err(e) && e is UnexpectedError),
    decreases result.rows.len(),
{
    let all = result.rows;
    if all.len() > 0 {
        let front = LookupResultView { rows: all.drop_last(), ..result };
        rows_go_one_by_one(front);
        assert(forall|i: int| 0 <= i < front.rows.len() ==> #[trigger] front.rows[i] == all[i]);
        assert(all[all.len() - 1] == all.last());
        match front.all_rows() {
            Ok(rows) => {
                assert forall|j: int| 0 <= j < all.len() - 1 implies result.decoders.row_of(
                    (#[trigger] all[j])@,
                ) is Ok by {
                    assert(front.rows[j] == all[j]);
                }
                if let Ok(out) = result.all_rows() {
                    assert forall|i: int| 0 <= i < out.len() implies result.decoders.row_of(
                        (#[trigger] all[i])@,
                    ) == Ok::<Seq<DatumView>, ErrorView>(out[i]) by {
                        if i < front.rows.len() {
                            assert(front.rows[i] == all[i]);
                            assert(out[i] == rows[i]);
                        }
                    }
                } else {
                    let e = result.all_rows()->Err_0;
                    assert(result.decoders.row_of(all[all.len() - 1]@) == Err::<
                        Seq<DatumView>,
                        ErrorView,
                    >(e));
                }
            },
            Err(e) => {
                let i = choose|i: int|
                    0 <= i < front.rows.len() && result.decoders.row_of(
                        (#[trigger] front.rows[i])@,
                    ) == Err::<Seq<DatumView>, ErrorView>(e) && forall|j: int|
                        0 <= j < i ==> result.decoders.row_of((#[trigger] front.rows[j])@) is Ok;
                assert(all[i] == front.rows[i]);
                assert forall|j: int| 0 <= j < i implies result.decoders.row_of(
                    (#[trigger] all[j])@,
                ) is Ok by {
                    assert(front.rows[j] == all[j]);
                }
            },
        }
    }
}

/// The id of a row's schema is what its first two bytes say, the lowest byte first,
/// in two's complement. Negative ids are refused, and so are rows without two bytes.
pub proof fn schema_ids_stand_first(low: u8, high: u8, row: Seq<u8>)
    ensures
        high < 128 ==> schema_id(seq![low, high] + row) == Ok::<i16, ErrorView>(
            (low + 256 * high) as i16,
        ),
        high >= 128 ==> (schema_id(seq![low, high] + row) matches Err(e) && e is RowConvertError),
        row.len() < 2 ==> (schema_id(row) matches Err(e) && e is RowConvertError),
{
    let head = seq![low, high];
    assert((head + row).take(2) =~= head);
    assert(head =~= seq![low] + seq![high]);
    little_endian::bytes_have_their_place(seq![low], seq![high]);
    vstd::arithmetic::power::lemma_pow1(256);
    little_endian::span_values();
    assert(little_endian::le_value(head) == low + 256 * high);
}

/// Columns of rows: each has a value of every row, in the order of the rows.
pub proof fn columns_are_across_rows(rows: Seq<Seq<DatumView>>, width: nat, c: int, i: int)
    requires
        0 <= c < width,
        0 <= i < rows.len(),
    ensures
        columns_of(rows, width).len() == width,
        columns_of(rows, width)[c].len() == rows.len(),
        columns_of(rows, width)[c][i] == rows[i][c],
{
}

/// Rows are read by the decoder of their schema: the wanted schema has its own,
/// another the one that was last given for it, and rows of a schema without one are
/// refused.
pub proof fn rows_are_read_by_their_schema(
    cache: DecoderCacheView,
    id: i16,
    given: FixedSchemaView,
    other: i16,
    bytes: Seq<u8>,
)
    ensures
        ({
            let after = DecoderCacheView { others: cache.others.insert(id, given), ..cache };
            &&& cache.decoder(cache.target_id) == Some(cache.target)
            &&& id != cache.target_id ==> after.decoder(id) == Some(given)
            &&& other != id ==> after.decoder(other) == cache.decoder(other)
            &&& after.decoder(cache.target_id) == Some(cache.target)
        }),
        cache.decoder(id) matches Some(decoder) ==> cache.decoded(id, bytes) == decoder.decoded(
            bytes,
        ),
        cache.decoder(id) is None ==> (cache.decoded(id, bytes) matches Err(e) && e
            is RowConvertError),
        schema_id(bytes) == Ok::<i16, ErrorView>(id) ==> cache.row_of(bytes) == cache.decoded(
            id,
            bytes,
        ),
{
}

} // verus!
