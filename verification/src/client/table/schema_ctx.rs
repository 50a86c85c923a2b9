//! The schema that looked up rows are wanted in, and the schemas that they have.

use std::sync::Arc;

use vstd::prelude::*;

use crate::client::table::lookup_result::{
    self, DecoderCache, DecoderCacheView, LookupResult, LookupResultView,
};
use crate::error::{Error, ErrorView, Result};
use crate::metadata::config;
use crate::metadata::datatype::{RowType, RowView};
use crate::metadata::formats::{self, KvFormat};
use crate::metadata::schema::{Schema, SchemaView};
use crate::metadata::table_info::{TableInfo, TableInfoView};
use crate::row::datum::DatumView;
use crate::row::fixed_schema_decoder::{self, FixedSchemaDecoder, FixedSchemaView};
use crate::row::row_decoder;
use crate::text::{self, i64_to_text};

verus! {

/// The schema of a table when a lookup was created, with the decoders of rows to
/// its columns.
#[derive(Debug)]
pub struct LookupSchemaCtx {
    target_schema: Schema,
    target_row_type: Arc<RowType>,
    kv_format: KvFormat,
    decoders: DecoderCache,
}

/// A [`LookupSchemaCtx`] as a value.
pub struct LookupSchemaView {
    pub schema: SchemaView,
    pub row_type: RowView,
    pub kv_format: KvFormat,
    pub decoders: DecoderCacheView,
}

impl View for LookupSchemaCtx {
    type V = LookupSchemaView;

    closed spec fn view(&self) -> LookupSchemaView {
        LookupSchemaView {
            schema: self.target_schema@,
            row_type: (*self.target_row_type)@,
            kv_format: self.kv_format,
            decoders: self.decoders@,
        }
    }
}

/// Schemas by their ids; of two with one id, the later.
pub open spec fn fetched(schemas: Seq<(i16, Arc<Schema>)>) -> Map<i16, SchemaView>
    decreases schemas.len(),
{
    if schemas.len() == 0 {
        Map::empty()
    } else {
        fetched(schemas.drop_last()).insert(schemas.last().0, (*schemas.last().1)@)
    }
}

/// The ids of schemas that rows have and no decoder is for, each where it first
/// occurs, or why the first row without a schema id has none.
pub open spec fn missing_ids(cache: DecoderCacheView, rows: Seq<Vec<u8>>) -> core::result::Result<
    Seq<i16>,
    ErrorView,
>
    decreases rows.len(),
{
    if rows.len() == 0 {
        Ok(Seq::empty())
    } else {
        match missing_ids(cache, rows.drop_last()) {
            Ok(before) => match lookup_result::schema_id(rows.last()@) {
                Ok(id) => if cache.decoder(id) is None && !before.contains(id) {
                    Ok(before.push(id))
                } else {
                    Ok(before)
                },
                Err(e) => Err(e),
            },
            Err(e) => Err(e),
        }
    }
}

impl LookupSchemaView {
    /// What a lookup in a table starts with, or why there is no such lookup.
    pub open spec fn of(info: TableInfoView) -> core::result::Result<
        LookupSchemaView,
        ErrorView,
    > {
        if !(0 <= info.schema_id <= i16::MAX) {
            Err(
                ErrorView::UnexpectedError(
                    "Schema id "@ + text::int_text(info.schema_id as int)
                        + " does not fit in 16 bits — wire format violated"@,
                ),
            )
        } else {
            match formats::kv_format_named(
                config::property_or(info.table_config, "table.kv.format"@, "COMPACTED"@),
            ) {
                Err(e) => Err(e),
                Ok(kv_format) => match row_decoder::decoder_for(kv_format, info.schema.row_type) {
                    Err(e) => Err(e),
                    Ok(row_type) => Ok(
                        LookupSchemaView {
                            schema: info.schema,
                            row_type: info.row_type,
                            kv_format,
                            decoders: DecoderCacheView {
                                target_id: info.schema_id as i16,
                                target: FixedSchemaView {
                                    row_type,
                                    mapping: Seq::new(row_type.fields.len(), |i: int| Some(i)),
                                },
                                others: Map::empty(),
                            },
                        },
                    ),
                },
            }
        }
    }

    /// Whether every decoder gives the columns of the schema.
    pub open spec fn valid(self) -> bool {
        &&& self.schema.valid()
        &&& self.row_type == self.schema.row_type
        &&& self.kv_format == KvFormat::COMPACTED
        &&& self.decoders.valid(self.row_type.fields.len())
    }

    /// The decoder of rows of another schema to the columns of this one.
    pub open spec fn decoder_from(self, source: SchemaView) -> FixedSchemaView {
        FixedSchemaView {
            row_type: source.row_type,
            mapping: fixed_schema_decoder::column_mapping(source.columns, self.schema.columns),
        }
    }

    /// With decoders of rows of other schemas added.
    pub open spec fn with_schemas(self, schemas: Map<i16, SchemaView>) -> LookupSchemaView {
        LookupSchemaView {
            decoders: DecoderCacheView {
                others: self.decoders.others.union_prefer_right(
                    schemas.map_values(|source: SchemaView| self.decoder_from(source)),
                ),
                ..self.decoders
            },
            ..self
        }
    }

    /// The result with these rows.
    pub open spec fn result(self, rows: Seq<Vec<u8>>) -> LookupResultView {
        LookupResultView { rows, row_type: self.row_type, decoders: self.decoders }
    }
}

/// A row whose schema is missing is one whose schema id is listed.
proof fn lemma_missing(cache: DecoderCacheView, rows: Seq<Vec<u8>>, i: int)
    requires
        missing_ids(cache, rows) is Ok,
        0 <= i < rows.len(),
    ensures
        lookup_result::schema_id(rows[i]@) is Ok,
        cache.decoder(lookup_result::schema_id(rows[i]@)->Ok_0) is None ==> missing_ids(
            cache,
            rows,
        )->Ok_0.contains(lookup_result::schema_id(rows[i]@)->Ok_0),
    decreases rows.len(),
{
    let before = missing_ids(cache, rows.drop_last())->Ok_0;
    let all = missing_ids(cache, rows)->Ok_0;
    if i < rows.len() - 1 {
        lemma_missing(cache, rows.drop_last(), i);
        assert(rows.drop_last()[i] == rows[i]);
        let id = lookup_result::schema_id(rows[i]@)->Ok_0;
        if cache.decoder(id) is None {
            let k = choose|k: int| 0 <= k < before.len() && before[k] == id;
            assert(all[k] == id);
        }
    } else {
        let id = lookup_result::schema_id(rows[i]@)->Ok_0;
        if cache.decoder(id) is None && !before.contains(id) {
            assert(all[all.len() - 1] == id);
        }
    }
}

/// Once the schemas that were missing are there, every row has a decoder.
pub proof fn fetched_schemas_decode_every_row(
    ctx: LookupSchemaView,
    rows: Seq<Vec<u8>>,
    schemas: Map<i16, SchemaView>,
)
    requires
        missing_ids(ctx.decoders, rows) is Ok,
        forall|k: int|
            0 <= k < missing_ids(ctx.decoders, rows)->Ok_0.len() ==> schemas.contains_key(
                #[trigger] missing_ids(ctx.decoders, rows)->Ok_0[k],
            ),
    ensures
        forall|i: int|
            0 <= i < rows.len() ==> ctx.with_schemas(schemas).decoders.decoder(
                lookup_result::schema_id((#[trigger] rows[i])@)->Ok_0,
            ) is Some,
{
    let ids = missing_ids(ctx.decoders, rows)->Ok_0;
    assert forall|i: int| 0 <= i < rows.len() implies ctx.with_schemas(schemas).decoders.decoder(
        lookup_result::schema_id((#[trigger] rows[i])@)->Ok_0,
    ) is Some by {
        lemma_missing(ctx.decoders, rows, i);
        let id = lookup_result::schema_id(rows[i]@)->Ok_0;
        if ctx.decoders.decoder(id) is None {
            let k = choose|k: int| 0 <= k < ids.len() && ids[k] == id;
            assert(schemas.contains_key(ids[k]));
        }
    }
}

/// Decoders of other schemas leave those in order that are there.
proof fn lemma_with_schema(ctx: LookupSchemaView, id: i16, source: SchemaView)
    requires
        ctx.valid(),
        source.valid(),
    ensures
        ctx.with_schemas(Map::<i16, SchemaView>::empty().insert(id, source)).valid(),
        ctx.with_schemas(Map::<i16, SchemaView>::empty().insert(id, source)).decoders.others
            == ctx.decoders.others.insert(id, ctx.decoder_from(source)),
{
    let one = Map::<i16, SchemaView>::empty().insert(id, source);
    assert(ctx.with_schemas(one).decoders.others =~= ctx.decoders.others.insert(
        id,
        ctx.decoder_from(source),
    ));
    let decoder = ctx.decoder_from(source);
    assert forall|i: int|
        0 <= i < decoder.mapping.len() implies (#[trigger] decoder.mapping[i] matches Some(k) ==> 0
        <= k < decoder.row_type.fields.len()) by {
        fixed_schema_decoder::place_is_held(source.columns, ctx.schema.columns[i].field_id);
    }
}

impl LookupSchemaCtx {
    /// What a lookup in a table starts with.
    pub fn new(table_info: &TableInfo) -> (r: Result<Self>)
        requires
            table_info@.valid(),
        ensures
            match r {
                Ok(ctx) => LookupSchemaView::of(table_info@) == Ok::<LookupSchemaView, ErrorView>(
                    ctx@,
                ) && ctx@.valid(),
                Err(e) => LookupSchemaView::of(table_info@) == Err::<LookupSchemaView, ErrorView>(
                    e@,
                ),
            },
    {
        let schema_id: i32 = table_info.get_schema_id();
        if !(0 <= schema_id && schema_id <= 0x7fff) {
            return Err(
                Error::unexpected(
                    text::concat3(
                        "Schema id ",
                        i64_to_text(schema_id as i64).as_str(),
                        " does not fit in 16 bits — wire format violated",
                    ),
                ),
            );
        }
        let target_schema = table_info.get_schema().clone();
        let target_row_type = Arc::new(table_info.row_type().clone());
        let kv_format = match table_info.get_table_config().get_kv_format() {
            Ok(f) => f,
            Err(e) => {
                return Err(e);
            },
        };
        let target_decoder = match FixedSchemaDecoder::new_no_projection(
            kv_format,
            &target_schema,
        ) {
            Ok(d) => d,
            Err(e) => {
                return Err(e);
            },
        };
        let decoders = DecoderCache::new(schema_id as i16, Arc::new(target_decoder));
        Ok(LookupSchemaCtx { target_schema, target_row_type, kv_format, decoders })
    }

    /// The ids of schemas that rows have and no decoder is for. Each of these
    /// schemas is to be fetched, once, before the rows can be decoded.
    pub fn ensure_decoders(&self, rows: &[Vec<u8>]) -> (r: Result<Vec<i16>>)
        ensures
            match r {
                Ok(ids) => missing_ids(self@.decoders, rows@) == Ok::<Seq<i16>, ErrorView>(ids@),
                Err(e) => missing_ids(self@.decoders, rows@) == Err::<Seq<i16>, ErrorView>(e@),
            },
    {
        let mut missing: Vec<i16> = Vec::new();
        let mut i: usize = 0;
        assert(rows@.take(0) =~= Seq::<Vec<u8>>::empty());
        while i < rows.len()
            invariant
                i <= rows@.len(),
                missing_ids(self@.decoders, rows@.take(i as int)) == Ok::<Seq<i16>, ErrorView>(
                    missing@,
                ),
            decreases rows@.len() - i,
        {
            proof {
                assert(rows@.take(i + 1).drop_last() =~= rows@.take(i as int));
                assert(rows@.take(i + 1).last() == rows@[i as int]);
                lemma_missing_prefix(self@.decoders, rows@, i + 1);
            }
            let id: i16 = match LookupResult::read_schema_id(rows[i].as_slice()) {
                Ok(id) => id,
                Err(e) => {
                    return Err(e);
                },
            };
            if !self.decoders.contains(id) && !holds(&missing, id) {
                missing.push(id);
            }
            i = i + 1;
        }
        assert(rows@.take(i as int) =~= rows@);
        Ok(missing)
    }

    /// Adds the decoder of rows of a schema that was fetched.
    pub fn add_schema(&mut self, schema_id: i16, source: &Schema)
        requires
            old(self)@.valid(),
            source@.valid(),
        ensures
            final(self)@ == old(self)@.with_schemas(
                Map::<i16, SchemaView>::empty().insert(schema_id, source@),
            ),
            final(self)@.valid(),
    {
        proof {
            lemma_with_schema(self@, schema_id, source@);
        }
        match FixedSchemaDecoder::new(self.kv_format, source, &self.target_schema) {
            Ok(decoder) => {
                self.decoders.insert(schema_id, Arc::new(decoder));
            },
            Err(_) => {},
        }
    }

    /// Adds the decoders of rows of schemas that were fetched.
    pub fn add_schemas(&mut self, schemas: &[(i16, Arc<Schema>)])
        requires
            old(self)@.valid(),
            forall|i: int| 0 <= i < schemas@.len() ==> (*(#[trigger] schemas@[i]).1)@.valid(),
        ensures
            final(self)@ == old(self)@.with_schemas(fetched(schemas@)),
            final(self)@.valid(),
    {
        let mut i: usize = 0;
        let ghost start = self@;
        proof {
            assert(schemas@.take(0) =~= Seq::<(i16, Arc<Schema>)>::empty());
            assert(start.with_schemas(Map::empty()).decoders.others =~= start.decoders.others);
        }
        while i < schemas.len()
            invariant
                i <= schemas@.len(),
                forall|i: int| 0 <= i < schemas@.len() ==> (*(#[trigger] schemas@[i]).1)@.valid(),
                self@ == start.with_schemas(fetched(schemas@.take(i as int))),
                self@.valid(),
            decreases schemas@.len() - i,
        {
            let schema: &Schema = &schemas[i].1;
            let id: i16 = schemas[i].0;
            let ghost before = self@;
            self.add_schema(id, schema);
            proof {
                let held = fetched(schemas@.take(i as int));
                let next = fetched(schemas@.take(i + 1));
                assert(schemas@.take(i + 1).drop_last() =~= schemas@.take(i as int));
                assert(next == held.insert(id, schema@));
                lemma_with_schema(before, id, schema@);
                assert(before.decoder_from(schema@) == start.decoder_from(schema@));
                assert(self@.decoders.others =~= start.with_schemas(next).decoders.others);
            }
            i = i + 1;
        }
        assert(schemas@.take(i as int) =~= schemas@);
    }

    /// The result with these rows. Each of them needs a decoder by now.
    pub fn build_result(&self, rows: Vec<Vec<u8>>) -> (r: LookupResult)
        requires
            self@.valid(),
        ensures
            r@ == self@.result(rows@),
            r@.valid(),
    {
        LookupResult::new(rows, self.target_row_type.clone(), Arc::new(self.decoders.clone()))
    }

    /// The result without rows.
    pub fn empty_result(&self) -> (r: LookupResult)
        requires
            self@.valid(),
        ensures
            r@ == self@.result(Seq::empty()),
            r@.valid(),
    {
        let rows: Vec<Vec<u8>> = Vec::new();
        assert(rows@ =~= Seq::empty());
        self.build_result(rows)
    }
}

/// Once a row has no schema id, the rows after it change nothing.
proof fn lemma_missing_prefix(cache: DecoderCacheView, rows: Seq<Vec<u8>>, i: int)
    requires
        0 <= i <= rows.len(),
    ensures
        missing_ids(cache, rows.take(i)) matches Err(e) ==> missing_ids(cache, rows) == Err::<
            Seq<i16>,
            ErrorView,
        >(e),
    decreases rows.len(),
{
    if i == rows.len() {
        assert(rows.take(i) =~= rows);
    } else {
        assert(rows.drop_last().take(i) =~= rows.take(i));
        lemma_missing_prefix(cache, rows.drop_last(), i);
    }
}

/// Whether a list holds an id.
fn holds(ids: &[i16], id: i16) -> (r: bool)
    ensures
        r == ids@.contains(id),
{
    let mut i: usize = 0;
    while i < ids.len()
        invariant
            i <= ids@.len(),
            forall|j: int| 0 <= j < i ==> ids@[j] != id,
        decreases ids@.len() - i,
    {
        if ids[i] == id {
            assert(ids@[i as int] == id);
            return true;
        }
        i = i + 1;
    }
    false
}

/// What is missing are exactly the schemas of rows that have no decoder, each
/// once, in the order in which rows first have them. A row without a schema id is
/// the only reason to fail.
pub proof fn missing_ids_are_those_of_rows(cache: DecoderCacheView, rows: Seq<Vec<u8>>)
    ensures
        match missing_ids(cache, rows) {
            Ok(ids) => {
                &&& forall|i: int|
                    0 <= i < rows.len() ==> lookup_result::schema_id((#[trigger] rows[i])@) is Ok
                &&& ids.no_duplicates()
                &&& forall|i: int|
                    0 <= i < rows.len() && cache.decoder(
                        lookup_result::schema_id((#[trigger] rows[i])@)->Ok_0,
                    ) is None ==> ids.contains(lookup_result::schema_id(rows[i]@)->Ok_0)
                &&& forall|k: int|
                    #![trigger ids[k]]
                    0 <= k < ids.len() ==> cache.decoder(ids[k]) is None && exists|i: int|
                        0 <= i < rows.len() && lookup_result::schema_id((#[trigger] rows[i])@)
                            == Ok::<i16, ErrorView>(ids[k])
            },
            Err(e) => exists|i: int|
                0 <= i < rows.len() && lookup_result::schema_id((#[trigger] rows[i])@) == Err::<
                    i16,
                    ErrorView,
                >(e),
        },
        forall|n: int|
            0 <= n <= rows.len() && missing_ids(cache, rows) is Ok ==> (
            #[trigger] missing_ids(cache, rows.take(n))) is Ok && missing_ids(
                cache,
                rows.take(n),
            )->Ok_0.is_prefix_of(missing_ids(cache, rows)->Ok_0),
    decreases rows.len(),
{
    if rows.len() > 0 {
        let front = rows.drop_last();
        let last = lookup_result::schema_id(rows.last()@);
        missing_ids_are_those_of_rows(cache, front);
        assert(rows[rows.len() - 1] == rows.last());
        assert(forall|i: int| 0 <= i < front.len() ==> #[trigger] front[i] == rows[i]);
        if let Ok(ids) = missing_ids(cache, rows) {
            let before = missing_ids(cache, front)->Ok_0;
            assert forall|i: int| 0 <= i < rows.len() implies lookup_result::schema_id(
                (#[trigger] rows[i])@,
            ) is Ok by {
                if i < front.len() {
                    assert(front[i] == rows[i]);
                }
            }
            assert forall|i: int|
                0 <= i < rows.len() && cache.decoder(
                    lookup_result::schema_id((#[trigger] rows[i])@)->Ok_0,
                ) is None implies ids.contains(lookup_result::schema_id(rows[i]@)->Ok_0) by {
                let id = lookup_result::schema_id(rows[i]@)->Ok_0;
                if i < front.len() {
                    assert(front[i] == rows[i]);
                    let k = choose|k: int| 0 <= k < before.len() && before[k] == id;
                    assert(ids[k] == id);
                } else if before.contains(id) {
                    let k = choose|k: int| 0 <= k < before.len() && before[k] == id;
                    assert(ids[k] == id);
                } else {
                    assert(ids[before.len() as int] == id);
                }
            }
            assert forall|k: int|
                #![trigger ids[k]]
                0 <= k < ids.len() implies cache.decoder(ids[k]) is None && exists|i: int|
                0 <= i < rows.len() && lookup_result::schema_id((#[trigger] rows[i])@) == Ok::<
                    i16,
                    ErrorView,
                >(ids[k]) by {
                if k < before.len() {
                    assert(ids[k] == before[k]);
                    let i = choose|i: int|
                        0 <= i < front.len() && lookup_result::schema_id((#[trigger] front[i])@)
                            == Ok::<i16, ErrorView>(before[k]);
                    assert(rows[i] == front[i]);
                } else {
                    assert(lookup_result::schema_id(rows[rows.len() - 1]@) == Ok::<
                        i16,
                        ErrorView,
                    >(ids[k]));
                }
            }
            assert(before.is_prefix_of(ids));
            assert forall|n: int| 0 <= n <= rows.len() implies (
            #[trigger] missing_ids(cache, rows.take(n))) is Ok && missing_ids(
                cache,
                rows.take(n),
            )->Ok_0.is_prefix_of(ids) by {
                if n < rows.len() {
                    assert(front.take(n) =~= rows.take(n));
                } else {
                    assert(rows.take(n) =~= rows);
                }
            }
        } else {
            let e = missing_ids(cache, rows)->Err_0;
            if missing_ids(cache, front) is Err {
                let i = choose|i: int|
                    0 <= i < front.len() && lookup_result::schema_id((#[trigger] front[i])@)
                        == Err::<i16, ErrorView>(e);
                assert(rows[i] == front[i]);
            } else {
                assert(lookup_result::schema_id(rows[rows.len() - 1]@) == Err::<i16, ErrorView>(e));
            }
        }
    } else {
        assert forall|n: int| 0 <= n <= rows.len() implies (
        #[trigger] missing_ids(cache, rows.take(n))) is Ok && missing_ids(
            cache,
            rows.take(n),
        )->Ok_0.is_prefix_of(missing_ids(cache, rows)->Ok_0) by {
            assert(rows.take(n) =~= rows);
        }
    }
}

/// Of the schemas that were fetched, an id has the last one that came with it.
pub proof fn last_fetched_counts(schemas: Seq<(i16, Arc<Schema>)>, i: int)
    requires
        0 <= i < schemas.len(),
        forall|j: int| i < j < schemas.len() ==> (#[trigger] schemas[j]).0 != schemas[i].0,
    ensures
        fetched(schemas).contains_key(schemas[i].0),
        fetched(schemas)[schemas[i].0] == (*schemas[i].1)@,
    decreases schemas.len(),
{
    let front = schemas.drop_last();
    if i < front.len() {
        assert(schemas[schemas.len() - 1].0 != schemas[i].0);
        assert forall|j: int| i < j < front.len() implies (#[trigger] front[j]).0
            != front[i].0 by {
            assert(schemas[j].0 != schemas[i].0);
        }
        last_fetched_counts(front, i);
    }
}

/// An id has a schema only if one was fetched with it.
pub proof fn only_fetched_count(schemas: Seq<(i16, Arc<Schema>)>, id: i16)
    requires
        forall|i: int| 0 <= i < schemas.len() ==> (#[trigger] schemas[i]).0 != id,
    ensures
        !fetched(schemas).contains_key(id),
    decreases schemas.len(),
{
    if schemas.len() > 0 {
        let front = schemas.drop_last();
        assert(schemas[schemas.len() - 1].0 != id);
        assert forall|i: int| 0 <= i < front.len() implies (#[trigger] front[i]).0 != id by {
            assert(schemas[i].0 != id);
        }
        only_fetched_count(front, id);
    }
}

/// A row of an older schema is read to the columns of the schema that is wanted:
/// where a column of the older schema has the id of a wanted column, the row has
/// the value of that column there; where none has, it has a null.
pub proof fn older_rows_have_the_wanted_columns(
    ctx: LookupSchemaView,
    schemas: Map<i16, SchemaView>,
    id: i16,
    values: Seq<DatumView>,
    i: int,
)
    requires
        schemas.contains_key(id),
        id != ctx.decoders.target_id,
        schemas[id].valid(),
        0 <= i < ctx.schema.columns.len(),
    ensures
        ctx.with_schemas(schemas).decoders.decoder(id) matches Some(decoder) && {
            let row = decoder.project(values);
            let wanted = ctx.schema.columns[i].field_id;
            &&& decoder.row_type == schemas[id].row_type
            &&& row.len() == ctx.schema.columns.len()
            &&& forall|k: int|
                0 <= k < schemas[id].columns.len() && (
                #[trigger] schemas[id].columns[k]).field_id == wanted ==> row[i] == values[k]
            &&& (forall|k: int|
                0 <= k < schemas[id].columns.len() ==> (
                #[trigger] schemas[id].columns[k]).field_id != wanted) ==> row[i]
                == DatumView::Null
        },
{
    let source = schemas[id];
    let decoder = ctx.with_schemas(schemas).decoders.decoder(id)->0;
    crate::metadata::schema::column_ids_differ(source);
    assert(decoder == ctx.decoder_from(source));
    fixed_schema_decoder::columns_are_found_by_id(
        decoder.row_type,
        source.columns,
        ctx.schema.columns,
        values,
        i,
    );
}

/// Schemas that are added change nothing but how rows with their ids are read,
/// and never how rows of the wanted schema are read.
pub proof fn other_schemas_stay(ctx: LookupSchemaView, schemas: Map<i16, SchemaView>, id: i16)
    ensures
        ctx.with_schemas(schemas).schema == ctx.schema,
        ctx.with_schemas(schemas).row_type == ctx.row_type,
        ctx.with_schemas(schemas).kv_format == ctx.kv_format,
        ctx.with_schemas(schemas).decoders.target_id == ctx.decoders.target_id,
        !schemas.contains_key(id) || id == ctx.decoders.target_id ==> ctx.with_schemas(
            schemas,
        ).decoders.decoder(id) == ctx.decoders.decoder(id),
{
}

/// A lookup starts with a way to read the rows of the schema of the table, and
/// reads them as they are. It takes any id that rows can have.
pub proof fn rows_of_the_table_are_read_as_they_are(info: TableInfoView, values: Seq<DatumView>)
    requires
        info.valid(),
        values.len() == info.schema.columns.len(),
    ensures
        match LookupSchemaView::of(info) {
            Ok(ctx) => {
                &&& 0 <= info.schema_id <= 32767
                &&& ctx.schema == info.schema
                &&& ctx.row_type == info.row_type
                &&& ctx.decoders.decoder(info.schema_id as i16) matches Some(decoder)
                &&& decoder.row_type == info.schema.row_type
                &&& decoder.project(values) == values
                &&& forall|id: i16|
                    id != info.schema_id ==> #[trigger] ctx.decoders.decoder(id) is None
            },
            Err(_) => {
                ||| !(0 <= info.schema_id <= 32767)
                ||| info.table_config.contains_key("table.kv.format"@)
                    && info.table_config["table.kv.format"@] != "COMPACTED"@
            },
        },
        0 <= info.schema_id <= 32767 && (!info.table_config.contains_key("table.kv.format"@)
            || info.table_config["table.kv.format"@] == "COMPACTED"@) ==> LookupSchemaView::of(
            info,
        ) is Ok,
{
    formats::kv_names_decide("COMPACTED"@);
    if info.table_config.contains_key("table.kv.format"@) {
        formats::kv_names_decide(info.table_config["table.kv.format"@]);
    }
    if let Ok(ctx) = LookupSchemaView::of(info) {
        let decoder = ctx.decoders.decoder(info.schema_id as i16)->0;
        assert(decoder.project(values) =~= values);
    }
}

} // verus!
