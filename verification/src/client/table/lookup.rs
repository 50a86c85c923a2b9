//! Looking rows up by their keys.

use vstd::prelude::*;

use crate::byte_buffer::clone_bytes;
use crate::client::table::bucket_lookup::{
    self, BucketLookup, BucketLookupView, LookupAction, LookupActionView, LookupEvent, LookupKeys,
    LookupKeysView, LookupState, LookupStateView,
};
use crate::client::table::prefix_lookup::{self, validate_prefix_lookup};
use crate::client::table::schema_ctx::{self, LookupSchemaView};
use crate::error::{ErrorView, Result};
use crate::metadata::config;
use crate::metadata::datatype::RowView;
use crate::metadata::formats::{self, DataLakeFormat};
use crate::metadata::table_info::{TableInfo, TableInfoView};
use crate::name_list;
use crate::row::datum::DatumView;
use crate::row::encode::compacted_key_encoder;
use crate::row::encode::{self, FormatKeyEncoder, KeyEncoder, KeyEncoderFactory, KeyFormat};
use crate::row::field_kind::{self, missing_field, FieldGetter};
use crate::row::internal_row::InternalRow;
use crate::text;

verus! {

/// The data lake format of a table whose format has a name that is known.
pub open spec fn lake_of(info: TableInfoView) -> Option<DataLakeFormat> {
    config::configured_lake(info.table_config)->Ok_0
}

/// The row type of some columns of a table that has them.
pub open spec fn row_of_columns(info: TableInfoView, columns: Seq<Seq<char>>) -> RowView {
    info.row_type.projected(columns)->Ok_0
}

/// The format of the primary keys of a table.
pub open spec fn primary_format(info: TableInfoView) -> KeyFormat {
    encode::primary_key_format(
        formats::kv_format_version(
            config::property(info.table_config, "table.kv.format-version"@),
        ),
        info.default_bucketed(),
        lake_of(info),
    )
}

/// The format of the bucket keys of a table.
pub open spec fn bucket_format(info: TableInfoView) -> KeyFormat {
    encode::key_format(lake_of(info))
}

/// The primary key of a row that holds the primary key columns of a table.
pub open spec fn primary_key(info: TableInfoView, row: Seq<DatumView>) -> Option<Seq<u8>> {
    encode::format_key(
        primary_format(info),
        row_of_columns(info, info.primary_keys),
        info.physical_primary_keys,
        row,
    )
}

/// The bucket key of a row that holds the given columns of a table.
pub open spec fn bucket_key(
    info: TableInfoView,
    columns: Seq<Seq<char>>,
    row: Seq<DatumView>,
) -> Option<Seq<u8>> {
    encode::format_key(
        bucket_format(info),
        row_of_columns(info, columns),
        info.bucket_keys,
        row,
    )
}

/// Whether the machine has room for the primary key of a row.
pub open spec fn primary_key_fits(info: TableInfoView, row: Seq<DatumView>) -> bool {
    encode::format_fits(
        primary_format(info),
        row_of_columns(info, info.primary_keys),
        info.physical_primary_keys,
        row,
    )
}

/// Whether the machine has room for the bucket key of a row.
pub open spec fn bucket_key_fits(
    info: TableInfoView,
    columns: Seq<Seq<char>>,
    row: Seq<DatumView>,
) -> bool {
    encode::format_fits(
        bucket_format(info),
        row_of_columns(info, columns),
        info.bucket_keys,
        row,
    )
}

/// The keys by which a row that holds the primary key columns of a table is
/// looked up. Where the bucket keys are the default ones, the primary key is the
/// bucket key too.
pub open spec fn lookup_keys(info: TableInfoView, row: Seq<DatumView>) -> Option<LookupKeysView> {
    let key = primary_key(info, row);
    let bucket = if info.default_bucketed() {
        key
    } else {
        bucket_key(info, info.primary_keys, row)
    };
    if key is Some && bucket is Some {
        Some(LookupKeysView { key: key->0, bucket_key: bucket->0 })
    } else {
        None
    }
}

/// Whether an error says why a row has no keys to be looked up by.
pub open spec fn refuses_lookup_row(e: ErrorView, info: TableInfoView, row: Seq<DatumView>) -> bool {
    if primary_key(info, row) is None {
        encode::format_refuses(
            primary_format(info),
            row_of_columns(info, info.primary_keys),
            info.physical_primary_keys,
            e,
            row,
        )
    } else {
        refuses_bucket_key(e, info, info.primary_keys, row)
    }
}

/// Whether an error says why a row has no bucket key.
pub open spec fn refuses_bucket_key(
    e: ErrorView,
    info: TableInfoView,
    columns: Seq<Seq<char>>,
    row: Seq<DatumView>,
) -> bool {
    encode::format_refuses(
        bucket_format(info),
        row_of_columns(info, columns),
        info.bucket_keys,
        e,
        row,
    )
}

/// Whether the rows of a table can be looked up by the given columns: its data
/// lake format is known and it has the columns.
pub open spec fn has_columns(info: TableInfoView, columns: Seq<Seq<char>>) -> bool {
    config::configured_lake(info.table_config) is Ok && info.row_type.projected(columns) is Ok
}

/// Whether an error says why a table has no such columns.
pub open spec fn refuses_columns(
    e: ErrorView,
    info: TableInfoView,
    columns: Seq<Seq<char>>,
) -> bool {
    match config::configured_lake(info.table_config) {
        Err(x) => e == x,
        Ok(_) => info.row_type.projected(columns) == Err::<RowView, ErrorView>(e),
    }
}

/// Whether the primary keys of a table have an encoder.
pub open spec fn has_primary_encoder(info: TableInfoView) -> bool {
    encode::has_encoder(
        primary_format(info),
        row_of_columns(info, info.primary_keys),
        info.physical_primary_keys,
    )
}

/// Whether the bucket keys of a table have an encoder.
pub open spec fn has_bucket_encoder(info: TableInfoView, columns: Seq<Seq<char>>) -> bool {
    encode::has_encoder(bucket_format(info), row_of_columns(info, columns), info.bucket_keys)
}

/// Whether the rows of a table can be looked up by its primary key, from which
/// the partition of a row is read too.
pub open spec fn can_look_up(info: TableInfoView) -> bool {
    &&& has_columns(info, info.primary_keys)
    &&& has_primary_encoder(info)
    &&& info.default_bucketed() || has_bucket_encoder(info, info.primary_keys)
    &&& name_list::first_absent(info.partition_keys, info.primary_keys) is None
    &&& LookupSchemaView::of(info) is Ok
}

/// Whether an error says why the rows of a table cannot be looked up by its
/// primary key.
pub open spec fn refuses_lookup(e: ErrorView, info: TableInfoView) -> bool {
    if !has_columns(info, info.primary_keys) {
        refuses_columns(e, info, info.primary_keys)
    } else if !has_primary_encoder(info) {
        encode::has_no_encoder(
            e,
            primary_format(info),
            row_of_columns(info, info.primary_keys),
            info.physical_primary_keys,
        )
    } else if !info.default_bucketed() && !has_bucket_encoder(info, info.primary_keys) {
        encode::has_no_encoder(
            e,
            bucket_format(info),
            row_of_columns(info, info.primary_keys),
            info.bucket_keys,
        )
    } else if name_list::first_absent(info.partition_keys, info.primary_keys) is Some {
        e == field_kind::field_not_found(
            name_list::first_absent(info.partition_keys, info.primary_keys)->0,
            row_of_columns(info, info.primary_keys),
        )
    } else {
        LookupSchemaView::of(info) == Err::<LookupSchemaView, ErrorView>(e)
    }
}

/// Whether the rows of a table can be looked up by the given columns as a prefix
/// of the key.
pub open spec fn can_look_up_prefix(info: TableInfoView, columns: Seq<Seq<char>>) -> bool {
    &&& prefix_lookup::prefix_lookup_error(info, columns) is None
    &&& has_columns(info, columns)
    &&& has_bucket_encoder(info, columns)
    &&& LookupSchemaView::of(info) is Ok
}

/// Whether an error says why the rows of a table cannot be looked up by the given
/// columns.
pub open spec fn refuses_prefix_lookup(
    e: ErrorView,
    info: TableInfoView,
    columns: Seq<Seq<char>>,
) -> bool {
    if prefix_lookup::prefix_lookup_error(info, columns) is Some {
        prefix_lookup::prefix_lookup_error(info, columns) == Some(e)
    } else if !has_columns(info, columns) {
        refuses_columns(e, info, columns)
    } else if !has_bucket_encoder(info, columns) {
        encode::has_no_encoder(
            e,
            bucket_format(info),
            row_of_columns(info, columns),
            info.bucket_keys,
        )
    } else {
        LookupSchemaView::of(info) == Err::<LookupSchemaView, ErrorView>(e)
    }
}

/// The value of a column in a row that holds the given columns.
pub open spec fn value_of(
    columns: Seq<Seq<char>>,
    row: Seq<DatumView>,
    name: Seq<char>,
) -> DatumView {
    row[name_list::position(columns, name)->0]
}

/// How a column is read from rows that hold the given columns of a table.
proof fn lemma_column_getter(info: TableInfoView, columns: Seq<Seq<char>>, name: Seq<char>)
    requires
        has_columns(info, columns),
        columns.len() <= usize::MAX,
        compacted_key_encoder::column_getter(row_of_columns(info, columns), name) is Some,
    ensures
        ({
            let getter = compacted_key_encoder::column_getter(
                row_of_columns(info, columns),
                name,
            )->0;
            let place = name_list::position(info.row_type.names(), name);
            &&& Some(getter.pos as int) == name_list::position(columns, name)
            &&& place is Some
            &&& Some(getter.kind) == field_kind::kind_of(
                info.row_type.fields[place->0].data_type,
            )
            &&& getter.nullable == info.row_type.fields[place->0].data_type.nullable()
        }),
{
    let row = row_of_columns(info, columns);
    name_list::first_absent_iff(columns, info.row_type.names());
    assert forall|i: int| 0 <= i < columns.len() implies #[trigger] row.names()[i]
        == columns[i] by {
        name_list::position_is_first(info.row_type.names(), columns[i]);
    }
    assert(row.names() =~= columns);
    name_list::position_is_first(columns, name);
    let i = name_list::position(columns, name)->0;
    name_list::position_is_first(info.row_type.names(), columns[i]);
}

/// The keys of the first `n` bucket columns are the same bytes in both rows.
proof fn lemma_same_bytes(
    info: TableInfoView,
    columns: Seq<Seq<char>>,
    prefix_row: Seq<DatumView>,
    key_row: Seq<DatumView>,
    n: int,
)
    requires
        name_list::starts_with(info.physical_primary_keys, info.bucket_keys),
        has_columns(info, columns),
        has_columns(info, info.primary_keys),
        columns.len() <= usize::MAX,
        info.primary_keys.len() <= usize::MAX,
        compacted_key_encoder::key_fields(
            row_of_columns(info, columns),
            info.bucket_keys,
        ) is Some,
        compacted_key_encoder::key_fields(
            row_of_columns(info, info.primary_keys),
            info.physical_primary_keys,
        ) is Some,
        forall|i: int|
            0 <= i < info.bucket_keys.len() ==> value_of(
                columns,
                prefix_row,
                #[trigger] info.bucket_keys[i],
            ) == value_of(info.primary_keys, key_row, info.bucket_keys[i]),
        0 <= n <= info.bucket_keys.len(),
    ensures
        compacted_key_encoder::all_value_bytes(
            compacted_key_encoder::key_fields(
                row_of_columns(info, columns),
                info.bucket_keys,
            )->0.take(n),
            prefix_row,
        ) == compacted_key_encoder::all_value_bytes(
            compacted_key_encoder::key_fields(
                row_of_columns(info, info.primary_keys),
                info.physical_primary_keys,
            )->0.take(n),
            key_row,
        ),
    decreases n,
{
    let some = compacted_key_encoder::key_fields(
        row_of_columns(info, columns),
        info.bucket_keys,
    )->0;
    let all = compacted_key_encoder::key_fields(
        row_of_columns(info, info.primary_keys),
        info.physical_primary_keys,
    )->0;
    if n > 0 {
        lemma_same_bytes(info, columns, prefix_row, key_row, n - 1);
        let name = info.bucket_keys[n - 1];
        assert(info.physical_primary_keys.take(info.bucket_keys.len() as int)[n - 1] == name);
        assert(info.physical_primary_keys[n - 1] == name);
        lemma_column_getter(info, columns, name);
        lemma_column_getter(info, info.primary_keys, name);
        assert(some.take(n).drop_last() =~= some.take(n - 1));
        assert(all.take(n).drop_last() =~= all.take(n - 1));
        assert(value_of(columns, prefix_row, name) == value_of(info.primary_keys, key_row, name));
    }
}

/// The bytes of the first key fields come first.
proof fn lemma_first_bytes(fields: Seq<FieldGetter>, row: Seq<DatumView>, n: int)
    requires
        0 <= n <= fields.len(),
    ensures
        compacted_key_encoder::all_value_bytes(fields.take(n), row).is_prefix_of(
            compacted_key_encoder::all_value_bytes(fields, row),
        ),
    decreases fields.len(),
{
    if n == fields.len() {
        assert(fields.take(n) =~= fields);
    } else {
        assert(fields.drop_last().take(n) =~= fields.take(n));
        lemma_first_bytes(fields.drop_last(), row, n);
    }
}

/// Where primary keys and bucket keys have the compacted format, a lookup by a
/// prefix asks for what the primary keys start with of all rows that it is meant
/// to find: those with the values in the bucket columns that it has.
pub proof fn prefix_starts_primary_keys(
    info: TableInfoView,
    columns: Seq<Seq<char>>,
    prefix_row: Seq<DatumView>,
    key_row: Seq<DatumView>,
)
    requires
        can_look_up(info),
        can_look_up_prefix(info, columns),
        primary_format(info) == KeyFormat::Compacted,
        bucket_format(info) == KeyFormat::Compacted,
        columns.len() <= usize::MAX,
        info.primary_keys.len() <= usize::MAX,
        primary_key(info, key_row) is Some,
        bucket_key(info, columns, prefix_row) is Some,
        forall|i: int|
            0 <= i < info.bucket_keys.len() ==> value_of(
                columns,
                prefix_row,
                #[trigger] info.bucket_keys[i],
            ) == value_of(info.primary_keys, key_row, info.bucket_keys[i]),
    ensures
        bucket_key(info, columns, prefix_row)->0.is_prefix_of(primary_key(info, key_row)->0),
{
    let n = info.bucket_keys.len() as int;
    let some = compacted_key_encoder::key_fields(
        row_of_columns(info, columns),
        info.bucket_keys,
    )->0;
    let all = compacted_key_encoder::key_fields(
        row_of_columns(info, info.primary_keys),
        info.physical_primary_keys,
    )->0;
    lemma_same_bytes(info, columns, prefix_row, key_row, n);
    lemma_first_bytes(all, key_row, n);
    assert(some.take(n) =~= some);
}

/// Builder for lookup operations. `create_lookuper()` builds a primary-key
/// `Lookuper`; `lookup_by(columns).create_lookuper()` builds a
/// `PrefixKeyLookuper` for prefix scans.
#[derive(Debug)]
pub struct TableLookup {
    table_info: TableInfo,
}

impl View for TableLookup {
    type V = TableInfoView;

    closed spec fn view(&self) -> TableInfoView {
        self.table_info@
    }
}

impl TableLookup {
    pub fn new(table_info: TableInfo) -> (r: Self)
        ensures
            r@ == table_info@,
    {
        TableLookup { table_info }
    }

    /// Switches the builder into prefix-scan mode. `lookup_column_names`
    /// must list the table's partition keys (if any) plus the bucket keys,
    /// in that order; this is a **bucket-key prefix** scan, not an
    /// arbitrary primary-key prefix. Validation is deferred to
    /// `create_lookuper()`.
    pub fn lookup_by(self, lookup_column_names: Vec<String>) -> (r: TablePrefixLookup)
        ensures
            r@.info == self@,
            r@.columns == text::names(lookup_column_names@),
    {
        TablePrefixLookup { table_info: self.table_info, lookup_column_names }
    }

    /// Creates a `Lookuper` for performing key-based lookups.
    ///
    /// The lookuper encodes the key of each lookup and says which bucket to ask.
    pub fn create_lookuper(self) -> (r: Result<Lookuper>)
        requires
            self@.valid(),
        ensures
            match r {
                Ok(lookuper) => {
                    &&& can_look_up(self@)
                    &&& lookuper.valid()
                    &&& lookuper@.info == self@
                    &&& LookupSchemaView::of(self@) == Ok::<LookupSchemaView, ErrorView>(
                        lookuper@.schemas,
                    )
                },
                Err(e) => !can_look_up(self@) && refuses_lookup(e@, self@),
            },
    {
        let table_config = self.table_info.get_table_config();
        let data_lake_format = match table_config.get_datalake_format() {
            Ok(f) => f,
            Err(e) => {
                return Err(e);
            },
        };
        let primary_keys = self.table_info.get_primary_keys();
        let lookup_row_type = match self.table_info.row_type().project_with_field_names(
            primary_keys,
        ) {
            Ok(t) => t,
            Err(e) => {
                return Err(e);
            },
        };
        let is_default: bool = self.table_info.is_default_bucket_key();
        let primary_key_format = match KeyEncoderFactory::format_of_primary_key(
            table_config,
            is_default,
        ) {
            Ok(format) => format,
            Err(e) => {
                return Err(e);
            },
        };
        let primary_key_encoder = match FormatKeyEncoder::create(
            primary_key_format,
            &lookup_row_type,
            self.table_info.get_physical_primary_keys(),
        ) {
            Ok(encoder) => encoder,
            Err(e) => {
                return Err(e);
            },
        };
        let bucket_key_encoder = if is_default {
            None
        } else {
            match FormatKeyEncoder::create(
                KeyEncoderFactory::format_of(&data_lake_format),
                &lookup_row_type,
                self.table_info.get_bucket_keys(),
            ) {
                Ok(encoder) => Some(encoder),
                Err(e) => {
                    return Err(e);
                },
            }
        };
        let partition_keys: &[String] = self.table_info.get_partition_keys();
        match name_list::find_absent(partition_keys, primary_keys) {
            Some(i) => {
                return Err(missing_field(partition_keys[i].as_str(), &lookup_row_type));
            },
            None => {},
        }
        match BucketLookup::new(self.table_info) {
            Ok(lookup) => Ok(
                Lookuper { lookup, data_lake_format, primary_key_encoder, bucket_key_encoder },
            ),
            Err(e) => Err(e),
        }
    }
}

/// Performs key-based lookups against a primary key table.
///
/// The `Lookuper` encodes the lookup key and says which bucket to ask for it.
pub struct Lookuper {
    lookup: BucketLookup,
    data_lake_format: Option<DataLakeFormat>,
    primary_key_encoder: FormatKeyEncoder,
    bucket_key_encoder: Option<FormatKeyEncoder>,
}

impl View for Lookuper {
    type V = BucketLookupView;

    closed spec fn view(&self) -> BucketLookupView {
        self.lookup@
    }
}

impl Lookuper {
    /// Whether the encoders are those of the table.
    pub closed spec fn valid(&self) -> bool {
        let info = self@.info;
        &&& self.lookup.in_order()
        &&& can_look_up(info)
        &&& self.data_lake_format == lake_of(info)
        &&& encode::encodes(
            &self.primary_key_encoder,
            primary_format(info),
            row_of_columns(info, info.primary_keys),
            info.physical_primary_keys,
        )
        &&& match self.bucket_key_encoder {
            Some(encoder) => !info.default_bucketed() && encode::encodes(
                &encoder,
                bucket_format(info),
                row_of_columns(info, info.primary_keys),
                info.bucket_keys,
            ),
            None => info.default_bucketed(),
        }
    }

    /// Starts to look up a value by its primary key.
    ///
    /// The row holds the values of the primary key columns. What is to be done
    /// first comes back, with how far the lookup has come.
    pub fn lookup<R: InternalRow + ?Sized>(&mut self, row: &R) -> (r: Result<
        (LookupState, LookupAction),
    >)
        requires
            old(self).valid(),
            primary_key_fits(old(self)@.info, row.row()),
            bucket_key_fits(old(self)@.info, old(self)@.info.primary_keys, row.row()),
        ensures
            final(self).valid(),
            final(self)@ == old(self)@,
            match r {
                Ok((state, action)) => {
                    &&& lookup_keys(old(self)@.info, row.row()) is Some
                    &&& (state@, action@) == old(self)@.begun(
                        lookup_keys(old(self)@.info, row.row())->0,
                    )
                },
                Err(e) => {
                    &&& lookup_keys(old(self)@.info, row.row()) is None
                    &&& refuses_lookup_row(e@, old(self)@.info, row.row())
                },
            },
    {
        let key = match self.primary_key_encoder.encode_row(row) {
            Ok(key) => key,
            Err(e) => {
                return Err(e);
            },
        };
        let bucket_key = match &mut self.bucket_key_encoder {
            Some(encoder) => match encoder.encode_row(row) {
                Ok(bucket_key) => bucket_key,
                Err(e) => {
                    return Err(e);
                },
            },
            None => clone_bytes(&key),
        };
        Ok(self.lookup.begin(LookupKeys { key, bucket_key }))
    }

    /// Goes on with a lookup after an event.
    pub fn advance(&mut self, state: LookupState, event: LookupEvent) -> (r: Result<
        (LookupState, LookupAction),
    >)
        requires
            old(self).valid(),
            bucket_lookup::may_happen(state@, event),
        ensures
            final(self).valid(),
            final(self)@ == old(self)@.after(event),
            match r {
                Ok((next, action)) => old(self)@.next(state@, event) == Ok::<
                    (LookupStateView, LookupActionView),
                    ErrorView,
                >((next@, action@)),
                Err(e) => old(self)@.next(state@, event) == Err::<
                    (LookupStateView, LookupActionView),
                    ErrorView,
                >(e@),
            },
    {
        self.lookup.advance(state, event)
    }

    /// The data lake format of the table, which says how buckets are computed.
    pub fn data_lake_format(&self) -> (r: Option<DataLakeFormat>)
        requires
            self.valid(),
        ensures
            r == lake_of(self@.info),
    {
        self.data_lake_format
    }

    /// Returns a reference to the table info.
    pub fn table_info(&self) -> (r: &TableInfo)
        ensures
            r@ == self@.info,
    {
        self.lookup.table_info()
    }
}

/// Builder for lookups by a prefix of the key.
#[derive(Debug)]
pub struct TablePrefixLookup {
    table_info: TableInfo,
    lookup_column_names: Vec<String>,
}

/// A [`TablePrefixLookup`] as a value.
pub struct TablePrefixLookupView {
    pub info: TableInfoView,
    pub columns: Seq<Seq<char>>,
}

impl View for TablePrefixLookup {
    type V = TablePrefixLookupView;

    closed spec fn view(&self) -> TablePrefixLookupView {
        TablePrefixLookupView {
            info: self.table_info@,
            columns: text::names(self.lookup_column_names@),
        }
    }
}

impl TablePrefixLookup {
    pub fn create_lookuper(self) -> (r: Result<PrefixKeyLookuper>)
        requires
            self@.info.valid(),
        ensures
            match r {
                Ok(lookuper) => {
                    &&& can_look_up_prefix(self@.info, self@.columns)
                    &&& lookuper.valid()
                    &&& lookuper@.info == self@.info
                    &&& lookuper.columns() == self@.columns
                    &&& LookupSchemaView::of(self@.info) == Ok::<LookupSchemaView, ErrorView>(
                        lookuper@.schemas,
                    )
                },
                Err(e) => !can_look_up_prefix(self@.info, self@.columns) && refuses_prefix_lookup(
                    e@,
                    self@.info,
                    self@.columns,
                ),
            },
    {
        match validate_prefix_lookup(&self.table_info, &self.lookup_column_names) {
            Ok(_) => {},
            Err(e) => {
                return Err(e);
            },
        }
        let data_lake_format = match self.table_info.get_table_config().get_datalake_format() {
            Ok(f) => f,
            Err(e) => {
                return Err(e);
            },
        };
        let lookup_row_type = match self.table_info.row_type().project_with_field_names(
            &self.lookup_column_names,
        ) {
            Ok(t) => t,
            Err(e) => {
                return Err(e);
            },
        };
        let prefix_key_encoder = match FormatKeyEncoder::create(
            KeyEncoderFactory::format_of(&data_lake_format),
            &lookup_row_type,
            self.table_info.get_bucket_keys(),
        ) {
            Ok(encoder) => encoder,
            Err(e) => {
                return Err(e);
            },
        };
        match BucketLookup::new(self.table_info) {
            Ok(lookup) => Ok(
                PrefixKeyLookuper {
                    lookup,
                    data_lake_format,
                    prefix_key_encoder,
                    lookup_column_names: self.lookup_column_names,
                },
            ),
            Err(e) => Err(e),
        }
    }
}

/// Performs lookups by a prefix of the key.
pub struct PrefixKeyLookuper {
    lookup: BucketLookup,
    data_lake_format: Option<DataLakeFormat>,
    prefix_key_encoder: FormatKeyEncoder,
    lookup_column_names: Vec<String>,
}

impl View for PrefixKeyLookuper {
    type V = BucketLookupView;

    closed spec fn view(&self) -> BucketLookupView {
        self.lookup@
    }
}

impl PrefixKeyLookuper {
    /// The columns that rows are looked up by.
    pub closed spec fn columns(&self) -> Seq<Seq<char>> {
        text::names(self.lookup_column_names@)
    }

    /// Whether the encoder is that of the table.
    pub closed spec fn valid(&self) -> bool {
        let info = self@.info;
        &&& self.lookup.in_order()
        &&& can_look_up_prefix(info, self.columns())
        &&& self.data_lake_format == lake_of(info)
        &&& encode::encodes(
            &self.prefix_key_encoder,
            bucket_format(info),
            row_of_columns(info, self.columns()),
            info.bucket_keys,
        )
    }

    /// Starts to look up rows by a prefix of their key.
    ///
    /// The row holds the values of the lookup columns. What is to be done first
    /// comes back, with how far the lookup has come.
    pub fn lookup<R: InternalRow + ?Sized>(&mut self, row: &R) -> (r: Result<
        (LookupState, LookupAction),
    >)
        requires
            old(self).valid(),
            bucket_key_fits(old(self)@.info, old(self).columns(), row.row()),
        ensures
            final(self).valid(),
            final(self)@ == old(self)@,
            final(self).columns() == old(self).columns(),
            ({
                let prefix = bucket_key(old(self)@.info, old(self).columns(), row.row());
                match r {
                    Ok((state, action)) => {
                        &&& prefix is Some
                        &&& (state@, action@) == old(self)@.begun(
                            LookupKeysView { key: prefix->0, bucket_key: prefix->0 },
                        )
                    },
                    Err(e) => {
                        &&& prefix is None
                        &&& refuses_bucket_key(
                            e@,
                            old(self)@.info,
                            old(self).columns(),
                            row.row(),
                        )
                    },
                }
            }),
    {
        let key = match self.prefix_key_encoder.encode_row(row) {
            Ok(key) => key,
            Err(e) => {
                return Err(e);
            },
        };
        let bucket_key = clone_bytes(&key);
        Ok(self.lookup.begin(LookupKeys { key, bucket_key }))
    }

    /// Goes on with a lookup after an event.
    pub fn advance(&mut self, state: LookupState, event: LookupEvent) -> (r: Result<
        (LookupState, LookupAction),
    >)
        requires
            old(self).valid(),
            bucket_lookup::may_happen(state@, event),
        ensures
            final(self).valid(),
            final(self)@ == old(self)@.after(event),
            final(self).columns() == old(self).columns(),
            match r {
                Ok((next, action)) => old(self)@.next(state@, event) == Ok::<
                    (LookupStateView, LookupActionView),
                    ErrorView,
                >((next@, action@)),
                Err(e) => old(self)@.next(state@, event) == Err::<
                    (LookupStateView, LookupActionView),
                    ErrorView,
                >(e@),
            },
    {
        self.lookup.advance(state, event)
    }

    /// The data lake format of the table, which says how buckets are computed.
    pub fn data_lake_format(&self) -> (r: Option<DataLakeFormat>)
        requires
            self.valid(),
        ensures
            r == lake_of(self@.info),
    {
        self.data_lake_format
    }

    /// Returns a reference to the table info.
    pub fn table_info(&self) -> (r: &TableInfo)
        ensures
            r@ == self@.info,
    {
        self.lookup.table_info()
    }
}

/// Which keys a lookup goes by. The key has the key columns that are no partition
/// keys, the bucket key the bucket keys; each is written as the data lake of the
/// table has it, but that a table of the second version with bucket keys of its own
/// has its key compacted. Where the bucket keys are the default ones, both keys are
/// the same.
pub proof fn keys_of_a_lookup(info: TableInfoView, row: Seq<DatumView>)
    requires
        config::configured_lake(info.table_config) is Ok,
    ensures
        ({
            let lake = config::configured_lake(info.table_config)->Ok_0;
            let columns = info.row_type.projected(info.primary_keys)->Ok_0;
            let second = info.table_config.contains_key("table.kv.format-version"@)
                && formats::kv_format_version(
                Some(info.table_config["table.kv.format-version"@]),
            ) == formats::KvFormatVersion::V2;
            let key_lake = if second && !info.default_bucketed() {
                None
            } else {
                lake
            };
            let key = encode::format_key(
                encode::key_format(key_lake),
                columns,
                info.physical_primary_keys,
                row,
            );
            let bucket_key = encode::format_key(
                encode::key_format(lake),
                columns,
                info.bucket_keys,
                row,
            );
            match lookup_keys(info, row) {
                Some(keys) => {
                    &&& key == Some(keys.key)
                    &&& info.default_bucketed() ==> keys.bucket_key == keys.key
                    &&& !info.default_bucketed() ==> bucket_key == Some(keys.bucket_key)
                },
                None => key is None || !info.default_bucketed() && bucket_key is None,
            }
        }),
{
}

/// A table can be looked in by its key where nothing stands against it: it says
/// nothing of a data lake or of a format, its id and its keys are as they have to
/// be, and its key columns are of types that keys can have.
pub proof fn plain_tables_can_be_looked_in(info: TableInfoView)
    requires
        info.valid(),
        0 <= info.schema_id <= 32767,
        !info.table_config.contains_key("table.datalake.format"@),
        !info.table_config.contains_key("table.kv.format"@),
        info.partition_keys.to_set().subset_of(info.primary_keys.to_set()),
        info.row_type.projected(info.primary_keys) matches Ok(columns) && {
            &&& compacted_key_encoder::key_fields(columns, info.physical_primary_keys) is Some
            &&& compacted_key_encoder::key_fields(columns, info.bucket_keys) is Some
        },
    ensures
        can_look_up(info),
{
    name_list::in_as_sets(info.partition_keys, info.primary_keys);
    name_list::first_absent_iff(info.partition_keys, info.primary_keys);
    schema_ctx::rows_of_the_table_are_read_as_they_are(
        info,
        Seq::new(info.schema.columns.len(), |i: int| DatumView::Null),
    );
    encode::data_lake_decides_keys(
        None,
        row_of_columns(info, info.primary_keys),
        info.physical_primary_keys,
        Seq::empty(),
    );
}

/// The value of a named column is the one that stands where the name first stands.
pub proof fn values_stand_with_their_names(
    columns: Seq<Seq<char>>,
    row: Seq<DatumView>,
    k: int,
)
    requires
        0 <= k < columns.len(),
        columns.no_duplicates(),
    ensures
        value_of(columns, row, columns[k]) == row[k],
{
    name_list::position_at(columns, columns[k], k);
}

/// A table that can be looked in is refused for no reason, and one that cannot
/// for one reason at most.
pub proof fn lookups_are_refused_for_one_reason(
    info: TableInfoView,
    columns: Seq<Seq<char>>,
    e: ErrorView,
    f: ErrorView,
)
    ensures
        refuses_lookup(e, info) ==> !can_look_up(info),
        refuses_lookup(e, info) && refuses_lookup(f, info) ==> e == f,
        refuses_prefix_lookup(e, info, columns) ==> !can_look_up_prefix(info, columns),
        refuses_prefix_lookup(e, info, columns) && refuses_prefix_lookup(f, info, columns)
            ==> e == f,
        prefix_lookup::prefix_lookup_error(info, columns) is Some ==> !can_look_up_prefix(
            info,
            columns,
        ),
{
    if refuses_lookup(e, info) && refuses_lookup(f, info) && has_columns(info, info.primary_keys) {
        if !has_primary_encoder(info) {
            encode::keys_are_refused_for_one_reason(
                primary_format(info),
                row_of_columns(info, info.primary_keys),
                info.physical_primary_keys,
                e,
                f,
            );
        } else if !info.default_bucketed() && !has_bucket_encoder(info, info.primary_keys) {
            encode::keys_are_refused_for_one_reason(
                bucket_format(info),
                row_of_columns(info, info.primary_keys),
                info.bucket_keys,
                e,
                f,
            );
        }
    }
    if refuses_prefix_lookup(e, info, columns) && refuses_prefix_lookup(f, info, columns)
        && has_columns(info, columns) && !has_bucket_encoder(info, columns) {
        if prefix_lookup::prefix_lookup_error(info, columns) is None {
            encode::keys_are_refused_for_one_reason(
                bucket_format(info),
                row_of_columns(info, columns),
                info.bucket_keys,
                e,
                f,
            );
        }
    }
}

/// The key of a prefix lookup has the bucket keys alone, written as the data lake
/// of the table has it.
pub proof fn key_of_a_prefix_lookup(
    info: TableInfoView,
    columns: Seq<Seq<char>>,
    row: Seq<DatumView>,
)
    requires
        config::configured_lake(info.table_config) is Ok,
    ensures
        bucket_key(info, columns, row) == encode::format_key(
            encode::key_format(config::configured_lake(info.table_config)->Ok_0),
            info.row_type.projected(columns)->Ok_0,
            info.bucket_keys,
            row,
        ),
{
}

} // verus!
