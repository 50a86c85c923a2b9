//! How a lookup in a table goes on, from the key of a row to the rows found.

use std::sync::Arc;

use bytes::Bytes;
use vstd::prelude::*;

use crate::byte_buffer::{self, clone_bytes};
use crate::client::table::lookup_result::{
    self, DecoderCacheView, LookupResult, LookupResultView,
};
use crate::client::table::schema_ctx::{self, LookupSchemaCtx, LookupSchemaView};
use crate::error::{ErrorView, Result};
use crate::little_endian;
use crate::metadata::bucket::{BucketId, PartitionId, TableBucket, TableBucketView};
use crate::metadata::path::{
    PhysicalTablePath, PhysicalTablePathView, TablePath, TablePathView,
};
use crate::metadata::schema::Schema;
use crate::metadata::table_info::{TableInfo, TableInfoView};
use crate::row::compacted::compacted_row;
use crate::row::datum::DatumView;
use crate::row::field_kind::ValueWriter;

verus! {

/// A table that rows are looked up in.
#[derive(Debug)]
pub struct BucketLookup {
    table_path: Arc<TablePath>,
    table_info: TableInfo,
    num_buckets: i32,
    schema_ctx: LookupSchemaCtx,
}

/// A [`BucketLookup`] as a value.
pub struct BucketLookupView {
    pub info: TableInfoView,
    pub schemas: LookupSchemaView,
}

/// The keys of a lookup: the one that is sent to a bucket, and the one that the
/// bucket is computed from.
#[derive(Debug)]
pub struct LookupKeys {
    pub key: Bytes,
    pub bucket_key: Bytes,
}

/// [`LookupKeys`] as a value.
pub struct LookupKeysView {
    pub key: Seq<u8>,
    pub bucket_key: Seq<u8>,
}

/// How far a lookup has come.
#[derive(Debug)]
pub enum LookupState {
    /// The partition needs a name.
    Naming(LookupKeys),
    /// The partition needs its id.
    Locating(LookupKeys),
    /// The bucket is to be computed.
    Bucketing(LookupKeys, Option<PartitionId>),
    /// The key is on its way.
    Sent,
    /// Schemas of the rows found are on their way.
    Fetching(Vec<Vec<u8>>),
    Finished,
}

/// A [`LookupState`] as a value.
pub enum LookupStateView {
    Naming(LookupKeysView),
    Locating(LookupKeysView),
    Bucketing(LookupKeysView, Option<PartitionId>),
    Sent,
    Fetching(Seq<Vec<u8>>),
    Finished,
}

/// What happened.
#[derive(Debug)]
pub enum LookupEvent {
    /// The partition of the row has this name.
    PartitionNamed(String),
    /// The partition has this id, or does not exist.
    PartitionFound(Option<PartitionId>),
    BucketComputed(BucketId),
    /// The bucket has these rows under the key.
    Answered(Vec<Vec<u8>>),
    /// The schemas that were asked for.
    SchemasFetched(Vec<(i16, Arc<Schema>)>),
}

/// A key that is sent to a bucket.
#[derive(Debug)]
pub struct LookupRequest {
    pub table_path: TablePath,
    pub table_bucket: TableBucket,
    pub key: Bytes,
}

/// What is to be done.
#[derive(Debug)]
pub enum LookupAction {
    /// Name the partition of the row.
    NamePartition,
    /// Ask for the id of a partition.
    FindPartition(PhysicalTablePath),
    /// Compute the bucket of a key, among so many.
    ComputeBucket(Bytes, i32),
    Send(LookupRequest),
    /// Fetch the schemas with these ids.
    FetchSchemas(Vec<i16>),
    Return(LookupResult),
}

/// A [`LookupAction`] as a value.
pub enum LookupActionView {
    NamePartition,
    FindPartition(PhysicalTablePathView),
    ComputeBucket(Seq<u8>, i32),
    Send(TablePathView, TableBucketView, Seq<u8>),
    FetchSchemas(Seq<i16>),
    Return(LookupResultView),
}

impl View for BucketLookup {
    type V = BucketLookupView;

    closed spec fn view(&self) -> BucketLookupView {
        BucketLookupView { info: self.table_info@, schemas: self.schema_ctx@ }
    }
}

impl View for LookupKeys {
    type V = LookupKeysView;

    open spec fn view(&self) -> LookupKeysView {
        LookupKeysView {
            key: byte_buffer::contents(self.key),
            bucket_key: byte_buffer::contents(self.bucket_key),
        }
    }
}

impl View for LookupState {
    type V = LookupStateView;

    open spec fn view(&self) -> LookupStateView {
        match self {
            LookupState::Naming(keys) => LookupStateView::Naming(keys@),
            LookupState::Locating(keys) => LookupStateView::Locating(keys@),
            LookupState::Bucketing(keys, id) => LookupStateView::Bucketing(keys@, *id),
            LookupState::Sent => LookupStateView::Sent,
            LookupState::Fetching(rows) => LookupStateView::Fetching(rows@),
            LookupState::Finished => LookupStateView::Finished,
        }
    }
}

impl View for LookupAction {
    type V = LookupActionView;

    open spec fn view(&self) -> LookupActionView {
        match self {
            LookupAction::NamePartition => LookupActionView::NamePartition,
            LookupAction::FindPartition(path) => LookupActionView::FindPartition(path@),
            LookupAction::ComputeBucket(key, n) => LookupActionView::ComputeBucket(
                byte_buffer::contents(*key),
                *n,
            ),
            LookupAction::Send(request) => LookupActionView::Send(
                request.table_path@,
                request.table_bucket@,
                byte_buffer::contents(request.key),
            ),
            LookupAction::FetchSchemas(ids) => LookupActionView::FetchSchemas(ids@),
            LookupAction::Return(result) => LookupActionView::Return(result@),
        }
    }
}

/// Whether an event can happen to a lookup that has come so far.
pub open spec fn may_happen(state: LookupStateView, event: LookupEvent) -> bool {
    match (state, event) {
        (LookupStateView::Naming(_), LookupEvent::PartitionNamed(_)) => true,
        (LookupStateView::Locating(_), LookupEvent::PartitionFound(_)) => true,
        (LookupStateView::Bucketing(_, _), LookupEvent::BucketComputed(_)) => true,
        (LookupStateView::Sent, LookupEvent::Answered(_)) => true,
        (LookupStateView::Fetching(_), LookupEvent::SchemasFetched(schemas)) => forall|i: int|
            0 <= i < schemas@.len() ==> (*(#[trigger] schemas@[i]).1)@.valid(),
        _ => false,
    }
}

impl BucketLookupView {
    pub open spec fn valid(self) -> bool {
        self.info.valid() && self.schemas.valid()
    }

    /// How a lookup with these keys starts: with the partition, where the table
    /// has partitions, else with the bucket.
    pub open spec fn begun(self, keys: LookupKeysView) -> (LookupStateView, LookupActionView) {
        if self.info.partition_keys.len() > 0 {
            (LookupStateView::Naming(keys), LookupActionView::NamePartition)
        } else {
            (
                LookupStateView::Bucketing(keys, None),
                LookupActionView::ComputeBucket(keys.bucket_key, self.info.num_buckets),
            )
        }
    }

    /// What an event adds to what is known of schemas.
    pub open spec fn after(self, event: LookupEvent) -> BucketLookupView {
        match event {
            LookupEvent::SchemasFetched(schemas) => BucketLookupView {
                schemas: self.schemas.with_schemas(schema_ctx::fetched(schemas@)),
                ..self
            },
            _ => self,
        }
    }

    /// How a lookup goes on after an event that can happen, or the error that it
    /// ends with.
    pub open spec fn next(self, state: LookupStateView, event: LookupEvent) -> core::result::Result<
        (LookupStateView, LookupActionView),
        ErrorView,
    > {
        match (state, event) {
            (LookupStateView::Naming(keys), LookupEvent::PartitionNamed(name)) => Ok(
                (
                    LookupStateView::Locating(keys),
                    LookupActionView::FindPartition(
                        PhysicalTablePathView {
                            table_path: self.info.table_path,
                            partition_name: Some(name@),
                        },
                    ),
                ),
            ),
            (LookupStateView::Locating(keys), LookupEvent::PartitionFound(id)) => match id {
                Some(_) => Ok(
                    (
                        LookupStateView::Bucketing(keys, id),
                        LookupActionView::ComputeBucket(keys.bucket_key, self.info.num_buckets),
                    ),
                ),
                None => Ok(
                    (
                        LookupStateView::Finished,
                        LookupActionView::Return(self.schemas.result(Seq::empty())),
                    ),
                ),
            },
            (LookupStateView::Bucketing(keys, partition_id), LookupEvent::BucketComputed(bucket)) =>
            Ok(
                (
                    LookupStateView::Sent,
                    LookupActionView::Send(
                        self.info.table_path,
                        TableBucketView { table_id: self.info.table_id, partition_id, bucket },
                        keys.key,
                    ),
                ),
            ),
            (LookupStateView::Sent, LookupEvent::Answered(rows)) => match schema_ctx::missing_ids(
                self.schemas.decoders,
                rows@,
            ) {
                Err(e) => Err(e),
                Ok(ids) => if ids.len() == 0 {
                    Ok(
                        (
                            LookupStateView::Finished,
                            LookupActionView::Return(self.schemas.result(rows@)),
                        ),
                    )
                } else {
                    Ok(
                        (
                            LookupStateView::Fetching(rows@),
                            LookupActionView::FetchSchemas(ids),
                        ),
                    )
                },
            },
            (LookupStateView::Fetching(rows), LookupEvent::SchemasFetched(_)) => Ok(
                (
                    LookupStateView::Finished,
                    LookupActionView::Return(self.after(event).schemas.result(rows)),
                ),
            ),
            _ => arbitrary(),
        }
    }
}

/// How many events a lookup can still need.
pub open spec fn events_left(state: LookupStateView) -> nat {
    match state {
        LookupStateView::Naming(_) => 5,
        LookupStateView::Locating(_) => 4,
        LookupStateView::Bucketing(_, _) => 3,
        LookupStateView::Sent => 2,
        LookupStateView::Fetching(_) => 1,
        LookupStateView::Finished => 0,
    }
}

/// Every event brings a lookup nearer to its end, and it ends with what it
/// returns.
pub proof fn lookup_ends(lookup: BucketLookupView, state: LookupStateView, event: LookupEvent)
    requires
        may_happen(state, event),
    ensures
        lookup.next(state, event) matches Ok((next, action)) ==> {
            &&& events_left(next) < events_left(state)
            &&& (next is Finished <==> action is Return)
        },
{
}

/// The rows of an answer of at most one value.
pub open spec fn value_rows(value: Option<Vec<u8>>) -> Seq<Vec<u8>> {
    match value {
        Some(bytes) => seq![bytes],
        None => Seq::empty(),
    }
}

/// Whether a lookup that has come so far holds at most one row.
pub open spec fn holds_one_row(state: LookupStateView) -> bool {
    state matches LookupStateView::Fetching(rows) ==> rows.len() <= 1
}

/// A lookup whose answer is at most one value holds at most one row at every
/// step, and returns at most one.
pub proof fn one_row_at_every_step(
    lookup: BucketLookupView,
    state: LookupStateView,
    event: LookupEvent,
    value: Option<Vec<u8>>,
)
    requires
        may_happen(state, event),
        holds_one_row(state),
        event matches LookupEvent::Answered(rows) ==> rows@ == value_rows(value),
    ensures
        lookup.next(state, event) matches Ok((next, action)) ==> {
            &&& holds_one_row(next)
            &&& action matches LookupActionView::Return(result) ==> result.rows.len() <= 1
        },
{
}

/// A lookup by the whole key gives at most one row: what is returned for an
/// answer of at most one value, at once or after schemas were fetched, has no row
/// but that of the value. A lookup starts without rows.
pub proof fn at_most_one_row(
    lookup: BucketLookupView,
    keys: LookupKeysView,
    value: Option<Vec<u8>>,
    answered: LookupEvent,
    later: BucketLookupView,
    fetched: LookupEvent,
)
    requires
        answered matches LookupEvent::Answered(rows) && rows@ == value_rows(value),
        fetched is SchemasFetched,
    ensures
        holds_one_row(lookup.begun(keys).0),
        lookup.next(LookupStateView::Sent, answered) matches Ok((state, action)) ==> match action {
            LookupActionView::Return(result) => {
                &&& result.rows == value_rows(value)
                &&& result.rows.len() <= 1
            },
            _ => later.next(state, fetched) matches Ok((_, LookupActionView::Return(result))) && {
                &&& result.rows == value_rows(value)
                &&& result.rows.len() <= 1
            },
        },
{
}

/// The rows of an answer of at most one value.
pub fn rows_of_value(value: Option<Vec<u8>>) -> (r: Vec<Vec<u8>>)
    ensures
        r@ == value_rows(value),
        r@.len() <= 1,
{
    let mut rows: Vec<Vec<u8>> = Vec::new();
    match value {
        Some(bytes) => {
            rows.push(bytes);
        },
        None => {},
    }
    rows
}

impl BucketLookup {
    pub fn new(table_info: TableInfo) -> (r: Result<Self>)
        requires
            table_info@.valid(),
        ensures
            match r {
                Ok(lookup) => {
                    &&& LookupSchemaView::of(table_info@) == Ok::<LookupSchemaView, ErrorView>(
                        lookup@.schemas,
                    )
                    &&& lookup@.info == table_info@
                    &&& lookup.in_order()
                },
                Err(e) => LookupSchemaView::of(table_info@) == Err::<LookupSchemaView, ErrorView>(
                    e@,
                ),
            },
    {
        let num_buckets: i32 = table_info.get_num_buckets();
        match LookupSchemaCtx::new(&table_info) {
            Ok(schema_ctx) => Ok(
                BucketLookup {
                    table_path: Arc::new(table_info.get_table_path().clone()),
                    table_info,
                    num_buckets,
                    schema_ctx,
                },
            ),
            Err(e) => Err(e),
        }
    }

    /// Whether what is held of the table agrees with what is known of it.
    pub closed spec fn in_order(&self) -> bool {
        &&& self@.valid()
        &&& (*self.table_path)@ == self.table_info.table_path@
        &&& self.num_buckets == self.table_info.num_buckets
    }

    /// A lookup in order is one of a valid table.
    pub proof fn in_order_is_valid(&self)
        requires
            self.in_order(),
        ensures
            self@.valid(),
    {
    }

    pub fn table_info(&self) -> (r: &TableInfo)
        ensures
            r@ == self@.info,
    {
        &self.table_info
    }

    /// Starts a lookup with these keys.
    pub fn begin(&self, keys: LookupKeys) -> (r: (LookupState, LookupAction))
        requires
            self.in_order(),
        ensures
            (r.0@, r.1@) == self@.begun(keys@),
    {
        if self.table_info.is_partitioned() {
            (LookupState::Naming(keys), LookupAction::NamePartition)
        } else {
            let bucket_key = clone_bytes(&keys.bucket_key);
            (
                LookupState::Bucketing(keys, None),
                LookupAction::ComputeBucket(bucket_key, self.num_buckets),
            )
        }
    }

    /// Goes on with a lookup after an event.
    pub fn advance(&mut self, state: LookupState, event: LookupEvent) -> (r: Result<
        (LookupState, LookupAction),
    >)
        requires
            old(self).in_order(),
            may_happen(state@, event),
        ensures
            final(self).in_order(),
            final(self)@ == old(self)@.after(event),
            match r {
                Ok((next, action)) => old(self)@.next(state@, event) == Ok::<
                    (LookupStateView, LookupActionView),
                    ErrorView,
                >((next@, action@)),
                Err(e) => old(self)@.next(state@, event) == Err::<
                    (LookupStateView, LookupActionView),
                    ErrorView,
                >(e@),
            },
    {
        match (state, event) {
            (LookupState::Naming(keys), LookupEvent::PartitionNamed(name)) => {
                let path = PhysicalTablePath::of_partitioned(self.table_path.clone(), Some(name));
                Ok((LookupState::Locating(keys), LookupAction::FindPartition(path)))
            },
            (LookupState::Locating(keys), LookupEvent::PartitionFound(id)) => {
                match id {
                    Some(_) => {
                        let bucket_key = clone_bytes(&keys.bucket_key);
                        Ok(
                            (
                                LookupState::Bucketing(keys, id),
                                LookupAction::ComputeBucket(bucket_key, self.num_buckets),
                            ),
                        )
                    },
                    None => Ok(
                        (
                            LookupState::Finished,
                            LookupAction::Return(self.schema_ctx.empty_result()),
                        ),
                    ),
                }
            },
            (
                LookupState::Bucketing(keys, partition_id),
                LookupEvent::BucketComputed(bucket_id),
            ) => {
                let table_bucket = TableBucket::new_with_partition(
                    self.table_info.get_table_id(),
                    partition_id,
                    bucket_id,
                );
                let request = LookupRequest {
                    table_path: (*self.table_path).clone(),
                    table_bucket,
                    key: keys.key,
                };
                Ok((LookupState::Sent, LookupAction::Send(request)))
            },
            (LookupState::Sent, LookupEvent::Answered(rows)) => {
                let ids = match self.schema_ctx.ensure_decoders(&rows) {
                    Ok(ids) => ids,
                    Err(e) => {
                        return Err(e);
                    },
                };
                if ids.len() == 0 {
                    Ok(
                        (
                            LookupState::Finished,
                            LookupAction::Return(self.schema_ctx.build_result(rows)),
                        ),
                    )
                } else {
                    Ok((LookupState::Fetching(rows), LookupAction::FetchSchemas(ids)))
                }
            },
            (LookupState::Fetching(rows), LookupEvent::SchemasFetched(schemas)) => {
                self.schema_ctx.add_schemas(&schemas);
                Ok(
                    (
                        LookupState::Finished,
                        LookupAction::Return(self.schema_ctx.build_result(rows)),
                    ),
                )
            },
            _ => {
                assert(false);
                Ok((LookupState::Finished, LookupAction::NamePartition))
            },
        }
    }
}

/// Whatever number of rows a bucket answers with, a lookup either ends with an
/// error because a row has no schema id, or returns all of them, in their order:
/// at once, or after the schemas were fetched that it asks for.
pub proof fn all_rows_are_returned(
    lookup: BucketLookupView,
    rows: Vec<Vec<u8>>,
    later: BucketLookupView,
    fetched: LookupEvent,
)
    requires
        fetched is SchemasFetched,
    ensures
        match lookup.next(LookupStateView::Sent, LookupEvent::Answered(rows)) {
            Ok((state, action)) => match action {
                LookupActionView::Return(result) => {
                    &&& state is Finished
                    &&& result.rows == rows@
                    &&& result.row_type == lookup.schemas.row_type
                    &&& result.decoders == lookup.schemas.decoders
                },
                LookupActionView::FetchSchemas(ids) => {
                    &&& ids.len() > 0
                    &&& ids.no_duplicates()
                    &&& forall|i: int|
                        0 <= i < rows@.len() && lookup.schemas.decoders.decoder(
                            lookup_result::schema_id((#[trigger] rows@[i])@)->Ok_0,
                        ) is None ==> ids.contains(lookup_result::schema_id(rows@[i]@)->Ok_0)
                    &&& forall|k: int|
                        0 <= k < ids.len() ==> lookup.schemas.decoders.decoder(
                            #[trigger] ids[k],
                        ) is None
                    &&& later.next(state, fetched) matches Ok((end, answer))
                    &&& end is Finished
                    &&& answer matches LookupActionView::Return(result)
                    &&& result.rows == rows@
                    &&& result.row_type == later.schemas.row_type
                    &&& result.decoders == later.after(fetched).schemas.decoders
                },
                _ => false,
            },
            Err(_) => exists|i: int|
                0 <= i < rows@.len() && lookup_result::schema_id((#[trigger] rows@[i])@) is Err,
        },
        (forall|i: int|
            0 <= i < rows@.len() ==> lookup_result::schema_id((#[trigger] rows@[i])@) is Ok)
            ==> lookup.next(LookupStateView::Sent, LookupEvent::Answered(rows)) is Ok,
{
    schema_ctx::missing_ids_are_those_of_rows(lookup.schemas.decoders, rows@);
}

/// A lookup asks one bucket for one key: the bucket of the table, with the
/// partition that was found for the name that the row has and the number that was
/// computed from the bucket key, and the key that it was begun with. Nothing is
/// asked where there is no such partition.
pub proof fn one_bucket_is_asked(
    lookup: BucketLookupView,
    keys: LookupKeysView,
    name: String,
    partition: Option<PartitionId>,
    bucket: BucketId,
)
    ensures
        ({
            let start = lookup.begun(keys);
            let named = lookup.next(start.0, LookupEvent::PartitionNamed(name));
            let found = lookup.next(named->Ok_0.0, LookupEvent::PartitionFound(partition));
            let to_bucket = if lookup.info.partition_keys.len() == 0 {
                start
            } else {
                found->Ok_0
            };
            let computed = lookup.next(to_bucket.0, LookupEvent::BucketComputed(bucket));
            let partitioned = lookup.info.partition_keys.len() > 0;
            &&& partitioned ==> {
                &&& start.1 is NamePartition
                &&& named is Ok
                &&& named->Ok_0.1 matches LookupActionView::FindPartition(path)
                &&& path.table_path == lookup.info.table_path
                &&& path.partition_name == Some(name@)
                &&& found is Ok
            }
            &&& partitioned && partition is None ==> {
                &&& found->Ok_0.0 is Finished
                &&& found->Ok_0.1 matches LookupActionView::Return(result)
                &&& result.rows.len() == 0
            }
            &&& !partitioned || partition is Some ==> {
                &&& to_bucket.1 == LookupActionView::ComputeBucket(
                    keys.bucket_key,
                    lookup.info.num_buckets,
                )
                &&& computed matches Ok((sent, request))
                &&& sent is Sent
                &&& request matches LookupActionView::Send(path, table_bucket, key)
                &&& path == lookup.info.table_path
                &&& table_bucket.table_id == lookup.info.table_id
                &&& table_bucket.partition_id == if partitioned {
                    partition
                } else {
                    None
                }
                &&& table_bucket.bucket == bucket
                &&& key == keys.key
            }
        }),
{
}

/// Nothing that happens changes the table that is looked in, nor how rows of a
/// schema are read that is known already, unless the same schema is fetched again.
pub proof fn what_is_known_stays(lookup: BucketLookupView, event: LookupEvent, id: i16)
    ensures
        lookup.after(event).info == lookup.info,
        lookup.after(event).schemas.schema == lookup.schemas.schema,
        lookup.after(event).schemas.row_type == lookup.schemas.row_type,
        !(event is SchemasFetched) ==> lookup.after(event) == lookup,
        event matches LookupEvent::SchemasFetched(schemas) ==> (forall|i: int|
            0 <= i < schemas@.len() ==> (#[trigger] schemas@[i]).0 != id)
            ==> lookup.after(event).schemas.decoders.decoder(id)
            == lookup.schemas.decoders.decoder(id),
        id == lookup.schemas.decoders.target_id ==> lookup.after(event).schemas.decoders.decoder(id)
            == lookup.schemas.decoders.decoder(id),
{
    if let LookupEvent::SchemasFetched(schemas) = event {
        if forall|i: int| 0 <= i < schemas@.len() ==> (#[trigger] schemas@[i]).0 != id {
            schema_ctx::only_fetched_count(schemas@, id);
        }
    }
}

/// What was stored is found: where a bucket answers with rows that were written
/// with the schema of the table, the result that comes back holds the values that
/// were written, row for row and column for column.
pub proof fn stored_rows_are_found(
    info: TableInfoView,
    lookup: BucketLookupView,
    rows: Vec<Vec<u8>>,
    fields: Seq<ValueWriter>,
    stored: Seq<Seq<DatumView>>,
)
    requires
        info.valid(),
        LookupSchemaView::of(info) == Ok::<LookupSchemaView, ErrorView>(lookup.schemas),
        compacted_row::fields_of(info.schema.row_type) == Some(fields),
        rows@.len() == stored.len(),
        forall|i: int|
            0 <= i < stored.len() ==> {
                &&& stored[i].len() == info.schema.columns.len()
                &&& compacted_row::row_keeps_to_fields(fields, stored[i])
                &&& (#[trigger] rows@[i])@ == little_endian::le_bytes(info.schema_id as int, 2)
                    + compacted_row::encoded_row(fields, stored[i])
            },
    ensures
        lookup.next(LookupStateView::Sent, LookupEvent::Answered(rows)) matches Ok((state, action))
            && {
            &&& state is Finished
            &&& action matches LookupActionView::Return(result)
            &&& result.all_rows() == Ok::<Seq<Seq<DatumView>>, ErrorView>(stored)
        },
{
    let id = info.schema_id as i16;
    let decoders = lookup.schemas.decoders;
    assert forall|i: int| 0 <= i < stored.len() implies decoders.row_of((#[trigger] rows@[i])@)
        == Ok::<Seq<DatumView>, ErrorView>(stored[i]) && lookup_result::schema_id(rows@[i]@)
        == Ok::<i16, ErrorView>(id) && decoders.decoder(id) is Some by {
        lemma_stored_row(info, lookup.schemas, rows@[i]@, fields, stored[i]);
    }
    lemma_known_rows(lookup, rows, stored);
}

proof fn lemma_known_rows(
    lookup: BucketLookupView,
    rows: Vec<Vec<u8>>,
    stored: Seq<Seq<DatumView>>,
)
    requires
        rows@.len() == stored.len(),
        forall|i: int|
            0 <= i < stored.len() ==> lookup.schemas.decoders.row_of((#[trigger] rows@[i])@)
                == Ok::<Seq<DatumView>, ErrorView>(stored[i]),
    ensures
        lookup.next(LookupStateView::Sent, LookupEvent::Answered(rows)) matches Ok((state, action))
            && {
            &&& state is Finished
            &&& action matches LookupActionView::Return(result)
            &&& result.all_rows() == Ok::<Seq<Seq<DatumView>>, ErrorView>(stored)
        },
{
    let decoders = lookup.schemas.decoders;
    lemma_nothing_missing(decoders, rows@);
    let result = lookup.schemas.result(rows@);
    assert(result.all_rows() == Ok::<Seq<Seq<DatumView>>, ErrorView>(stored)) by {
        lookup_result::rows_go_one_by_one(result);
        if let Err(e) = result.all_rows() {
            let i = choose|i: int|
                0 <= i < rows@.len() && decoders.row_of((#[trigger] rows@[i])@) == Err::<
                    Seq<DatumView>,
                    ErrorView,
                >(e);
            assert(decoders.row_of(rows@[i]@) is Ok);
        }
        let found = result.all_rows()->Ok_0;
        assert forall|i: int| 0 <= i < stored.len() implies found[i] == stored[i] by {
            assert(decoders.row_of(result.rows[i]@) == Ok::<Seq<DatumView>, ErrorView>(found[i]));
            assert(decoders.row_of(rows@[i]@) == Ok::<Seq<DatumView>, ErrorView>(stored[i]));
        }
        assert(found =~= stored);
    }
}

proof fn lemma_nothing_missing(decoders: DecoderCacheView, rows: Seq<Vec<u8>>)
    requires
        forall|i: int| 0 <= i < rows.len() ==> decoders.row_of((#[trigger] rows[i])@) is Ok,
    ensures
        schema_ctx::missing_ids(decoders, rows) == Ok::<Seq<i16>, ErrorView>(Seq::empty()),
    decreases rows.len(),
{
    if rows.len() > 0 {
        let front = rows.drop_last();
        assert forall|i: int| 0 <= i < front.len() implies decoders.row_of(
            (#[trigger] front[i])@,
        ) is Ok by {
            assert(decoders.row_of(rows[i]@) is Ok);
        }
        lemma_nothing_missing(decoders, front);
        assert(decoders.row_of(rows[rows.len() - 1]@) is Ok);
    }
}

proof fn lemma_stored_row(
    info: TableInfoView,
    schemas: LookupSchemaView,
    bytes: Seq<u8>,
    fields: Seq<ValueWriter>,
    values: Seq<DatumView>,
)
    requires
        info.valid(),
        LookupSchemaView::of(info) == Ok::<LookupSchemaView, ErrorView>(schemas),
        compacted_row::fields_of(info.schema.row_type) == Some(fields),
        values.len() == info.schema.columns.len(),
        compacted_row::row_keeps_to_fields(fields, values),
        bytes == little_endian::le_bytes(info.schema_id as int, 2) + compacted_row::encoded_row(
            fields,
            values,
        ),
    ensures
        schemas.decoders.row_of(bytes) == Ok::<Seq<DatumView>, ErrorView>(values),
        lookup_result::schema_id(bytes) == Ok::<i16, ErrorView>(info.schema_id as i16),
        schemas.decoders.decoder(info.schema_id as i16) is Some,
{
    let id = info.schema_id as i16;
    let head = little_endian::le_bytes(id as int, 2);
    schema_ctx::rows_of_the_table_are_read_as_they_are(info, values);
    lookup_result::stored_row_is_found(schemas.decoders, id, values);
    little_endian::le_bytes_len(id as int, 2);
    little_endian::span_values();
    little_endian::le_signed_of_bytes(id as int, 2);
    assert(bytes.take(2) =~= head);
}

/// An answer of one value is one row, that value; an answer of none has no row.
pub proof fn values_are_rows(bytes: Vec<u8>)
    ensures
        value_rows(Some(bytes)).len() == 1,
        value_rows(Some(bytes))[0] == bytes,
        value_rows(None).len() == 0,
{
}

} // verus!
