//! Scans that return some rows of a primary-key table.

use std::sync::Arc;

use vstd::prelude::*;

use crate::byte_buffer::bytes_from_vec;
use crate::error::{ApiError, Error, ErrorView, Result};
use crate::metadata::bucket::{TableBucket, TableBucketView};
use crate::metadata::config;
use crate::metadata::datatype::{RowType, RowView};
use crate::metadata::formats::{self, KvFormat};
use crate::metadata::path::{TablePath, TablePathView};
use crate::metadata::table_info::{TableInfo, TableInfoView};
use crate::record::kv::StaticSchemaGetter;
use crate::record::value_record_batch::{
    self, DefaultValueRecordBatch, ValueRecordReadContext, ValueRecordView, Walk,
};
use crate::row::compacted::compacted_row::{self, CompactedRow};
use crate::row::datum;
use crate::row::internal_row::InternalRow;
use crate::row::row_decoder;
use crate::rpc::message::{LimitScanRequest, LimitScanResponse};
use crate::text::{self, concat3, i64_to_text};

verus! {

/// How long the answer to a scan is waited for, in seconds.
pub const KV_SCAN_RPC_TIMEOUT_SECS: u64 = 30;

/// One batch returned by PK table limit scan.
#[derive(Debug)]
pub struct KvScanBatch {
    rows: Vec<Vec<u8>>,
    row_type: Arc<RowType>,
    has_more_results: bool,
}

/// A [`KvScanBatch`] as a value.
pub struct KvScanBatchView {
    pub rows: Seq<Seq<u8>>,
    pub row_type: RowView,
    pub has_more_results: bool,
}

/// The bytes of rows.
pub open spec fn bytes_of_rows(rows: Seq<Vec<u8>>) -> Seq<Seq<u8>> {
    Seq::new(rows.len(), |i: int| rows[i]@)
}

impl View for KvScanBatch {
    type V = KvScanBatchView;

    closed spec fn view(&self) -> KvScanBatchView {
        KvScanBatchView {
            rows: bytes_of_rows(self.rows@),
            row_type: (*self.row_type)@,
            has_more_results: self.has_more_results,
        }
    }
}

impl KvScanBatch {
    pub fn new(rows: Vec<Vec<u8>>, row_type: Arc<RowType>, has_more_results: bool) -> (r: Self)
        ensures
            r@ == (KvScanBatchView {
                rows: bytes_of_rows(rows@),
                row_type: (*row_type)@,
                has_more_results,
            }),
    {
        KvScanBatch { rows, row_type, has_more_results }
    }

    /// A batch without rows.
    pub fn empty(row_type: Arc<RowType>) -> (r: Self)
        ensures
            r@ == (KvScanBatchView {
                rows: Seq::empty(),
                row_type: (*row_type)@,
                has_more_results: false,
            }),
    {
        let r = KvScanBatch { rows: Vec::new(), row_type, has_more_results: false };
        assert(r@.rows =~= Seq::<Seq<u8>>::empty());
        r
    }

    pub fn has_more_results(&self) -> (r: bool)
        ensures
            r == self@.has_more_results,
    {
        self.has_more_results
    }

    pub fn len(&self) -> (r: usize)
        ensures
            r == self@.rows.len(),
    {
        self.rows.len()
    }

    pub fn is_empty(&self) -> (r: bool)
        ensures
            r == (self@.rows.len() == 0),
    {
        self.rows.len() == 0
    }

    /// The rows. Bytes that are no row show only when a field is read.
    pub fn get_rows(&self) -> (r: Vec<CompactedRow<'_>>)
        ensures
            r@.len() == self@.rows.len(),
            forall|i: int|
                0 <= i < r@.len() ==> {
                    &&& (#[trigger] r@[i]).bytes() == self@.rows[i]
                    &&& r@[i].values_view() == compacted_row::row_values(
                        self@.row_type,
                        self@.rows[i],
                    )
                    &&& r@[i].row() == compacted_row::readable_row(
                        self@.row_type,
                        self@.rows[i],
                    )
                },
    {
        let mut rows: Vec<CompactedRow<'_>> = Vec::new();
        let mut i: usize = 0;
        while i < self.rows.len()
            invariant
                i <= self.rows@.len(),
                rows@.len() == i,
                forall|j: int|
                    0 <= j < i ==> {
                        &&& (#[trigger] rows@[j]).bytes() == self@.rows[j]
                        &&& rows@[j].values_view() == compacted_row::row_values(
                            self@.row_type,
                            self@.rows[j],
                        )
                        &&& rows@[j].row() == compacted_row::readable_row(
                            self@.row_type,
                            self@.rows[j],
                        )
                    },
            decreases self.rows@.len() - i,
        {
            assert(self@.rows[i as int] == self.rows@[i as int]@);
            rows.push(CompactedRow::from_bytes(&self.row_type, self.rows[i].as_slice()));
            i = i + 1;
        }
        rows
    }
}

/// PK table limit scanner based on LimitScan RPC.
pub struct KvBatchScanner {
    table_info: TableInfo,
    table_path: Arc<TablePath>,
    table_bucket: TableBucket,
    row_type: Arc<RowType>,
    read_context: ValueRecordReadContext<StaticSchemaGetter>,
    limit: i32,
    closed: bool,
}

/// A [`KvBatchScanner`] as a value.
pub struct KvBatchScannerView {
    pub info: TableInfoView,
    pub bucket: TableBucketView,
    pub limit: i32,
    pub closed: bool,
}

impl View for KvBatchScanner {
    type V = KvBatchScannerView;

    closed spec fn view(&self) -> KvBatchScannerView {
        KvBatchScannerView {
            info: self.table_info@,
            bucket: self.table_bucket@,
            limit: self.limit,
            closed: self.closed,
        }
    }
}

/// What happened while a batch was polled.
#[derive(Debug)]
pub enum PollEvent {
    /// A batch is wanted.
    Started,
    /// The server with this id leads the bucket, or none does.
    LeaderFound(Option<i32>),
    /// The server with this id is known, or is not.
    ServerLookedUp(i32, bool),
    /// The server did not answer in time.
    TimedOut,
    Answered(LimitScanResponse),
}

/// What is to be done to poll a batch.
#[derive(Debug)]
pub enum PollAction {
    /// Ask which server leads the bucket of a table.
    FindLeader(TablePath, TableBucket),
    /// Look up the server with this id.
    FindServer(i32),
    Send(LimitScanRequest),
    Return(KvScanBatch),
}

/// A [`PollAction`] as a value.
pub enum PollActionView {
    FindLeader(TablePathView, TableBucketView),
    FindServer(i32),
    Send(LimitScanRequest),
    Return(KvScanBatchView),
}

impl View for PollAction {
    type V = PollActionView;

    open spec fn view(&self) -> PollActionView {
        match self {
            PollAction::FindLeader(path, bucket) => PollActionView::FindLeader(path@, bucket@),
            PollAction::FindServer(id) => PollActionView::FindServer(*id),
            PollAction::Send(request) => PollActionView::Send(*request),
            PollAction::Return(batch) => PollActionView::Return(batch@),
        }
    }
}

/// The format of the rows of a table. One that is not known is taken for the
/// compacted one.
pub open spec fn scan_format(info: TableInfoView) -> KvFormat {
    match formats::kv_format_named(
        config::property_or(info.table_config, "table.kv.format"@, "COMPACTED"@),
    ) {
        Ok(format) => format,
        Err(_) => KvFormat::COMPACTED,
    }
}

/// Why rows with a schema id cannot be read, if they cannot. Every id is taken
/// for that of the schema of the table.
pub open spec fn scan_fault(info: TableInfoView) -> spec_fn(i16) -> Option<ErrorView> {
    |schema_id: i16|
        match row_decoder::decoder_for(scan_format(info), info.schema.row_type) {
            Ok(_) => None,
            Err(e) => Some(e),
        }
}

/// What reading the records of an answer comes to.
pub open spec fn scan_walk(info: TableInfoView, records: Seq<u8>) -> Walk {
    value_record_batch::walk_batch(records, 0, scan_fault(info))
}

/// The rows of records.
pub open spec fn rows_of_records(records: Seq<ValueRecordView>) -> Seq<Seq<u8>> {
    Seq::new(records.len(), |i: int| records[i].value_bytes)
}

/// The rows in the bytes of an answer, or why there are none.
pub open spec fn scan_rows(info: TableInfoView, records: Seq<u8>) -> core::result::Result<
    Seq<Seq<u8>>,
    ErrorView,
> {
    match scan_walk(info, records) {
        Walk::Read(records) => Ok(rows_of_records(records)),
        Walk::Fails(e) => Err(e),
        Walk::Beyond => arbitrary(),
    }
}

impl KvBatchScannerView {
    /// A batch with these rows, the last.
    pub open spec fn batch(self, rows: Seq<Seq<u8>>) -> KvScanBatchView {
        KvScanBatchView { rows, row_type: self.info.row_type, has_more_results: false }
    }

    /// What becomes of an answer: the rows, or an error.
    pub open spec fn answer(self, response: LimitScanResponse) -> core::result::Result<
        Seq<Seq<u8>>,
        ErrorView,
    > {
        if response.error_code matches Some(code) && code != 0 {
            Err(
                ErrorView::FlussAPIError(
                    response.error_code->0,
                    match response.error_message {
                        Some(message) => message@,
                        None => Seq::empty(),
                    },
                ),
            )
        } else if response.is_log_table == Some(true) {
            Err(
                ErrorView::UnsupportedOperation(
                    "LimitScan returned log records for "@ + self.bucket.text()
                        + ", expected KV records for PK table"@,
                ),
            )
        } else {
            match response.records {
                Some(records) => scan_rows(self.info, records@),
                None => Ok(Seq::empty()),
            }
        }
    }

    /// Whether the records of an answer are read: it has no error code, and is
    /// not that of a log table.
    pub open spec fn reads(self, response: LimitScanResponse) -> bool {
        &&& response.error_code is None || response.error_code == Some(0i32)
        &&& response.is_log_table != Some(true)
    }

    /// Whether an event can be taken: where the records of an answer are read,
    /// its bytes must not end before the records do that it says it has.
    pub open spec fn takes(self, event: PollEvent) -> bool {
        event matches PollEvent::Answered(response) ==> self.reads(response) ==> (
        response.records matches Some(records) ==> !(scan_walk(self.info, records@) is Beyond))
    }

    /// How polling goes on after an event, or the error that it ends with.
    pub open spec fn next(self, event: PollEvent) -> core::result::Result<
        PollActionView,
        ErrorView,
    > {
        match event {
            PollEvent::Started => if self.closed {
                Ok(PollActionView::Return(self.batch(Seq::empty())))
            } else {
                Ok(PollActionView::FindLeader(self.info.table_path, self.bucket))
            },
            PollEvent::LeaderFound(leader) => match leader {
                Some(id) => Ok(PollActionView::FindServer(id)),
                None => Err(
                    ErrorView::LeaderNotAvailable(
                        "No leader found for table bucket: "@ + self.bucket.text(),
                    ),
                ),
            },
            PollEvent::ServerLookedUp(id, known) => if known {
                Ok(
                    PollActionView::Send(
                        LimitScanRequest {
                            table_id: self.bucket.table_id,
                            partition_id: self.bucket.partition_id,
                            bucket_id: self.bucket.bucket,
                            limit: self.limit,
                        },
                    ),
                )
            } else {
                Err(
                    ErrorView::LeaderNotAvailable(
                        "Tablet server "@ + text::int_text(id as int)
                            + " is not found in metadata cache"@,
                    ),
                )
            },
            PollEvent::TimedOut => Err(
                ErrorView::UnexpectedError(
                    "LimitScan request timed out after "@ + text::nat_text(
                        KV_SCAN_RPC_TIMEOUT_SECS as nat,
                    ) + "s for "@ + self.bucket.text(),
                ),
            ),
            PollEvent::Answered(response) => match self.answer(response) {
                Ok(rows) => Ok(PollActionView::Return(self.batch(rows))),
                Err(e) => Err(e),
            },
        }
    }

    /// The scanner after an event: an answer with a batch closes it.
    pub open spec fn after(self, event: PollEvent) -> KvBatchScannerView {
        KvBatchScannerView {
            closed: self.closed || event is Answered && self.next(event) is Ok,
            ..self
        }
    }
}

/// A scanner gives one batch: once it has, it is closed, and what it gives then
/// is an empty batch after which nothing comes.
pub proof fn one_batch(scanner: KvBatchScannerView, event: PollEvent)
    requires
        !scanner.closed,
        scanner.next(event) matches Ok(action) && action is Return,
    ensures
        scanner.after(event).closed,
        scanner.after(event).next(PollEvent::Started) == Ok::<PollActionView, ErrorView>(
            PollActionView::Return(scanner.batch(Seq::empty())),
        ),
        !scanner.batch(Seq::empty()).has_more_results,
{
}

impl KvBatchScanner {
    /// Whether what is held of the table agrees with what is known of it.
    pub closed spec fn valid(&self) -> bool {
        &&& (*self.table_path)@ == self.table_info.table_path@
        &&& (*self.row_type)@ == self.table_info@.row_type
        &&& self.read_context.valid()
        &&& forall|id: i16| #[trigger]
            self.read_context.decoder_of(id) == row_decoder::decoder_for(
                scan_format(self.table_info@),
                self.table_info@.schema.row_type,
            )
    }

    pub fn new(table_info: TableInfo, table_bucket: TableBucket, limit: i32) -> (r: Self)
        ensures
            r.valid(),
            r@ == (KvBatchScannerView {
                info: table_info@,
                bucket: table_bucket@,
                limit,
                closed: false,
            }),
    {
        let kv_format = match table_info.get_table_config().get_kv_format() {
            Ok(format) => format,
            Err(_) => KvFormat::COMPACTED,
        };
        let schema_getter = Arc::new(
            StaticSchemaGetter::new(Arc::new(table_info.get_schema().clone())),
        );
        let read_context = ValueRecordReadContext::new(kv_format, schema_getter);
        KvBatchScanner {
            table_path: Arc::new(table_info.get_table_path().clone()),
            row_type: Arc::new(table_info.row_type().clone()),
            table_info,
            table_bucket,
            read_context,
            limit,
            closed: false,
        }
    }

    /// Goes on to poll a batch after an event.
    pub fn poll_batch(&mut self, event: PollEvent) -> (r: Result<PollAction>)
        requires
            old(self).valid(),
            old(self)@.takes(event),
        ensures
            final(self).valid(),
            final(self)@ == old(self)@.after(event),
            match r {
                Ok(action) => old(self)@.next(event) == Ok::<PollActionView, ErrorView>(action@),
                Err(e) => old(self)@.next(event) == Err::<PollActionView, ErrorView>(e@),
            },
    {
        match event {
            PollEvent::Started => {
                if self.closed {
                    return Ok(PollAction::Return(KvScanBatch::empty(self.row_type.clone())));
                }
                Ok(PollAction::FindLeader((*self.table_path).clone(), self.table_bucket))
            },
            PollEvent::LeaderFound(leader) => match leader {
                Some(id) => Ok(PollAction::FindServer(id)),
                None => {
                    let mut message = "No leader found for table bucket: ".to_owned();
                    message.append(self.table_bucket.to_string().as_str());
                    Err(Error::leader_not_available(message))
                },
            },
            PollEvent::ServerLookedUp(id, known) => {
                if !known {
                    return Err(
                        Error::leader_not_available(
                            concat3(
                                "Tablet server ",
                                i64_to_text(id as i64).as_str(),
                                " is not found in metadata cache",
                            ),
                        ),
                    );
                }
                Ok(
                    PollAction::Send(
                        LimitScanRequest::new(
                            self.table_bucket.table_id(),
                            self.table_bucket.partition_id(),
                            self.table_bucket.bucket_id(),
                            self.limit,
                        ),
                    ),
                )
            },
            PollEvent::TimedOut => {
                let mut message = concat3(
                    "LimitScan request timed out after ",
                    text::u64_to_text(KV_SCAN_RPC_TIMEOUT_SECS).as_str(),
                    "s for ",
                );
                message.append(self.table_bucket.to_string().as_str());
                Err(Error::unexpected(message))
            },
            PollEvent::Answered(response) => self.take_answer(response),
        }
    }

    /// Whether an answer can be taken: where its records are read, its bytes do
    /// not end before the records do that it says it has.
    pub fn can_take(&mut self, response: &LimitScanResponse) -> (r: bool)
        requires
            old(self).valid(),
        ensures
            final(self).valid(),
            final(self)@ == old(self)@,
            r == old(self)@.takes(PollEvent::Answered(*response)),
    {
        if let Some(error_code) = response.error_code {
            if error_code != 0 {
                return true;
            }
        }
        if let Some(is_log_table) = response.is_log_table {
            if is_log_table {
                return true;
            }
        }
        match &response.records {
            Some(records) => {
                assert(self.read_context.fault() =~= scan_fault(self@.info));
                let bytes = bytes_from_vec(datum::copy_slice(records.as_slice()));
                let batch = DefaultValueRecordBatch::new(bytes, 0);
                match batch.read_records(&mut self.read_context) {
                    Ok(Some(_)) => true,
                    Ok(None) => false,
                    Err(_) => true,
                }
            },
            None => true,
        }
    }

    /// Makes a batch of an answer.
    fn take_answer(&mut self, response: LimitScanResponse) -> (r: Result<PollAction>)
        requires
            old(self).valid(),
            old(self)@.takes(PollEvent::Answered(response)),
        ensures
            final(self).valid(),
            final(self)@ == old(self)@.after(PollEvent::Answered(response)),
            match r {
                Ok(action) => old(self)@.next(PollEvent::Answered(response)) == Ok::<
                    PollActionView,
                    ErrorView,
                >(action@),
                Err(e) => old(self)@.next(PollEvent::Answered(response)) == Err::<
                    PollActionView,
                    ErrorView,
                >(e@),
            },
    {
        if let Some(error_code) = response.error_code {
            if error_code != 0 {
                let message = match response.error_message {
                    Some(message) => message,
                    None => String::new(),
                };
                return Err(
                    Error::FlussAPIError { api_error: ApiError { code: error_code, message } },
                );
            }
        }
        if let Some(is_log_table) = response.is_log_table {
            if is_log_table {
                return Err(
                    Error::unsupported(
                        concat3(
                            "LimitScan returned log records for ",
                            self.table_bucket.to_string().as_str(),
                            ", expected KV records for PK table",
                        ),
                    ),
                );
            }
        }
        match response.records {
            None => {
                self.closed = true;
                Ok(PollAction::Return(KvScanBatch::empty(self.row_type.clone())))
            },
            Some(records) => match self.decode_limit_scan_records(records) {
                Ok(rows) => {
                    self.closed = true;
                    Ok(PollAction::Return(KvScanBatch::new(rows, self.row_type.clone(), false)))
                },
                Err(e) => Err(e),
            },
        }
    }

    pub fn keep_alive(&mut self) -> (r: Result<()>)
        ensures
            r is Ok,
            *final(self) == *old(self),
    {
        Ok(())
    }

    pub fn close(&mut self) -> (r: Result<()>)
        ensures
            r is Ok,
            final(self)@ == (KvBatchScannerView { closed: true, ..old(self)@ }),
            old(self).valid() ==> final(self).valid(),
    {
        self.closed = true;
        Ok(())
    }

    pub fn is_closed(&self) -> (r: bool)
        ensures
            r == self@.closed,
    {
        self.closed
    }

    pub fn table_info(&self) -> (r: &TableInfo)
        ensures
            r@ == self@.info,
    {
        &self.table_info
    }

    /// The rows in the bytes of an answer.
    pub fn decode_limit_scan_records(&mut self, records_bytes: Vec<u8>) -> (r: Result<Vec<Vec<u8>>>)
        requires
            old(self).valid(),
            !(scan_walk(old(self)@.info, records_bytes@) is Beyond),
        ensures
            final(self).valid(),
            final(self)@ == old(self)@,
            match r {
                Ok(rows) => scan_rows(old(self)@.info, records_bytes@) == Ok::<
                    Seq<Seq<u8>>,
                    ErrorView,
                >(bytes_of_rows(rows@)),
                Err(e) => scan_rows(old(self)@.info, records_bytes@) == Err::<
                    Seq<Seq<u8>>,
                    ErrorView,
                >(e@),
            },
    {
        let ghost info = self@.info;
        let ghost bytes = records_bytes@;
        assert(self.read_context.fault() =~= scan_fault(info));
        let batch = DefaultValueRecordBatch::new(bytes_from_vec(records_bytes), 0);
        let records = match batch.records(&mut self.read_context) {
            Ok(records) => records,
            Err(e) => {
                return Err(e);
            },
        };
        let mut rows: Vec<Vec<u8>> = Vec::new();
        let mut i: usize = 0;
        while i < records.len()
            invariant
                i <= records@.len(),
                self.valid(),
                self@ == old(self)@,
                rows@.len() == i,
                forall|j: int|
                    0 <= j < i ==> (#[trigger] rows@[j])@ == records@[j]@.value_bytes,
            decreases records@.len() - i,
        {
            rows.push(datum::copy_slice(records[i].value_bytes()));
            i = i + 1;
        }
        assert(bytes_of_rows(rows@) =~= rows_of_records(
            value_record_batch::record_views(records@),
        ));
        Ok(rows)
    }
}

/// An answer that has no error and is not that of a log table gives the rows that
/// its records hold, all of them and in their order, and is the last batch.
pub proof fn rows_of_an_answer_are_returned(
    scanner: KvBatchScannerView,
    response: LimitScanResponse,
    before: Seq<u8>,
    magic: u8,
    records: Seq<(i16, Seq<u8>)>,
    after: Seq<u8>,
)
    requires
        response.error_code is None || response.error_code == Some(0i32),
        response.is_log_table is None || response.is_log_table == Some(false),
        response.records matches Some(bytes) && bytes@ == value_record_batch::batch_layout(
            magic,
            records,
        ) + after,
        5 + value_record_batch::records_layout(records).len() <= i32::MAX,
        !scanner.info.table_config.contains_key("table.kv.format"@)
            || scanner.info.table_config["table.kv.format"@] != "INDEXED"@,
    ensures
        scanner.takes(PollEvent::Answered(response)),
        scanner.next(PollEvent::Answered(response)) matches Ok(action) && {
            &&& action matches PollActionView::Return(batch)
            &&& batch.rows.len() == records.len()
            &&& forall|i: int|
                0 <= i < records.len() ==> #[trigger] batch.rows[i] == records[i].1
            &&& batch.row_type == scanner.info.row_type
            &&& !batch.has_more_results
        },
        scanner.after(PollEvent::Answered(response)).closed,
{
    formats::kv_names_decide("COMPACTED"@);
    if scanner.info.table_config.contains_key("table.kv.format"@) {
        formats::kv_names_decide(scanner.info.table_config["table.kv.format"@]);
    }
    let bytes = response.records->0@;
    assert forall|i: int| 0 <= i < records.len() implies scan_fault(scanner.info)(
        (#[trigger] records[i]).0,
    ) is None by {}
    value_record_batch::batch_reads_back(
        Seq::empty(),
        magic,
        records,
        after,
        scan_fault(scanner.info),
    );
    assert(Seq::<u8>::empty() + value_record_batch::batch_layout(magic, records) + after =~= bytes);
}

/// An answer without records gives an empty batch; one with an error code gives
/// that error, and one of a log table is refused, whatever else they hold. What
/// fails leaves a scanner as it was.
pub proof fn answers_without_rows(scanner: KvBatchScannerView, response: LimitScanResponse)
    ensures
        ({
            let next = scanner.next(PollEvent::Answered(response));
            let failed = response.error_code matches Some(code) && code != 0;
            let log = response.is_log_table == Some(true);
            &&& failed ==> next == Err::<PollActionView, ErrorView>(
                ErrorView::FlussAPIError(
                    response.error_code->0,
                    match response.error_message {
                        Some(message) => message@,
                        None => Seq::empty(),
                    },
                ),
            )
            &&& !failed && log ==> (next matches Err(e) && e is UnsupportedOperation)
            &&& !failed && !log && response.records is None ==> (next matches Ok(action) && {
                &&& action matches PollActionView::Return(batch)
                &&& batch.rows.len() == 0
                &&& !batch.has_more_results
            })
            &&& failed || log ==> scanner.takes(PollEvent::Answered(response))
            &&& next is Err ==> scanner.after(PollEvent::Answered(response)) == scanner
            &&& next is Ok ==> scanner.after(PollEvent::Answered(response)).closed
        }),
{
}

/// A scan that is open asks the leader of its bucket, in the table that it scans,
/// for as many rows as it was made for. Nothing but an answer closes it.
pub proof fn the_leader_is_asked(
    scanner: KvBatchScannerView,
    leader: i32,
    event: PollEvent,
)
    ensures
        !scanner.closed ==> scanner.next(PollEvent::Started) == Ok::<PollActionView, ErrorView>(
            PollActionView::FindLeader(scanner.info.table_path, scanner.bucket),
        ),
        scanner.next(PollEvent::LeaderFound(Some(leader))) == Ok::<PollActionView, ErrorView>(
            PollActionView::FindServer(leader),
        ),
        scanner.next(PollEvent::LeaderFound(None)) matches Err(e) && e is LeaderNotAvailable,
        scanner.next(PollEvent::ServerLookedUp(leader, true)) matches Ok(action) && {
            &&& action matches PollActionView::Send(request)
            &&& request.table_id == scanner.bucket.table_id
            &&& request.partition_id == scanner.bucket.partition_id
            &&& request.bucket_id == scanner.bucket.bucket
            &&& request.limit == scanner.limit
        },
        scanner.next(PollEvent::ServerLookedUp(leader, false)) matches Err(e) && e
            is LeaderNotAvailable,
        scanner.next(PollEvent::TimedOut) matches Err(e) && e is UnexpectedError,
        !(event is Answered) ==> scanner.after(event) == scanner,
        scanner.after(event).info == scanner.info,
        scanner.after(event).bucket == scanner.bucket,
        scanner.after(event).limit == scanner.limit,
        scanner.closed ==> scanner.after(event).closed,
{
}

/// Rows of the indexed format cannot be read: a batch that holds any is refused.
pub proof fn indexed_rows_are_refused(
    info: TableInfoView,
    magic: u8,
    record: (i16, Seq<u8>),
    records: Seq<(i16, Seq<u8>)>,
    after: Seq<u8>,
)
    requires
        info.table_config.contains_key("table.kv.format"@),
        info.table_config["table.kv.format"@] == "INDEXED"@,
        5 + value_record_batch::records_layout(seq![record] + records).len() <= i32::MAX,
    ensures
        scan_rows(
            info,
            value_record_batch::batch_layout(magic, seq![record] + records) + after,
        ) matches Err(e) && e is UnsupportedOperation,
{
    formats::kv_names_decide("INDEXED"@);
    value_record_batch::first_record_is_met(
        magic,
        seq![record] + records,
        after,
        scan_fault(info),
    );
}

/// A scan that was closed gives an empty batch and asks for nothing.
pub proof fn closed_scans_give_nothing(scanner: KvBatchScannerView)
    requires
        scanner.closed,
    ensures
        scanner.next(PollEvent::Started) matches Ok(action) && {
            &&& action matches PollActionView::Return(batch)
            &&& batch.rows.len() == 0
            &&& !batch.has_more_results
            &&& batch.row_type == scanner.info.row_type
        },
{
}

} // verus!
