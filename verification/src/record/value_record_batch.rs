//! Batches of value records, as a limit scan of a primary-key table returns them.
//!
//! Layout of a batch:
//! - Length => Int32
//! - Magic => Int8
//! - RecordCount => Int32
//! - Records => [ValueRecord]
//!
//! Layout of a value record:
//! - Length => Int32 (size without length field)
//! - SchemaId => Int16
//! - Value => row bytes

use std::collections::HashMap;
use std::sync::Arc;

use bytes::Bytes;
use vstd::prelude::*;

use crate::byte_buffer::{self, as_slice, clone_bytes, slice};
use crate::error::{self, Error, ErrorView, IoError, IoErrorKind, IoErrorView, Result};
use crate::little_endian::{self, read_i16_at, read_i32_at};
use crate::metadata::datatype::RowView;
use crate::metadata::formats::KvFormat;
use crate::record::kv::SchemaGetter;
use crate::row::compacted::compacted_row::{self, CompactedRow};
use crate::row::internal_row::InternalRow;
use crate::row::row_decoder::{self, CompactedRowDecoder, RowDecoderFactory};
use crate::text::{self, i64_to_text};

verus! {

pub const LENGTH_LENGTH: usize = 4;

pub const MAGIC_OFFSET: usize = 4;

pub const RECORDS_COUNT_OFFSET: usize = 5;

pub const RECORD_BATCH_HEADER_SIZE: usize = 9;

pub const VALUE_RECORD_LENGTH_LENGTH: usize = 4;

pub const VALUE_RECORD_SCHEMA_ID_LENGTH: usize = 2;

pub const VALUE_RECORD_VALUE_OFFSET: usize = 6;

/// The result of reading bytes.
pub type IoResult<T> = core::result::Result<T, IoError>;

/// A result by what it says.
pub open spec fn io_view<T>(r: IoResult<T>) -> core::result::Result<T, IoErrorView> {
    match r {
        Ok(v) => Ok(v),
        Err(e) => Err(e@),
    }
}

/// One row, with the id of the schema that it was written with.
#[derive(Debug)]
pub struct ValueRecord {
    schema_id: i16,
    value_bytes: Bytes,
    size_in_bytes: usize,
}

/// A [`ValueRecord`] as a value.
pub struct ValueRecordView {
    pub schema_id: i16,
    pub value_bytes: Seq<u8>,
    pub size_in_bytes: int,
}

impl View for ValueRecord {
    type V = ValueRecordView;

    closed spec fn view(&self) -> ValueRecordView {
        ValueRecordView {
            schema_id: self.schema_id,
            value_bytes: byte_buffer::contents(self.value_bytes),
            size_in_bytes: self.size_in_bytes as int,
        }
    }
}

impl Clone for ValueRecord {
    fn clone(&self) -> (r: Self)
        ensures
            r@ == self@,
    {
        ValueRecord {
            schema_id: self.schema_id,
            value_bytes: clone_bytes(&self.value_bytes),
            size_in_bytes: self.size_in_bytes,
        }
    }
}

/// The values of records.
pub open spec fn record_views(records: Seq<ValueRecord>) -> Seq<ValueRecordView> {
    Seq::new(records.len(), |i: int| records[i]@)
}

impl ValueRecord {
    pub fn schema_id(&self) -> (r: i16)
        ensures
            r == self@.schema_id,
    {
        self.schema_id
    }

    pub fn size_in_bytes(&self) -> (r: usize)
        ensures
            r == self@.size_in_bytes,
    {
        self.size_in_bytes
    }

    /// The bytes of the row.
    pub fn value_bytes(&self) -> (r: &[u8])
        ensures
            r@ == self@.value_bytes,
    {
        as_slice(&self.value_bytes)
    }

    /// The row. Bytes that are no row show only when a field is read.
    pub fn row<'a>(&'a self, decoder: &CompactedRowDecoder) -> (r: CompactedRow<'a>)
        ensures
            r.bytes() == self@.value_bytes,
            r.values_view() == compacted_row::row_values(decoder@, self@.value_bytes),
            r.row() == compacted_row::readable_row(decoder@, self@.value_bytes),
    {
        decoder.decode(as_slice(&self.value_bytes))
    }
}

/// A batch of value records that starts somewhere in bytes.
pub struct DefaultValueRecordBatch {
    data: Bytes,
    position: usize,
}

/// The four bytes at a place as an integer.
pub open spec fn int_at(data: Seq<u8>, place: int) -> int {
    little_endian::le_signed(data.subrange(place, place + 4))
}

/// The two bytes at a place as an integer.
pub open spec fn short_at(data: Seq<u8>, place: int) -> i16 {
    little_endian::le_signed(data.subrange(place, place + 2)) as i16
}

pub open spec fn eof(message: Seq<char>) -> IoErrorView {
    IoErrorView { kind: IoErrorKind::UnexpectedEof, message }
}

pub open spec fn invalid(message: Seq<char>) -> IoErrorView {
    IoErrorView { kind: IoErrorKind::InvalidData, message }
}

/// The size of a batch, with its length field.
pub open spec fn batch_size(data: Seq<u8>, position: int) -> core::result::Result<int, IoErrorView> {
    if data.len() < position + LENGTH_LENGTH {
        Err(eof("Not enough bytes to read batch length"@))
    } else if int_at(data, position) < 0 {
        Err(invalid("Invalid batch length: "@ + text::int_text(int_at(data, position))))
    } else {
        Ok(int_at(data, position) + LENGTH_LENGTH)
    }
}

/// The number of records that a batch says it has.
pub open spec fn batch_count(data: Seq<u8>, position: int) -> core::result::Result<
    int,
    IoErrorView,
> {
    if data.len() < position + RECORD_BATCH_HEADER_SIZE {
        Err(eof("Not enough bytes to read record count"@))
    } else {
        Ok(int_at(data, position + RECORDS_COUNT_OFFSET))
    }
}

/// What reading records comes to.
pub enum Walk {
    /// The records.
    Read(Seq<ValueRecordView>),
    /// The first record that is not in order.
    Fails(ErrorView),
    /// The batch says that there are more bytes than there are.
    Beyond,
}

/// Reads `n` records between a place and the end of a batch. Some ids have no
/// schema: `fault` says why.
pub open spec fn walk(
    data: Seq<u8>,
    place: int,
    end: int,
    n: nat,
    fault: spec_fn(i16) -> Option<ErrorView>,
) -> Walk
    decreases n,
{
    if n == 0 {
        Walk::Read(Seq::empty())
    } else if place + VALUE_RECORD_LENGTH_LENGTH > end {
        Walk::Fails(
            ErrorView::IoUnexpectedError(
                "Not enough bytes to read value record length"@,
                eof("value record length"@),
            ),
        )
    } else if place + VALUE_RECORD_LENGTH_LENGTH > data.len() {
        Walk::Beyond
    } else if int_at(data, place) < VALUE_RECORD_SCHEMA_ID_LENGTH {
        Walk::Fails(
            ErrorView::IoUnexpectedError(
                "Invalid value record length: "@ + text::int_text(int_at(data, place)),
                invalid("value record length"@),
            ),
        )
    } else {
        let next = place + VALUE_RECORD_LENGTH_LENGTH + int_at(data, place);
        if next > end {
            Walk::Fails(
                ErrorView::IoUnexpectedError(
                    "Not enough bytes to read value record"@,
                    eof("value record"@),
                ),
            )
        } else if next > data.len() {
            Walk::Beyond
        } else {
            let schema_id = short_at(data, place + VALUE_RECORD_LENGTH_LENGTH);
            match fault(schema_id) {
                Some(e) => Walk::Fails(e),
                None => match walk(data, next, end, (n - 1) as nat, fault) {
                    Walk::Read(rest) => Walk::Read(
                        seq![
                            ValueRecordView {
                                schema_id,
                                value_bytes: data.subrange(
                                    place + VALUE_RECORD_VALUE_OFFSET,
                                    next,
                                ),
                                size_in_bytes: next - place,
                            },
                        ] + rest,
                    ),
                    other => other,
                },
            }
        }
    }
}

/// What reading all records of a batch comes to.
pub open spec fn walk_batch(
    data: Seq<u8>,
    position: int,
    fault: spec_fn(i16) -> Option<ErrorView>,
) -> Walk {
    match batch_count(data, position) {
        Err(e) => Walk::Fails(ErrorView::IoUnexpectedError(e.message, e)),
        Ok(count) => if count <= 0 {
            Walk::Read(Seq::empty())
        } else {
            match batch_size(data, position) {
                Err(e) => Walk::Fails(ErrorView::IoUnexpectedError(e.message, e)),
                Ok(size) => walk(
                    data,
                    position + RECORD_BATCH_HEADER_SIZE,
                    position + size,
                    count as nat,
                    fault,
                ),
            }
        },
    }
}

/// Reading records never goes beyond bytes that hold the whole batch.
pub proof fn whole_batch_is_not_beyond(
    data: Seq<u8>,
    place: int,
    end: int,
    n: nat,
    fault: spec_fn(i16) -> Option<ErrorView>,
)
    requires
        end <= data.len(),
    ensures
        !(walk(data, place, end, n, fault) is Beyond),
    decreases n,
{
    if n > 0 && place + VALUE_RECORD_LENGTH_LENGTH <= end && int_at(data, place)
        >= VALUE_RECORD_SCHEMA_ID_LENGTH {
        whole_batch_is_not_beyond(
            data,
            place + VALUE_RECORD_LENGTH_LENGTH + int_at(data, place),
            end,
            (n - 1) as nat,
            fault,
        );
    }
}

/// As many records are read as the batch says it has.
pub proof fn as_many_as_counted(
    data: Seq<u8>,
    place: int,
    end: int,
    n: nat,
    fault: spec_fn(i16) -> Option<ErrorView>,
)
    ensures
        walk(data, place, end, n, fault) matches Walk::Read(records) ==> records.len() == n,
    decreases n,
{
    if n > 0 {
        as_many_as_counted(
            data,
            place + VALUE_RECORD_LENGTH_LENGTH + int_at(data, place),
            end,
            (n - 1) as nat,
            fault,
        );
    }
}

/// The bytes of a value record.
pub open spec fn record_layout(schema_id: i16, value: Seq<u8>) -> Seq<u8> {
    little_endian::le_bytes(
        (VALUE_RECORD_SCHEMA_ID_LENGTH + value.len()) as int,
        VALUE_RECORD_LENGTH_LENGTH as nat,
    ) + little_endian::le_bytes(schema_id as int, VALUE_RECORD_SCHEMA_ID_LENGTH as nat) + value
}

/// The bytes of value records, one after the other.
pub open spec fn records_layout(records: Seq<(i16, Seq<u8>)>) -> Seq<u8>
    decreases records.len(),
{
    if records.len() == 0 {
        Seq::empty()
    } else {
        record_layout(records[0].0, records[0].1) + records_layout(records.drop_first())
    }
}

/// The bytes of a batch of value records.
pub open spec fn batch_layout(magic: u8, records: Seq<(i16, Seq<u8>)>) -> Seq<u8> {
    little_endian::le_bytes(
        RECORD_BATCH_HEADER_SIZE - LENGTH_LENGTH + records_layout(records).len(),
        LENGTH_LENGTH as nat,
    ) + seq![magic] + little_endian::le_bytes(records.len() as int, 4) + records_layout(records)
}

/// The records of a batch with these schema ids and values.
pub open spec fn records_of(records: Seq<(i16, Seq<u8>)>) -> Seq<ValueRecordView> {
    Seq::new(
        records.len(),
        |i: int|
            ValueRecordView {
                schema_id: records[i].0,
                value_bytes: records[i].1,
                size_in_bytes: VALUE_RECORD_VALUE_OFFSET + records[i].1.len(),
            },
    )
}

/// Records with a schema each are read from their bytes, wherever these stand.
proof fn lemma_walk_layout(
    data: Seq<u8>,
    place: int,
    end: int,
    records: Seq<(i16, Seq<u8>)>,
    fault: spec_fn(i16) -> Option<ErrorView>,
)
    requires
        0 <= place,
        end <= data.len(),
        end - place == records_layout(records).len(),
        data.subrange(place, end) == records_layout(records),
        records_layout(records).len() <= i32::MAX,
        forall|i: int| 0 <= i < records.len() ==> fault((#[trigger] records[i]).0) is None,
    ensures
        walk(data, place, end, records.len(), fault) == Walk::Read(records_of(records)),
    decreases records.len(),
{
    if records.len() == 0 {
        assert(records_of(records) =~= Seq::<ValueRecordView>::empty());
    } else {
        let (id, value) = records[0];
        let rest = records.drop_first();
        let length = (VALUE_RECORD_SCHEMA_ID_LENGTH + value.len()) as int;
        let head = little_endian::le_bytes(length, 4);
        let id_bytes = little_endian::le_bytes(id as int, 2);
        let all = records_layout(records);
        let next = place + VALUE_RECORD_VALUE_OFFSET + value.len();
        little_endian::le_bytes_len(length, 4);
        little_endian::le_bytes_len(id as int, 2);
        little_endian::span_values();
        assert(all == record_layout(id, value) + records_layout(rest));
        assert(record_layout(id, value).len() == VALUE_RECORD_VALUE_OFFSET + value.len());
        little_endian::le_signed_of_bytes(length, 4);
        little_endian::le_signed_of_bytes(id as int, 2);
        assert forall|k: int| 0 <= k < all.len() implies data[place + k] == #[trigger] all[k] by {
            assert(data.subrange(place, end)[k] == all[k]);
        }
        assert(data.subrange(place, place + 4) =~= head);
        assert forall|k: int| 0 <= k < 2 implies #[trigger] data.subrange(place + 4, place + 6)[k]
            == id_bytes[k] by {
            assert(all[4 + k] == id_bytes[k]);
        }
        assert(data.subrange(place + 4, place + 6) =~= id_bytes);
        assert forall|k: int| 0 <= k < value.len() implies #[trigger] data.subrange(
            place + 6,
            next,
        )[k] == value[k] by {
            assert(all[6 + k] == value[k]);
        }
        assert(data.subrange(place + 6, next) =~= value);
        let size = VALUE_RECORD_VALUE_OFFSET + value.len();
        assert forall|k: int| 0 <= k < end - next implies #[trigger] data.subrange(next, end)[k]
            == records_layout(rest)[k] by {
            assert(all[size + k] == records_layout(rest)[k]);
        }
        assert(data.subrange(next, end) =~= records_layout(rest));
        lemma_walk_layout(data, next, end, rest, fault);
        let first = ValueRecordView {
            schema_id: id,
            value_bytes: value,
            size_in_bytes: VALUE_RECORD_VALUE_OFFSET + value.len(),
        };
        assert(fault(records[0].0) is None);
        assert(seq![first] + records_of(rest) =~= records_of(records));
    }
}

/// The records of a batch come back from its bytes, wherever these stand.
pub proof fn batch_reads_back(
    before: Seq<u8>,
    magic: u8,
    records: Seq<(i16, Seq<u8>)>,
    after: Seq<u8>,
    fault: spec_fn(i16) -> Option<ErrorView>,
)
    requires
        RECORD_BATCH_HEADER_SIZE - LENGTH_LENGTH + records_layout(records).len() <= i32::MAX,
        forall|i: int| 0 <= i < records.len() ==> fault((#[trigger] records[i]).0) is None,
    ensures
        walk_batch(before + batch_layout(magic, records) + after, before.len() as int, fault)
            == Walk::Read(records_of(records)),
{
    let body = records_layout(records);
    let length = RECORD_BATCH_HEADER_SIZE - LENGTH_LENGTH + body.len();
    let size = little_endian::le_bytes(length, 4);
    let count = little_endian::le_bytes(records.len() as int, 4);
    let data = before + batch_layout(magic, records) + after;
    let start = before.len() as int;
    lemma_no_more_than_bytes(records);
    little_endian::le_bytes_len(length, 4);
    little_endian::le_bytes_len(records.len() as int, 4);
    little_endian::span_values();
    little_endian::le_signed_of_bytes(length, 4);
    little_endian::le_signed_of_bytes(records.len() as int, 4);
    assert(batch_layout(magic, records).len() == RECORD_BATCH_HEADER_SIZE + body.len());
    assert(data.subrange(start, start + 4) =~= size);
    assert(data.subrange(start + 5, start + 9) =~= count);
    assert(data.subrange(start + 9, start + 9 + body.len()) =~= body);
    lemma_walk_layout(data, start + 9, start + 9 + body.len(), records, fault);
    if records.len() == 0 {
        assert(records_of(records) =~= Seq::<ValueRecordView>::empty());
    }
}

/// Records take at least a byte each.
proof fn lemma_no_more_than_bytes(records: Seq<(i16, Seq<u8>)>)
    ensures
        records.len() <= records_layout(records).len(),
    decreases records.len(),
{
    if records.len() > 0 {
        lemma_no_more_than_bytes(records.drop_first());
        little_endian::le_bytes_len(
            (VALUE_RECORD_SCHEMA_ID_LENGTH + records[0].1.len()) as int,
            VALUE_RECORD_LENGTH_LENGTH as nat,
        );
    }
}

fn eof_error(message: &str) -> (r: IoError)
    ensures
        r@ == eof(message@),
{
    IoError { kind: IoErrorKind::UnexpectedEof, message: message.to_owned() }
}

impl DefaultValueRecordBatch {
    /// The bytes that the batch stands in.
    pub closed spec fn data(&self) -> Seq<u8> {
        byte_buffer::contents(self.data)
    }

    /// Where the batch starts.
    pub closed spec fn start(&self) -> int {
        self.position as int
    }

    pub fn new(data: Bytes, position: usize) -> (r: Self)
        ensures
            r.data() == byte_buffer::contents(data),
            r.start() == position,
    {
        DefaultValueRecordBatch { data, position }
    }

    /// The size of the batch, with its length field.
    pub fn size_in_bytes(&self) -> (r: IoResult<usize>)
        ensures
            match r {
                Ok(size) => batch_size(self.data(), self.start()) == Ok::<int, IoErrorView>(
                    size as int,
                ),
                Err(e) => batch_size(self.data(), self.start()) == Err::<int, IoErrorView>(e@),
            },
    {
        let data = as_slice(&self.data);
        if data.len() < LENGTH_LENGTH || data.len() - LENGTH_LENGTH < self.position {
            return Err(eof_error("Not enough bytes to read batch length"));
        }
        let length: i32 = read_i32_at(data, self.position);
        if length < 0 {
            let mut message = "Invalid batch length: ".to_owned();
            message.append(i64_to_text(length as i64).as_str());
            return Err(IoError { kind: IoErrorKind::InvalidData, message });
        }
        Ok(length as usize + LENGTH_LENGTH)
    }

    pub fn magic(&self) -> (r: IoResult<u8>)
        ensures
            io_view(r) == if self.data().len() < self.start() + MAGIC_OFFSET + 1 {
                Err::<u8, IoErrorView>(eof("Not enough bytes to read magic"@))
            } else {
                Ok::<u8, IoErrorView>(self.data()[self.start() + MAGIC_OFFSET])
            },
    {
        let data = as_slice(&self.data);
        if data.len() <= MAGIC_OFFSET || data.len() - MAGIC_OFFSET <= self.position {
            return Err(eof_error("Not enough bytes to read magic"));
        }
        Ok(data[self.position + MAGIC_OFFSET])
    }

    pub fn record_count(&self) -> (r: IoResult<i32>)
        ensures
            match r {
                Ok(count) => batch_count(self.data(), self.start()) == Ok::<int, IoErrorView>(
                    count as int,
                ),
                Err(e) => batch_count(self.data(), self.start()) == Err::<int, IoErrorView>(e@),
            },
    {
        let data = as_slice(&self.data);
        if data.len() < RECORD_BATCH_HEADER_SIZE || data.len() - RECORD_BATCH_HEADER_SIZE
            < self.position {
            return Err(eof_error("Not enough bytes to read record count"));
        }
        Ok(read_i32_at(data, self.position + RECORDS_COUNT_OFFSET))
    }

    /// Whether the bytes hold as much as the batch says it has. Where they do,
    /// the records can be read.
    pub fn is_complete(&self) -> (r: bool)
        ensures
            r == match batch_size(self.data(), self.start()) {
                Ok(size) => self.start() + size <= self.data().len(),
                Err(_) => true,
            },
            r ==> forall|fault: spec_fn(i16) -> Option<ErrorView>|
                !(#[trigger] walk_batch(self.data(), self.start(), fault) is Beyond),
    {
        let len: usize = as_slice(&self.data).len();
        match self.size_in_bytes() {
            Ok(size) => {
                let r = size <= len && self.position <= len - size;
                proof {
                    if r {
                        assert forall|fault: spec_fn(i16) -> Option<ErrorView>|
                            !(#[trigger] walk_batch(self.data(), self.start(), fault)
                                is Beyond) by {
                            if let Ok(count) = batch_count(self.data(), self.start()) {
                                if count > 0 {
                                    whole_batch_is_not_beyond(
                                        self.data(),
                                        self.start() + RECORD_BATCH_HEADER_SIZE,
                                        self.start() + size,
                                        count as nat,
                                        fault,
                                    );
                                }
                            }
                        }
                    }
                }
                r
            },
            Err(_) => true,
        }
    }

    /// Reads the records. Each must have a schema. The bytes must not end before
    /// the records do that the batch says it has.
    pub fn records<G: SchemaGetter>(&self, read_context: &mut ValueRecordReadContext<G>) -> (r:
        Result<Vec<ValueRecord>>)
        requires
            old(read_context).valid(),
            !(walk_batch(self.data(), self.start(), old(read_context).fault()) is Beyond),
        ensures
            final(read_context).valid(),
            final(read_context).same_as(*old(read_context)),
            old(read_context).kept().submap_of(final(read_context).kept()),
            r matches Ok(records) ==> final(read_context).cached() == old(
                read_context,
            ).cached().union(schema_ids(record_views(records@))),
            match r {
                Ok(records) => walk_batch(self.data(), self.start(), old(read_context).fault())
                    == Walk::Read(record_views(records@)),
                Err(e) => walk_batch(self.data(), self.start(), old(read_context).fault())
                    == Walk::Fails(e@),
            },
    {
        match self.read_records(read_context) {
            Ok(records) => Ok(records.unwrap()),
            Err(e) => Err(e),
        }
    }

    /// Reads the records, or finds that the bytes end before the records do that
    /// the batch says it has: then there are none.
    pub fn read_records<G: SchemaGetter>(&self, read_context: &mut ValueRecordReadContext<G>) -> (r:
        Result<Option<Vec<ValueRecord>>>)
        requires
            old(read_context).valid(),
        ensures
            final(read_context).valid(),
            final(read_context).same_as(*old(read_context)),
            old(read_context).kept().submap_of(final(read_context).kept()),
            r matches Ok(Some(records)) ==> final(read_context).cached() == old(
                read_context,
            ).cached().union(schema_ids(record_views(records@))),
            match r {
                Ok(Some(records)) => walk_batch(
                    self.data(),
                    self.start(),
                    old(read_context).fault(),
                ) == Walk::Read(record_views(records@)),
                Ok(None) => walk_batch(self.data(), self.start(), old(read_context).fault())
                    is Beyond,
                Err(e) => walk_batch(self.data(), self.start(), old(read_context).fault())
                    == Walk::Fails(e@),
            },
    {
        let record_count: i32 = match self.record_count() {
            Ok(count) => count,
            Err(e) => {
                return Err(Error::from_io(e));
            },
        };
        let mut records: Vec<ValueRecord> = Vec::new();
        assert(record_views(records@) =~= Seq::<ValueRecordView>::empty());
        assert(read_context.cached() =~= read_context.cached().union(
            schema_ids(record_views(records@)),
        ));
        if record_count <= 0 {
            return Ok(Some(records));
        }
        let size: usize = match self.size_in_bytes() {
            Ok(size) => size,
            Err(e) => {
                return Err(Error::from_io(e));
            },
        };
        let data = as_slice(&self.data);
        assert(self.position + RECORD_BATCH_HEADER_SIZE <= data.len());
        let mut position: usize = self.position + RECORD_BATCH_HEADER_SIZE;
        let end: u128 = self.position as u128 + size as u128;
        let ghost fault = read_context.fault();
        let ghost all = walk_batch(self.data(), self.start(), fault);
        let mut i: i32 = 0;
        assert(walk_on(record_views(records@), all) == all) by {
            if let Walk::Read(rs) = all {
                assert(Seq::<ValueRecordView>::empty() + rs =~= rs);
            }
        }
        while i < record_count
            invariant
                0 <= i <= record_count,
                data@ == self.data(),
                position <= data@.len(),
                read_context.valid(),
                read_context.same_as(*old(read_context)),
                old(read_context).kept().submap_of(read_context.kept()),
                read_context.cached() == old(read_context).cached().union(
                    schema_ids(record_views(records@)),
                ),
                fault == old(read_context).fault(),
                all == walk_batch(self.data(), self.start(), fault),
                all == walk_on(
                    record_views(records@),
                    walk(data@, position as int, end as int, (record_count - i) as nat, fault),
                ),
            decreases record_count - i,
        {
            let ghost n = (record_count - i) as nat;
            let ghost here = position as int;
            let ghost before = records@;
            if position as u128 + VALUE_RECORD_LENGTH_LENGTH as u128 > end {
                return Err(
                    Error::io_unexpected(
                        "Not enough bytes to read value record length",
                        IoErrorKind::UnexpectedEof,
                        "value record length",
                    ),
                );
            }
            if data.len() - position < VALUE_RECORD_LENGTH_LENGTH {
                return Ok(None);
            }
            let size_without_length: i32 = read_i32_at(data, position);
            if size_without_length < VALUE_RECORD_SCHEMA_ID_LENGTH as i32 {
                let mut message = "Invalid value record length: ".to_owned();
                message.append(i64_to_text(size_without_length as i64).as_str());
                return Err(
                    Error::io_unexpected(
                        message,
                        IoErrorKind::InvalidData,
                        "value record length",
                    ),
                );
            }
            let record_size: u128 = size_without_length as u128
                + VALUE_RECORD_LENGTH_LENGTH as u128;
            if position as u128 + record_size > end {
                return Err(
                    Error::io_unexpected(
                        "Not enough bytes to read value record",
                        IoErrorKind::UnexpectedEof,
                        "value record",
                    ),
                );
            }
            if record_size > (data.len() - position) as u128 {
                return Ok(None);
            }
            let record_end: usize = position + record_size as usize;
            let schema_id: i16 = read_i16_at(data, position + VALUE_RECORD_LENGTH_LENGTH);
            let value_bytes = slice(&self.data, position + VALUE_RECORD_VALUE_OFFSET, record_end);
            match read_context.get_row_decoder(schema_id) {
                Ok(_) => {},
                Err(e) => {
                    return Err(e);
                },
            }
            records.push(
                ValueRecord { schema_id, value_bytes, size_in_bytes: record_size as usize },
            );
            proof {
                let record = records@.last()@;
                assert(record_views(records@) =~= record_views(before).push(record));
                lemma_more_ids(record_views(before), record);
                assert(read_context.cached() =~= old(read_context).cached().union(
                    schema_ids(record_views(records@)),
                ));
                let rest = walk(data@, record_end as int, end as int, (n - 1) as nat, fault);
                if let Walk::Read(rs) = rest {
                    assert(record_views(before) + (seq![record] + rs) =~= record_views(before).push(
                        record,
                    ) + rs);
                }
            }
            position = record_end;
            i = i + 1;
        }
        assert(record_views(records@) + Seq::<ValueRecordView>::empty() =~= record_views(records@));
        Ok(Some(records))
    }
}

/// The ids of the schemas of records.
pub open spec fn schema_ids(records: Seq<ValueRecordView>) -> Set<i16> {
    Set::new(
        |id: i16|
            exists|i: int| 0 <= i < records.len() && (#[trigger] records[i]).schema_id == id,
    )
}

proof fn lemma_more_ids(records: Seq<ValueRecordView>, record: ValueRecordView)
    ensures
        schema_ids(records.push(record)) == schema_ids(records).insert(record.schema_id),
{
    let all = records.push(record);
    assert forall|id: i16|
        schema_ids(all).contains(id) == schema_ids(records).insert(record.schema_id).contains(id) by {
        if schema_ids(records).contains(id) {
            let i = choose|i: int|
                0 <= i < records.len() && (#[trigger] records[i]).schema_id == id;
            assert(all[i].schema_id == id);
        }
        if id == record.schema_id {
            assert(all[records.len() as int].schema_id == id);
        }
        if schema_ids(all).contains(id) && id != record.schema_id {
            let i = choose|i: int| 0 <= i < all.len() && (#[trigger] all[i]).schema_id == id;
            assert(records[i].schema_id == id);
        }
    }
    assert(schema_ids(all) =~= schema_ids(records).insert(record.schema_id));
}

/// What reading comes to behind records that were read.
spec fn walk_on(before: Seq<ValueRecordView>, rest: Walk) -> Walk {
    match rest {
        Walk::Read(records) => Walk::Read(before + records),
        other => other,
    }
}

/// Finds the decoders of rows by the ids of their schemas, and keeps them.
pub struct ValueRecordReadContext<G: SchemaGetter> {
    kv_format: KvFormat,
    schema_getter: Arc<G>,
    row_decoder_cache: HashMap<i16, Arc<CompactedRowDecoder>>,
}

impl<G: SchemaGetter> ValueRecordReadContext<G> {
    /// The row type of the rows of a schema, or why they have no decoder.
    pub closed spec fn decoder_of(&self, schema_id: i16) -> core::result::Result<
        RowView,
        ErrorView,
    > {
        match self.schema_getter.schema_of(schema_id) {
            Err(e) => Err(e),
            Ok(schema) => row_decoder::decoder_for(self.kv_format, schema.row_type),
        }
    }

    /// Why the rows of a schema have no decoder, if they have none.
    pub open spec fn fault(&self) -> spec_fn(i16) -> Option<ErrorView> {
        |schema_id: i16|
            match self.decoder_of(schema_id) {
                Ok(_) => None,
                Err(e) => Some(e),
            }
    }

    /// Whether what is kept is what would be found.
    pub closed spec fn valid(&self) -> bool {
        forall|id: i16|
            self.row_decoder_cache@.contains_key(id) ==> self.decoder_of(id) == Ok::<
                RowView,
                ErrorView,
            >((*#[trigger] self.row_decoder_cache@[id])@)
    }

    /// The decoders that are kept, by the ids of their schemas.
    pub closed spec fn kept(&self) -> Map<i16, Arc<CompactedRowDecoder>> {
        self.row_decoder_cache@
    }

    /// The ids of the schemas whose decoders are kept.
    pub open spec fn cached(&self) -> Set<i16> {
        self.kept().dom()
    }

    /// Whether asking for the decoder of a schema takes a context from `before`
    /// to this one and gives `result`: a decoder that is kept comes back and stays,
    /// one that is found is kept, and a failure keeps nothing.
    pub open spec fn gave_decoder(
        &self,
        before: ValueRecordReadContext<G>,
        schema_id: i16,
        result: core::result::Result<Arc<CompactedRowDecoder>, ErrorView>,
    ) -> bool {
        &&& self.valid()
        &&& self.same_as(before)
        &&& match result {
            Ok(decoder) => {
                &&& before.decoder_of(schema_id) == Ok::<RowView, ErrorView>((*decoder)@)
                &&& before.kept().contains_key(schema_id) ==> before.kept()[schema_id] == decoder
                &&& self.kept() == before.kept().insert(schema_id, decoder)
                &&& self.cached() == before.cached().insert(schema_id)
            },
            Err(e) => {
                &&& before.decoder_of(schema_id) == Err::<RowView, ErrorView>(e)
                &&& !before.kept().contains_key(schema_id)
                &&& self.kept() == before.kept()
            },
        }
    }

    /// Whether two contexts find the same decoders.
    pub open spec fn same_as(&self, other: ValueRecordReadContext<G>) -> bool {
        forall|id: i16| #[trigger] self.decoder_of(id) == other.decoder_of(id)
    }

    pub fn new(kv_format: KvFormat, schema_getter: Arc<G>) -> (r: Self)
        ensures
            r.valid(),
            r.kept() == Map::<i16, Arc<CompactedRowDecoder>>::empty(),
            forall|id: i16| #[trigger]
                r.decoder_of(id) == match schema_getter.schema_of(id) {
                    Err(e) => Err(e),
                    Ok(schema) => row_decoder::decoder_for(kv_format, schema.row_type),
                },
    {
        broadcast use vstd::std_specs::hash::group_hash_axioms;

        ValueRecordReadContext { kv_format, schema_getter, row_decoder_cache: HashMap::new() }
    }

    /// The decoder for the rows of a schema.
    pub fn get_row_decoder(&mut self, schema_id: i16) -> (r: Result<Arc<CompactedRowDecoder>>)
        requires
            old(self).valid(),
        ensures
            final(self).gave_decoder(*old(self), schema_id, error::err_view(r)),
    {
        broadcast use vstd::std_specs::hash::group_hash_axioms;

        match self.row_decoder_cache.get(&schema_id) {
            Some(decoder) => {
                assert(self.kept() =~= self.kept().insert(schema_id, *decoder));
                return Ok(decoder.clone());
            },
            None => {},
        }
        let schema = match self.schema_getter.get_schema(schema_id) {
            Ok(schema) => schema,
            Err(e) => {
                return Err(e);
            },
        };
        let row_type = schema.row_type().clone();
        match RowDecoderFactory::create(self.kv_format, row_type) {
            Ok(decoder) => {
                self.row_decoder_cache.insert(schema_id, decoder.clone());
                Ok(decoder)
            },
            Err(e) => Err(e),
        }
    }
}

/// Whether a context went through `contexts` as it was asked for the decoders of
/// `ids` one by one.
pub open spec fn gave_decoders<G: SchemaGetter>(
    contexts: Seq<ValueRecordReadContext<G>>,
    ids: Seq<i16>,
    results: Seq<core::result::Result<Arc<CompactedRowDecoder>, ErrorView>>,
) -> bool {
    &&& contexts.len() == ids.len() + 1
    &&& results.len() == ids.len()
    &&& forall|i: int|
        0 <= i < ids.len() ==> (#[trigger] contexts[i + 1]).gave_decoder(
            contexts[i],
            ids[i],
            results[i],
        )
}

/// A decoder that was given once is given every later time that its schema is
/// asked for, whatever was asked for in between. A schema without a decoder is
/// asked for anew each time, and fails each time.
pub proof fn decoders_are_kept<G: SchemaGetter>(
    contexts: Seq<ValueRecordReadContext<G>>,
    ids: Seq<i16>,
    results: Seq<core::result::Result<Arc<CompactedRowDecoder>, ErrorView>>,
    first: int,
    later: int,
)
    requires
        gave_decoders(contexts, ids, results),
        0 <= first < later < ids.len(),
        ids[first] == ids[later],
    ensures
        results[later] == results[first],
        results[first] is Ok ==> contexts[later].cached().contains(ids[first])
            && contexts[later + 1].kept() == contexts[later].kept(),
        results[first] is Err ==> !contexts[later].cached().contains(ids[first]),
{
    assert(contexts[first + 1].gave_decoder(contexts[first], ids[first], results[first]));
    assert(contexts[later + 1].gave_decoder(contexts[later], ids[later], results[later]));
    lemma_kept_between(contexts, ids, results, first + 1, later);
    lemma_kept_between(contexts, ids, results, first, later);
    let id = ids[first];
    assert(contexts[later].decoder_of(id) == contexts[first].decoder_of(id));
    if let Ok(decoder) = results[first] {
        assert(contexts[first + 1].kept().contains_key(id));
        assert(contexts[first + 1].kept().dom().contains(id));
        assert(contexts[later].kept().dom().contains(id));
        assert(contexts[later].kept()[id] == decoder);
        assert(contexts[later + 1].kept() =~= contexts[later].kept());
    }
}

proof fn lemma_kept_between<G: SchemaGetter>(
    contexts: Seq<ValueRecordReadContext<G>>,
    ids: Seq<i16>,
    results: Seq<core::result::Result<Arc<CompactedRowDecoder>, ErrorView>>,
    from: int,
    to: int,
)
    requires
        gave_decoders(contexts, ids, results),
        0 <= from <= to <= ids.len(),
    ensures
        contexts[to].same_as(contexts[from]),
        contexts[from].kept().submap_of(contexts[to].kept()),
    decreases to - from,
{
    if from < to {
        lemma_kept_between(contexts, ids, results, from, to - 1);
        assert(contexts[to - 1 + 1].gave_decoder(contexts[to - 1], ids[to - 1], results[to - 1]));
        assert forall|id: i16| #[trigger]
            contexts[to].decoder_of(id) == contexts[from].decoder_of(id) by {
            assert(contexts[to].decoder_of(id) == contexts[to - 1].decoder_of(id));
            assert(contexts[to - 1].decoder_of(id) == contexts[from].decoder_of(id));
        }
    }
}

/// How a batch lies in bytes: four bytes that say how many follow, a byte of magic,
/// four bytes that say how many records there are, and the records one after the
/// other; each of them four bytes that say how many follow, two bytes of schema id
/// and the value. Numbers have their lowest byte first.
pub proof fn batches_are_framed(
    magic: u8,
    records: Seq<(i16, Seq<u8>)>,
    more: Seq<(i16, Seq<u8>)>,
    schema_id: i16,
    value: Seq<u8>,
)
    requires
        5 + records_layout(records).len() <= i32::MAX,
        2 + value.len() <= i32::MAX,
    ensures
        ({
            let batch = batch_layout(magic, records);
            let body = records_layout(records);
            &&& batch.len() == 9 + body.len()
            &&& little_endian::le_value(batch.take(4)) == batch.len() - 4
            &&& batch[4] == magic
            &&& little_endian::le_value(batch.subrange(5, 9)) == records.len()
            &&& batch.skip(9) == body
        }),
        ({
            let record = record_layout(schema_id, value);
            &&& record.len() == 6 + value.len()
            &&& little_endian::le_value(record.take(4)) == record.len() - 4
            &&& little_endian::le_signed(record.subrange(4, 6)) == schema_id
            &&& record.skip(6) == value
            &&& records_layout(seq![(schema_id, value)]) == record
        }),
        records_layout(records + more) == records_layout(records) + records_layout(more),
{
    let body = records_layout(records);
    let batch = batch_layout(magic, records);
    let length = 5 + body.len();
    lemma_no_more_than_bytes(records);
    little_endian::span_values();
    little_endian::le_bytes_len(length as int, 4);
    little_endian::le_bytes_len(records.len() as int, 4);
    little_endian::le_value_of_bytes(length as int, 4);
    little_endian::le_value_of_bytes(records.len() as int, 4);
    assert(batch.take(4) =~= little_endian::le_bytes(length as int, 4));
    assert(batch.subrange(5, 9) =~= little_endian::le_bytes(records.len() as int, 4));
    assert(batch.skip(9) =~= body);
    let record = record_layout(schema_id, value);
    let size = 2 + value.len();
    little_endian::le_bytes_len(size as int, 4);
    little_endian::le_bytes_len(schema_id as int, 2);
    little_endian::le_value_of_bytes(size as int, 4);
    little_endian::le_signed_of_bytes(schema_id as int, 2);
    assert(record.take(4) =~= little_endian::le_bytes(size as int, 4));
    assert(record.subrange(4, 6) =~= little_endian::le_bytes(schema_id as int, 2));
    assert(record.skip(6) =~= value);
    let one = seq![(schema_id, value)];
    assert(one.drop_first() =~= Seq::<(i16, Seq<u8>)>::empty());
    assert(records_layout(one.drop_first()) =~= Seq::<u8>::empty());
    assert(record + Seq::<u8>::empty() =~= record);
    lemma_layout_of_more(records, more);
}

proof fn lemma_layout_of_more(records: Seq<(i16, Seq<u8>)>, more: Seq<(i16, Seq<u8>)>)
    ensures
        records_layout(records + more) == records_layout(records) + records_layout(more),
    decreases records.len(),
{
    if records.len() == 0 {
        assert(records + more =~= more);
        assert(records_layout(records) + records_layout(more) =~= records_layout(more));
    } else {
        let rest = records.drop_first();
        lemma_layout_of_more(rest, more);
        assert((records + more).drop_first() =~= rest + more);
        assert((records + more)[0] == records[0]);
        let first = record_layout(records[0].0, records[0].1);
        assert(first + (records_layout(rest) + records_layout(more)) =~= first + records_layout(
            rest,
        ) + records_layout(more));
    }
}

/// Records that were read, by schema id and value.
pub open spec fn pairs_of(records: Seq<ValueRecordView>) -> Seq<(i16, Seq<u8>)> {
    Seq::new(records.len(), |i: int| (records[i].schema_id, records[i].value_bytes))
}

/// What is read as records stands there as records: from the place on, the bytes
/// are those of the records that come out, within the end that was given. Each has
/// a schema.
pub proof fn records_read_are_there(
    data: Seq<u8>,
    place: int,
    end: int,
    n: nat,
    fault: spec_fn(i16) -> Option<ErrorView>,
    records: Seq<ValueRecordView>,
)
    requires
        0 <= place,
        walk(data, place, end, n, fault) == Walk::Read(records),
    ensures
        ({
            let bytes = records_layout(pairs_of(records));
            &&& records.len() == n
            &&& n > 0 ==> place + bytes.len() <= end
            &&& n > 0 ==> place + bytes.len() <= data.len()
            &&& n > 0 ==> data.subrange(place, place + bytes.len()) == bytes
            &&& forall|i: int|
                0 <= i < n ==> fault((#[trigger] records[i]).schema_id) is None
                    && records[i].size_in_bytes == 6 + records[i].value_bytes.len()
        }),
    decreases n,
{
    if n > 0 {
        let length = int_at(data, place);
        let next = place + 4 + length;
        let first = records[0];
        let rest = records.drop_first();
        let walked = walk(data, next, end, (n - 1) as nat, fault);
        assert(walked is Read);
        assert(records =~= seq![first] + walked->Read_0);
        assert(rest =~= walked->Read_0);
        records_read_are_there(data, next, end, (n - 1) as nat, fault, rest);
        let head = data.subrange(place, place + 4);
        let id = data.subrange(place + 4, place + 6);
        little_endian::twos_complement(head);
        little_endian::twos_complement(id);
        little_endian::span_values();
        assert(first.schema_id == little_endian::le_signed(id));
        let record = record_layout(first.schema_id, first.value_bytes);
        little_endian::le_bytes_len(length, 4);
        assert(record =~= data.subrange(place, next));
        let pairs = pairs_of(records);
        assert(pairs.drop_first() =~= pairs_of(rest));
        let bytes = records_layout(pairs);
        assert(bytes == record + records_layout(pairs_of(rest)));
        if n == 1 {
            assert(pairs_of(rest) =~= Seq::<(i16, Seq<u8>)>::empty());
            assert(bytes =~= record);
        } else {
            let tail = records_layout(pairs_of(rest));
            assert(data.subrange(place, place + bytes.len()) =~= record + data.subrange(
                next,
                next + tail.len(),
            ));
        }
        assert forall|i: int| 0 <= i < n implies fault((#[trigger] records[i]).schema_id) is None
            && records[i].size_in_bytes == 6 + records[i].value_bytes.len() by {
            if i > 0 {
                assert(records[i] == rest[i - 1]);
            }
        }
    }
}

/// The header of a batch says its size and the number of its records where it is
/// there as a whole; a size cannot be negative. A batch that counts no records, or
/// fewer than none, has none.
pub proof fn headers_say_size_and_count(
    before: Seq<u8>,
    header: Seq<u8>,
    after: Seq<u8>,
    fault: spec_fn(i16) -> Option<ErrorView>,
)
    requires
        header.len() == 9,
    ensures
        ({
            let data = before + header + after;
            let place = before.len() as int;
            let length = little_endian::le_signed(header.take(4));
            let count = little_endian::le_signed(header.skip(5));
            &&& length >= 0 ==> batch_size(data, place) == Ok::<int, IoErrorView>(length + 4)
            &&& length < 0 ==> (batch_size(data, place) matches Err(e) && e.kind
                == IoErrorKind::InvalidData)
            &&& batch_count(data, place) == Ok::<int, IoErrorView>(count)
            &&& count <= 0 ==> walk_batch(data, place, fault) == Walk::Read(Seq::empty())
        }),
        forall|n: int|
            0 <= n < 9 ==> ((#[trigger] batch_count(before + header.take(n), before.len() as int))
                matches Err(e) && e.kind == IoErrorKind::UnexpectedEof),
        forall|n: int|
            0 <= n < 4 ==> ((#[trigger] batch_size(before + header.take(n), before.len() as int))
                matches Err(e) && e.kind == IoErrorKind::UnexpectedEof),
{
    let data = before + header + after;
    let place = before.len() as int;
    assert(data.subrange(place, place + 4) =~= header.take(4));
    assert(data.subrange(place + 5, place + 9) =~= header.skip(5));
}

/// A batch whose first record has no schema fails for that reason.
pub proof fn first_record_is_met(
    magic: u8,
    records: Seq<(i16, Seq<u8>)>,
    after: Seq<u8>,
    fault: spec_fn(i16) -> Option<ErrorView>,
)
    requires
        records.len() > 0,
        5 + records_layout(records).len() <= i32::MAX,
        fault(records[0].0) is Some,
    ensures
        walk_batch(batch_layout(magic, records) + after, 0, fault) == Walk::Fails(
            fault(records[0].0)->0,
        ),
{
    let id = records[0].0;
    let value = records[0].1;
    let body = records_layout(records);
    let batch = batch_layout(magic, records);
    let data = batch + after;
    let length = 5 + body.len();
    lemma_no_more_than_bytes(records);
    little_endian::span_values();
    little_endian::le_bytes_len(length as int, 4);
    little_endian::le_bytes_len(records.len() as int, 4);
    little_endian::le_signed_of_bytes(length as int, 4);
    little_endian::le_signed_of_bytes(records.len() as int, 4);
    let record = record_layout(id, value);
    let size = 2 + value.len();
    assert(body == record + records_layout(records.drop_first()));
    little_endian::le_bytes_len(size as int, 4);
    little_endian::le_bytes_len(id as int, 2);
    little_endian::le_signed_of_bytes(size as int, 4);
    little_endian::le_signed_of_bytes(id as int, 2);
    assert(data.subrange(0, 4) =~= little_endian::le_bytes(length as int, 4));
    assert(data.subrange(5, 9) =~= little_endian::le_bytes(records.len() as int, 4));
    assert forall|k: int| 0 <= k < record.len() implies data[9 + k] == #[trigger] record[k] by {
        assert(body[k] == record[k]);
        assert(batch[9 + k] == body[k]);
    }
    assert(data.subrange(9, 13) =~= little_endian::le_bytes(size as int, 4)) by {
        assert forall|k: int| 0 <= k < 4 implies #[trigger] data.subrange(9, 13)[k]
            == little_endian::le_bytes(size as int, 4)[k] by {
            assert(data[9 + k] == record[k]);
        }
    }
    assert(data.subrange(13, 15) =~= little_endian::le_bytes(id as int, 2)) by {
        assert forall|k: int| 0 <= k < 2 implies #[trigger] data.subrange(13, 15)[k]
            == little_endian::le_bytes(id as int, 2)[k] by {
            assert(data[9 + (4 + k)] == record[4 + k]);
        }
    }
}

} // verus!
