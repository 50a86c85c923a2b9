//! Decoders of rows.

use std::sync::Arc;

use vstd::prelude::*;

use crate::error::{Error, ErrorView, Result};
use crate::metadata::datatype::{RowType, RowView};
use crate::metadata::formats::KvFormat;
use crate::row::compacted::compacted_row::{self, CompactedRow};
use crate::row::internal_row::InternalRow;

verus! {

/// Decodes rows of a type in the compacted format.
#[derive(Debug)]
pub struct CompactedRowDecoder {
    row_type: RowType,
}

impl View for CompactedRowDecoder {
    type V = RowView;

    closed spec fn view(&self) -> RowView {
        self.row_type@
    }
}

impl CompactedRowDecoder {
    pub fn new(row_type: RowType) -> (r: Self)
        ensures
            r@ == row_type@,
    {
        CompactedRowDecoder { row_type }
    }

    pub fn decode<'a>(&self, bytes: &'a [u8]) -> (r: CompactedRow<'a>)
        ensures
            r.bytes() == bytes@,
            r.values_view() == compacted_row::row_values(self@, bytes@),
            r.row() == compacted_row::readable_row(self@, bytes@),
    {
        CompactedRow::from_bytes(&self.row_type, bytes)
    }
}

/// The row type that rows of a format are decoded with, or why they are not.
pub open spec fn decoder_for(kv_format: KvFormat, row_type: RowView) -> core::result::Result<
    RowView,
    ErrorView,
> {
    match kv_format {
        KvFormat::COMPACTED => Ok(row_type),
        KvFormat::INDEXED => Err(
            ErrorView::UnsupportedOperation("RowDecoder for INDEXED format is not yet implemented"@),
        ),
    }
}

pub struct RowDecoderFactory;

impl RowDecoderFactory {
    pub fn create(kv_format: KvFormat, row_type: RowType) -> (r: Result<Arc<CompactedRowDecoder>>)
        ensures
            match r {
                Ok(decoder) => decoder_for(kv_format, row_type@) == Ok::<RowView, ErrorView>(
                    (*decoder)@,
                ),
                Err(e) => decoder_for(kv_format, row_type@) == Err::<RowView, ErrorView>(e@),
            },
    {
        match kv_format {
            KvFormat::COMPACTED => Ok(Arc::new(CompactedRowDecoder::new(row_type))),
            KvFormat::INDEXED => Err(
                Error::unsupported("RowDecoder for INDEXED format is not yet implemented"),
            ),
        }
    }
}

/// Rows can be decoded in the compacted format alone, as rows of their own type.
pub proof fn compacted_rows_are_decoded(kv_format: KvFormat, row_type: RowView)
    ensures
        decoder_for(kv_format, row_type) is Ok <==> kv_format == KvFormat::COMPACTED,
        decoder_for(kv_format, row_type) matches Ok(t) ==> t == row_type,
        decoder_for(kv_format, row_type) matches Err(e) ==> e is UnsupportedOperation,
{
}

} // verus!
