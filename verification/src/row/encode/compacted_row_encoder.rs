//! Row encoder in the compacted format.

use bytes::Bytes;
use vstd::prelude::*;

use crate::error::{Error, ErrorView, Result};
use crate::metadata::datatype::{RowType, RowView};
use crate::row::binary::binary_writer::{BinaryWriter, WriterState};
use crate::row::compacted::compacted_row::{self, row_fields};
use crate::row::compacted::compacted_row_writer::{self, CompactedRowWriter};
use crate::row::datum::Datum;
use crate::row::encode::{self, RowEncoder};
use crate::row::field_kind::ValueWriter;
use crate::text::{concat3, u64_to_text};

verus! {

/// Encodes rows in the compacted format.
pub struct CompactedRowEncoder {
    field_encoders: Vec<ValueWriter>,
    writer: CompactedRowWriter,
}

/// Whether a result is an encoder for rows of a type: there is one where every
/// field of the type has a kind.
pub open spec fn is_encoder_for(r: Result<CompactedRowEncoder>, row_type: RowView) -> bool {
    match compacted_row::fields_of(row_type) {
        Some(fields) => {
            &&& r matches Ok(encoder)
            &&& encoder.valid()
            &&& encoder.fields() == fields
            &&& encoder.pending() == compacted_row::written_fields(fields, Seq::empty(), 0)
        },
        None => r matches Err(e) && e@ == ErrorView::UnsupportedOperation(
            "Row type is not supported in compacted rows"@,
        ),
    }
}

impl CompactedRowEncoder {
    pub fn new(row_type: RowType) -> (r: Result<Self>)
        ensures
            is_encoder_for(r, row_type@),
    {
        match row_fields(&row_type) {
            Some(field_encoders) => {
                let writer = CompactedRowWriter::new(field_encoders.len());
                Ok(CompactedRowEncoder { field_encoders, writer })
            },
            None => Err(Error::unsupported("Row type is not supported in compacted rows")),
        }
    }
}

impl RowEncoder for CompactedRowEncoder {
    closed spec fn valid(&self) -> bool {
        &&& self.writer.valid()
        &&& self.writer.start() == compacted_row::written_fields(
            self.field_encoders@,
            Seq::empty(),
            0,
        )
    }

    closed spec fn fields(&self) -> Seq<ValueWriter> {
        self.field_encoders@
    }

    closed spec fn pending(&self) -> Seq<u8> {
        self.writer.written()
    }

    fn start_new_row(&mut self) -> (r: Result<()>) {
        self.writer.reset();
        Ok(())
    }

    fn encode_field(&mut self, pos: usize, value: Datum) -> (r: Result<()>) {
        if pos >= self.field_encoders.len() {
            let shown = value.to_debug_string();
            let mut message = concat3(
                "invalid position ",
                u64_to_text(pos as u64).as_str(),
                " when attempting to encode value ",
            );
            message.append(shown.as_str());
            return Err(Error::illegal_argument(message));
        }
        let field = self.field_encoders[pos];
        assert(pos as int / 8 < compacted_row_writer::header_size(
            self.field_encoders@.len() as int,
        ));
        field.write_value(&mut self.writer, pos, &value)
    }

    fn finish_row(&mut self) -> (r: Result<Bytes>) {
        self.writer.complete();
        Ok(self.writer.to_bytes())
    }

    fn close(&mut self) -> (r: Result<()>) {
        Ok(())
    }
}

} // verus!
