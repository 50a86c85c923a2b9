//! Key decoders (binary primary key → row).

pub mod iceberg_key_decoder;

use vstd::prelude::*;

use crate::error::{Error, ErrorView, Result};
use crate::metadata::datatype::{RowType, RowView};
use crate::metadata::formats::DataLakeFormat;
use crate::row::datum::DatumView;
use crate::row::decode::iceberg_key_decoder::IcebergKeyDecoder;
use crate::row::encode::iceberg_key_encoder;
use crate::row::generic_row::GenericRow;
use crate::row::internal_row;
use crate::text;

verus! {

/// Decode primary key bytes to a one-column [`GenericRow`] holding the key fields.
pub trait KeyDecoder: Send + Sync {
    /// The row that key bytes hold, or why they hold none.
    spec fn row_of(&self, key_bytes: Seq<u8>) -> core::result::Result<Seq<DatumView>, ErrorView>;

    fn decode_key(&self, key_bytes: &[u8]) -> (r: Result<GenericRow<'static>>)
        ensures
            internal_row::result_view(r) == self.row_of(key_bytes@),
    ;
}

/// Factory for [`KeyDecoder`] implementations.
pub struct KeyDecoderFactory;

/// Whether a decoder decodes keys as one for the columns `keys` of a row type.
pub open spec fn decodes<D: KeyDecoder + ?Sized>(
    decoder: &D,
    row_type: RowView,
    keys: Seq<Seq<char>>,
) -> bool {
    let place = iceberg_key_encoder::key_place(row_type, keys);
    &&& place is Some
    &&& iceberg_key_decoder::reader_of(row_type.fields[place->0].data_type) is Some
    &&& forall|bytes: Seq<u8>| #[trigger]
        decoder.row_of(bytes) == iceberg_key_decoder::decoded_row(
            iceberg_key_decoder::reader_of(row_type.fields[place->0].data_type)->0,
            bytes,
        )
}

impl KeyDecoderFactory {
    /// Create a decoder for the given primary key field names and lake format.
    pub fn of(
        row_type: &RowType,
        key_fields: &[String],
        data_lake_format: &Option<DataLakeFormat>,
    ) -> (r: Result<Box<dyn KeyDecoder + 'static>>)
        ensures
            match data_lake_format {
                Some(DataLakeFormat::Iceberg) => match r {
                    Ok(decoder) => decodes(&*decoder, row_type@, text::names(key_fields@)),
                    Err(e) => iceberg_key_decoder::refuses_key(
                        e@,
                        row_type@,
                        text::names(key_fields@),
                    ),
                },
                Some(DataLakeFormat::Paimon) => r is Err && r->Err_0@
                    == ErrorView::UnsupportedOperation(
                    "KeyDecoder for Paimon format is not yet implemented"@,
                ),
                _ => r is Err && r->Err_0@ == ErrorView::UnsupportedOperation(
                    "KeyDecoder for non-Iceberg formats is not yet implemented"@,
                ),
            },
    {
        match data_lake_format {
            Some(DataLakeFormat::Iceberg) => match IcebergKeyDecoder::new(row_type, key_fields) {
                Ok(decoder) => Ok(Box::new(decoder)),
                Err(e) => Err(e),
            },
            Some(DataLakeFormat::Paimon) => Err(
                Error::unsupported("KeyDecoder for Paimon format is not yet implemented"),
            ),
            _ => Err(
                Error::unsupported("KeyDecoder for non-Iceberg formats is not yet implemented"),
            ),
        }
    }
}

} // verus!
