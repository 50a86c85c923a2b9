//! Rows and how they are written as bytes.

pub mod decimal;
pub mod datum;
pub mod datum_text;
pub mod generic_row;
pub mod internal_row;
pub mod binary;
pub mod field_kind;
pub mod encode;
pub mod decode;
pub mod compacted;
pub mod row_decoder;
pub mod fixed_schema_decoder;
pub mod lookup_row;
pub mod binary_row;

pub use binary_row::{BinaryDataWrapper, BinaryRow};
pub use compacted::compacted_row::CompactedRow;
pub use datum::{Date, Datum, FlussArray, Time, TimestampLtz, TimestampNtz};
pub use decimal::{Decimal, MAX_COMPACT_PRECISION};
pub use decode::iceberg_key_decoder::IcebergKeyDecoder;
pub use decode::{KeyDecoder, KeyDecoderFactory};
pub use encode::iceberg_key_encoder::IcebergKeyEncoder;
pub use encode::KeyEncoder;
pub use fixed_schema_decoder::FixedSchemaDecoder;
pub use generic_row::GenericRow;
pub use internal_row::InternalRow;
pub use lookup_row::LookupRow;
pub use row_decoder::{CompactedRowDecoder, RowDecoderFactory};
