//! The compacted row format: a bit for each field that is null, then the values
//! of the other fields, numbers as short as they can be and anything of varying
//! length after its length.

pub mod compacted_row;
pub mod compacted_row_writer;
pub mod varint;
