//! Writing values as bytes.

pub mod binary_writer;
pub mod iceberg_binary_row_writer;
