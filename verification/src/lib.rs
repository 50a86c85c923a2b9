//! Client-side core of the Fluss streaming storage: table metadata, key
//! encodings, record batches and lookup planning.

pub mod byte_buffer;
pub mod client;
pub mod compression;
pub mod error;
pub mod little_endian;
pub mod metadata;
pub mod name_list;
pub mod property_map;
pub mod record;
pub mod row;
pub mod rpc;
pub mod text;
