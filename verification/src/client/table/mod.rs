//! Lookups in tables and scans of them.

pub mod prefix_lookup;
pub mod lookup_result;
pub mod schema_ctx;
pub mod bucket_lookup;
pub mod lookup;
pub mod kv_scanner;
