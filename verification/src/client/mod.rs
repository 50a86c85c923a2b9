//! Reading tables.

pub mod table;

pub use table::kv_scanner::{KvBatchScanner, KvScanBatch};
pub use table::lookup::{Lookuper, PrefixKeyLookuper, TableLookup, TablePrefixLookup};
pub use table::lookup_result::{DecoderCache, LookupResult};
