//! Records that scans return.

pub mod change_type;
pub mod kv;
pub mod record_batch;
pub mod scan_record;
pub mod value_record_batch;

pub use change_type::ChangeType;
pub use record_batch::{ColumnarRow, RecordBatch};
pub use scan_record::{ScanBatch, ScanRecord, ScanRecords};
pub use value_record_batch::{DefaultValueRecordBatch, ValueRecord, ValueRecordReadContext};
