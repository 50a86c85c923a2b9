//! What requests and responses have in common, and the messages of a limit scan.

use vstd::prelude::*;

use crate::metadata::bucket::{BucketId, PartitionId, TableId};
use crate::rpc::api_key::ApiKey;

verus! {

/// The version of a message.
pub type ApiVersion = i16;

/// Why a message could not be written.
#[derive(Debug, Clone, PartialEq, Eq)]
pub struct WriteError {
    pub message: String,
}

/// Why a message could not be read.
#[derive(Debug, Clone, PartialEq, Eq)]
pub struct ReadError {
    pub message: String,
}

/// The body of a request.
pub trait RequestBody {
    type ResponseBody;

    const API_KEY: ApiKey;

    const REQUEST_VERSION: ApiVersion;
}

/// A message that can be written in a version.
pub trait WriteVersionedType<W>: Sized {
    fn write_versioned(&self, writer: &mut W, version: ApiVersion) -> core::result::Result<
        (),
        WriteError,
    >;
}

/// A message that can be read in a version.
pub trait ReadVersionedType<R>: Sized {
    fn read_versioned(reader: &mut R, version: ApiVersion) -> core::result::Result<
        Self,
        ReadError,
    >;
}

/// Asks for some rows of a bucket.
#[derive(Debug, Clone, Copy, PartialEq, Eq)]
pub struct LimitScanRequest {
    pub table_id: TableId,
    pub partition_id: Option<PartitionId>,
    pub bucket_id: BucketId,
    pub limit: i32,
}

impl LimitScanRequest {
    pub fn new(
        table_id: TableId,
        partition_id: Option<PartitionId>,
        bucket_id: BucketId,
        limit: i32,
    ) -> (r: Self)
        ensures
            r == (LimitScanRequest { table_id, partition_id, bucket_id, limit }),
    {
        LimitScanRequest { table_id, partition_id, bucket_id, limit }
    }
}

/// The answer to a [`LimitScanRequest`].
#[derive(Debug, Clone, PartialEq, Eq)]
pub struct LimitScanResponse {
    pub error_code: Option<i32>,
    pub error_message: Option<String>,
    pub is_log_table: Option<bool>,
    pub records: Option<Vec<u8>>,
}

impl RequestBody for LimitScanRequest {
    type ResponseBody = LimitScanResponse;

    const API_KEY: ApiKey = ApiKey::LimitScan;

    const REQUEST_VERSION: ApiVersion = 0;
}

impl<T: RequestBody> RequestBody for &T {
    type ResponseBody = T::ResponseBody;

    const API_KEY: ApiKey = T::API_KEY;

    const REQUEST_VERSION: ApiVersion = T::REQUEST_VERSION;
}

} // verus!
