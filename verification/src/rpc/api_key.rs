//! The kinds of requests, and the numbers that they have on the wire.

use vstd::prelude::*;

verus! {

#[derive(Debug, PartialEq, Eq, PartialOrd, Ord, Hash, Clone, Copy, Structural)]
pub enum ApiKey {
    CreateDatabase,
    DropDatabase,
    ListDatabases,
    DatabaseExists,
    CreateTable,
    DropTable,
    GetTable,
    ListTables,
    ListPartitionInfos,
    TableExists,
    MetaData,
    ProduceLog,
    PutKv,
    LimitScan,
    FetchLog,
    Lookup,
    ListOffsets,
    GetFileSystemSecurityToken,
    GetDatabaseInfo,
    GetLatestLakeSnapshot,
    CreatePartition,
    DropPartition,
    /// A number that stands for no kind that is known.
    Unknown(i16),
}

/// The kind of request that a number stands for.
pub open spec fn key_of(number: i16) -> ApiKey {
    if number == 1001 {
        ApiKey::CreateDatabase
    } else if number == 1002 {
        ApiKey::DropDatabase
    } else if number == 1003 {
        ApiKey::ListDatabases
    } else if number == 1004 {
        ApiKey::DatabaseExists
    } else if number == 1005 {
        ApiKey::CreateTable
    } else if number == 1006 {
        ApiKey::DropTable
    } else if number == 1007 {
        ApiKey::GetTable
    } else if number == 1008 {
        ApiKey::ListTables
    } else if number == 1009 {
        ApiKey::ListPartitionInfos
    } else if number == 1010 {
        ApiKey::TableExists
    } else if number == 1012 {
        ApiKey::MetaData
    } else if number == 1014 {
        ApiKey::ProduceLog
    } else if number == 1015 {
        ApiKey::FetchLog
    } else if number == 1016 {
        ApiKey::PutKv
    } else if number == 1033 {
        ApiKey::LimitScan
    } else if number == 1017 {
        ApiKey::Lookup
    } else if number == 1021 {
        ApiKey::ListOffsets
    } else if number == 1025 {
        ApiKey::GetFileSystemSecurityToken
    } else if number == 1032 {
        ApiKey::GetLatestLakeSnapshot
    } else if number == 1035 {
        ApiKey::GetDatabaseInfo
    } else if number == 1036 {
        ApiKey::CreatePartition
    } else if number == 1037 {
        ApiKey::DropPartition
    } else {
        ApiKey::Unknown(number)
    }
}

/// The number of a kind of request.
pub open spec fn number_of(key: ApiKey) -> i16 {
    match key {
        ApiKey::CreateDatabase => 1001,
        ApiKey::DropDatabase => 1002,
        ApiKey::ListDatabases => 1003,
        ApiKey::DatabaseExists => 1004,
        ApiKey::CreateTable => 1005,
        ApiKey::DropTable => 1006,
        ApiKey::GetTable => 1007,
        ApiKey::ListTables => 1008,
        ApiKey::ListPartitionInfos => 1009,
        ApiKey::TableExists => 1010,
        ApiKey::MetaData => 1012,
        ApiKey::ProduceLog => 1014,
        ApiKey::FetchLog => 1015,
        ApiKey::PutKv => 1016,
        ApiKey::LimitScan => 1033,
        ApiKey::Lookup => 1017,
        ApiKey::ListOffsets => 1021,
        ApiKey::GetFileSystemSecurityToken => 1025,
        ApiKey::GetLatestLakeSnapshot => 1032,
        ApiKey::GetDatabaseInfo => 1035,
        ApiKey::CreatePartition => 1036,
        ApiKey::DropPartition => 1037,
        ApiKey::Unknown(number) => number,
    }
}

/// Every number comes back from the kind of request that it stands for, and
/// every kind of request from its number; but an unknown kind does so only where
/// its number is not that of a known one.
pub proof fn api_key_round_trip(key: ApiKey, number: i16)
    ensures
        number_of(key_of(number)) == number,
        key_of(number_of(key)) == key <==> (key is Unknown ==> key_of(key->Unknown_0) is Unknown),
{
}

impl From<i16> for ApiKey {
    fn from(key: i16) -> (r: Self) {
        match key {
            1001 => ApiKey::CreateDatabase,
            1002 => ApiKey::DropDatabase,
            1003 => ApiKey::ListDatabases,
            1004 => ApiKey::DatabaseExists,
            1005 => ApiKey::CreateTable,
            1006 => ApiKey::DropTable,
            1007 => ApiKey::GetTable,
            1008 => ApiKey::ListTables,
            1009 => ApiKey::ListPartitionInfos,
            1010 => ApiKey::TableExists,
            1012 => ApiKey::MetaData,
            1014 => ApiKey::ProduceLog,
            1015 => ApiKey::FetchLog,
            1016 => ApiKey::PutKv,
            1033 => ApiKey::LimitScan,
            1017 => ApiKey::Lookup,
            1021 => ApiKey::ListOffsets,
            1025 => ApiKey::GetFileSystemSecurityToken,
            1032 => ApiKey::GetLatestLakeSnapshot,
            1035 => ApiKey::GetDatabaseInfo,
            1036 => ApiKey::CreatePartition,
            1037 => ApiKey::DropPartition,
            _ => ApiKey::Unknown(key),
        }
    }
}

impl vstd::std_specs::convert::FromSpecImpl<i16> for ApiKey {
    open spec fn obeys_from_spec() -> bool {
        true
    }

    open spec fn from_spec(key: i16) -> Self {
        key_of(key)
    }
}

impl From<ApiKey> for i16 {
    fn from(key: ApiKey) -> (r: Self) {
        match key {
            ApiKey::CreateDatabase => 1001,
            ApiKey::DropDatabase => 1002,
            ApiKey::ListDatabases => 1003,
            ApiKey::DatabaseExists => 1004,
            ApiKey::CreateTable => 1005,
            ApiKey::DropTable => 1006,
            ApiKey::GetTable => 1007,
            ApiKey::ListTables => 1008,
            ApiKey::ListPartitionInfos => 1009,
            ApiKey::TableExists => 1010,
            ApiKey::MetaData => 1012,
            ApiKey::ProduceLog => 1014,
            ApiKey::FetchLog => 1015,
            ApiKey::PutKv => 1016,
            ApiKey::LimitScan => 1033,
            ApiKey::Lookup => 1017,
            ApiKey::ListOffsets => 1021,
            ApiKey::GetFileSystemSecurityToken => 1025,
            ApiKey::GetLatestLakeSnapshot => 1032,
            ApiKey::GetDatabaseInfo => 1035,
            ApiKey::CreatePartition => 1036,
            ApiKey::DropPartition => 1037,
            ApiKey::Unknown(x) => x,
        }
    }
}

impl vstd::std_specs::convert::FromSpecImpl<ApiKey> for i16 {
    open spec fn obeys_from_spec() -> bool {
        true
    }

    open spec fn from_spec(key: ApiKey) -> Self {
        number_of(key)
    }
}

} // verus!
