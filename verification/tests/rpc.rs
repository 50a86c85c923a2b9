use fluss::rpc::ApiKey;

#[test]
fn api_key_round_trip() {
    let cases = [
        (1001, ApiKey::CreateDatabase),
        (1002, ApiKey::DropDatabase),
        (1003, ApiKey::ListDatabases),
        (1004, ApiKey::DatabaseExists),
        (1005, ApiKey::CreateTable),
        (1006, ApiKey::DropTable),
        (1007, ApiKey::GetTable),
        (1008, ApiKey::ListTables),
        (1009, ApiKey::ListPartitionInfos),
        (1010, ApiKey::TableExists),
        (1012, ApiKey::MetaData),
        (1014, ApiKey::ProduceLog),
        (1015, ApiKey::FetchLog),
        (1016, ApiKey::PutKv),
        (1033, ApiKey::LimitScan),
        (1017, ApiKey::Lookup),
        (1021, ApiKey::ListOffsets),
        (1025, ApiKey::GetFileSystemSecurityToken),
        (1032, ApiKey::GetLatestLakeSnapshot),
        (1035, ApiKey::GetDatabaseInfo),
        (1036, ApiKey::CreatePartition),
        (1037, ApiKey::DropPartition),
    ];

    for (raw, key) in cases {
        assert_eq!(ApiKey::from(raw), key);
        let mapped: i16 = key.into();
        assert_eq!(mapped, raw);
    }

    let unknown = ApiKey::from(9999);
    assert_eq!(unknown, ApiKey::Unknown(9999));
    let mapped: i16 = unknown.into();
    assert_eq!(mapped, 9999);
}
