use fluss::error::Error;
use fluss::metadata::{
    DataTypes, KvFormat, LogFormat, Schema, TableDescriptor, TableInfo, TablePath,
};

fn keyed_schema() -> Schema {
    Schema::builder()
        .column("a", DataTypes::integer())
        .column("b", DataTypes::string())
        .column("c", DataTypes::bigint())
        .column("v", DataTypes::string())
        .primary_key(vec!["a", "b", "c"])
        .build()
        .unwrap()
}

fn log_schema() -> Schema {
    Schema::builder()
        .column("a", DataTypes::integer())
        .column("v", DataTypes::string())
        .build()
        .unwrap()
}

fn strings(names: &[&str]) -> Vec<String> {
    names.iter().map(|n| n.to_string()).collect()
}

fn invalid_table(r: Result<TableDescriptor, Error>) -> String {
    match r {
        Err(Error::InvalidTable { message }) => message,
        other => panic!("expected an invalid table, got {other:?}"),
    }
}

#[test]
fn bucket_keys_default_to_the_key_without_partitions() {
    let descriptor = TableDescriptor::builder()
        .schema(keyed_schema())
        .partitioned_by(vec!["b"])
        .distributed_by(Some(3), vec![])
        .build()
        .unwrap();
    assert_eq!(descriptor.bucket_keys(), vec!["a", "c"]);
    assert!(descriptor.is_default_bucket_key().unwrap());
    assert_eq!(
        descriptor.table_distribution().unwrap().bucket_count(),
        Some(3)
    );

    let undistributed = TableDescriptor::builder()
        .schema(keyed_schema())
        .build()
        .unwrap();
    assert_eq!(undistributed.bucket_keys(), vec!["a", "b", "c"]);
    assert_eq!(
        undistributed.table_distribution().unwrap().bucket_count(),
        None
    );

    let log = TableDescriptor::builder()
        .schema(log_schema())
        .build()
        .unwrap();
    assert!(log.table_distribution().is_none());
    assert!(log.is_default_bucket_key().unwrap());
}

#[test]
fn custom_bucket_keys_are_kept() {
    let descriptor = TableDescriptor::builder()
        .schema(keyed_schema())
        .distributed_by(Some(2), strings(&["a"]))
        .build()
        .unwrap();
    assert_eq!(descriptor.bucket_keys(), vec!["a"]);
    assert!(!descriptor.is_default_bucket_key().unwrap());
    let more = descriptor.with_bucket_count(9);
    assert_eq!(more.table_distribution().unwrap().bucket_count(), Some(9));
    assert_eq!(more.bucket_keys(), vec!["a"]);
}

#[test]
fn distributions_are_refused() {
    let partitioned = TableDescriptor::builder()
        .schema(keyed_schema())
        .partitioned_by(vec!["b"])
        .distributed_by(Some(3), strings(&["a", "b"]))
        .build();
    assert_eq!(
        invalid_table(partitioned),
        "Bucket key [\"a\", \"b\"] shouldn't include any column in partition keys [\"b\"]."
    );

    let foreign = TableDescriptor::builder()
        .schema(keyed_schema())
        .distributed_by(Some(3), strings(&["v"]))
        .build();
    assert_eq!(
        invalid_table(foreign),
        "Bucket keys must be a subset of primary keys excluding partition keys for primary-key tables. The primary keys are [\"a\", \"b\", \"c\"], the partition keys are [], but the user-defined bucket keys are [\"v\"]."
    );

    let all_partitioned = TableDescriptor::builder()
        .schema(keyed_schema())
        .partitioned_by(vec!["a", "b", "c"])
        .build();
    assert_eq!(
        invalid_table(all_partitioned),
        "Primary Key constraint [\"a\", \"b\", \"c\"] should not be same with partition fields [\"a\", \"b\", \"c\"]."
    );
}

#[test]
fn replication_factor_comes_back() {
    let descriptor = TableDescriptor::builder()
        .schema(log_schema())
        .property("table.replication.factor", "three")
        .build()
        .unwrap();
    assert_eq!(
        descriptor.replication_factor().unwrap_err().message(),
        "Replication factor can't be converted to int"
    );
    let set = descriptor.with_replication_factor(-3);
    assert_eq!(set.replication_factor().unwrap(), -3);
    assert_eq!(
        set.properties().get("table.replication.factor").unwrap(),
        "-3"
    );

    let unset = TableDescriptor::builder()
        .schema(log_schema())
        .build()
        .unwrap();
    assert_eq!(
        unset.replication_factor().unwrap_err().message(),
        "Replication factor is not set"
    );
}

#[test]
fn descriptor_comes_back_from_table_info() {
    let descriptor = TableDescriptor::builder()
        .schema(keyed_schema())
        .partitioned_by(vec!["b"])
        .distributed_by(Some(3), strings(&["a"]))
        .log_format(LogFormat::INDEXED)
        .kv_format(KvFormat::COMPACTED)
        .custom_property("owner", "me")
        .comment("rows")
        .build()
        .unwrap();
    let info = TableInfo::of(
        TablePath::new("db", "t"),
        5,
        1,
        descriptor.clone(),
        10,
        20,
    );
    let back = info.to_table_descriptor().unwrap();
    assert_eq!(back.bucket_keys(), descriptor.bucket_keys());
    assert_eq!(back.partition_keys(), descriptor.partition_keys());
    assert_eq!(back.comment(), Some("rows"));
    assert_eq!(back.properties(), descriptor.properties());
    assert_eq!(back.custom_properties(), descriptor.custom_properties());
    assert_eq!(info.get_physical_primary_keys(), strings(&["a", "c"]));
    assert!(!info.is_default_bucket_key());
    assert_eq!(
        info.get_properties().get("table.log.format").unwrap(),
        "INDEXED"
    );
}

#[test]
fn table_info_prints_its_parts() {
    let descriptor = TableDescriptor::builder()
        .schema(log_schema())
        .distributed_by(Some(1), vec![])
        .property("k", "v")
        .build()
        .unwrap();
    let info = TableInfo::of(TablePath::new("db", "t"), 5, 1, descriptor, 10, -20);
    assert_eq!(
        info.describe("S", "P", "C"),
        "TableInfo{ table_path=TablePath { database: \"db\", table: \"t\" }, table_id=5, schema_id=1, schema=S, physical_primary_keys=[], bucket_keys=[], partition_keys=[], num_buckets=1, properties=P, custom_properties=C, comment=None, created_time=10, modified_time=-20 }"
    );
    let printed = info.to_string();
    assert!(printed.contains("properties={\"k\": \"v\"}"), "{printed}");
    assert!(printed.contains("schema=Schema { columns: [Column { name: \"a\""), "{printed}");
}
