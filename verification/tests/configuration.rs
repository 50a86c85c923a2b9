use std::sync::Arc;

use fluss::compression::ArrowCompressionType;
use fluss::metadata::{
    AutoPartitionStrategy, BucketMap, DataLakeFormat, KvFormat, KvFormatVersion, LogFormat,
    PhysicalTablePath, TableBucket, TableConfig, TablePath,
};
use fluss::property_map::PropertyMap;

fn config(pairs: &[(&str, &str)]) -> TableConfig {
    let mut properties = PropertyMap::new();
    for (k, v) in pairs {
        properties.insert(*k, *v);
    }
    TableConfig::from_properties(properties)
}

#[test]
fn formats_are_read_in_any_case() {
    assert_eq!(LogFormat::parse("arrow").unwrap(), LogFormat::ARROW);
    assert_eq!(LogFormat::parse("Indexed").unwrap(), LogFormat::INDEXED);
    assert_eq!(
        LogFormat::parse("orc").unwrap_err().message(),
        "Unknown log format: orc"
    );
    assert_eq!(KvFormat::parse("compacted").unwrap(), KvFormat::COMPACTED);
    assert_eq!(
        KvFormat::parse("orc").unwrap_err().message(),
        "Unknown kv format: orc"
    );
    for format in [KvFormat::INDEXED, KvFormat::COMPACTED] {
        assert_eq!(KvFormat::parse(&format.to_string()).unwrap(), format);
    }
    for format in [LogFormat::ARROW, LogFormat::INDEXED] {
        assert_eq!(LogFormat::parse(&format.to_string()).unwrap(), format);
    }
    // Upper case goes beyond ASCII.
    assert_eq!(
        LogFormat::parse("\u{df}").unwrap_err().message(),
        "Unknown log format: \u{df}"
    );
}

#[test]
fn formats_are_configured() {
    let empty = config(&[]);
    assert_eq!(empty.get_log_format().unwrap(), LogFormat::ARROW);
    assert_eq!(empty.get_kv_format().unwrap(), KvFormat::COMPACTED);
    assert_eq!(empty.get_datalake_format().unwrap(), None);
    assert_eq!(
        config(&[("table.datalake.format", "IceBerg")])
            .get_datalake_format()
            .unwrap(),
        Some(DataLakeFormat::Iceberg)
    );
    assert!(config(&[("table.datalake.format", "hudi")])
        .get_datalake_format()
        .is_err());
    assert!(config(&[("table.kv.format", "compacted")])
        .get_kv_format()
        .is_err());
    assert_eq!(
        config(&[("table.kv.format-version", " +2\u{a0}")]).get_kv_format_version(),
        KvFormatVersion::V2
    );
}

#[test]
fn compression_is_configured() {
    let info = config(&[]).get_arrow_compression_info().unwrap();
    assert_eq!(info.compression_type, ArrowCompressionType::Zstd);
    assert_eq!(info.compression_level, 3);
    let lz4 = config(&[("table.log.arrow.compression.type", "LZ4_FRAME")])
        .get_arrow_compression_info()
        .unwrap();
    assert_eq!(lz4.compression_type, ArrowCompressionType::Lz4Frame);
    let none = config(&[("table.log.arrow.compression.type", "NONE")])
        .get_arrow_compression_info()
        .unwrap();
    assert_eq!(none.compression_type, ArrowCompressionType::Uncompressed);
    let level = config(&[("table.log.arrow.compression.zstd.level", "22")])
        .get_arrow_compression_info()
        .unwrap();
    assert_eq!(level.compression_level, 22);
    assert!(config(&[("table.log.arrow.compression.zstd.level", "23")])
        .get_arrow_compression_info()
        .is_err());
    assert!(config(&[("table.log.arrow.compression.type", "GZIP")])
        .get_arrow_compression_info()
        .is_err());
}

#[test]
fn auto_partitioning_has_defaults() {
    let zone = Some("Asia/Tokyo".to_string());
    let strategy = AutoPartitionStrategy::from_with_zone(&PropertyMap::new(), &zone);
    assert!(!strategy.is_auto_partition_enabled());
    assert_eq!(strategy.key(), None);
    assert_eq!(strategy.time_unit(), "DAY");
    assert_eq!(strategy.num_precreate(), 2);
    assert_eq!(strategy.num_retention(), 7);
    assert_eq!(strategy.timezone(), "Asia/Tokyo");
    let unnamed = AutoPartitionStrategy::from_with_zone(&PropertyMap::new(), &None);
    assert_eq!(unnamed.timezone(), "UTC");

    let mut properties = PropertyMap::new();
    properties.insert("table.auto-partition.enabled", "true");
    properties.insert("table.auto-partition.key", "dt");
    properties.insert("table.auto-partition.time-unit", "HOUR");
    properties.insert("table.auto-partition.num-precreate", "4");
    properties.insert("table.auto-partition.num-retention", "many");
    properties.insert("table.auto-partition.time-zone", "UTC");
    let strategy = AutoPartitionStrategy::from(&properties);
    assert!(strategy.is_auto_partition_enabled());
    assert_eq!(strategy.key(), Some("dt"));
    assert_eq!(strategy.time_unit(), "HOUR");
    assert_eq!(strategy.num_precreate(), 4);
    assert_eq!(strategy.num_retention(), 7);
    assert_eq!(strategy.timezone(), "UTC");

    // The zone of the machine has some name.
    assert!(!AutoPartitionStrategy::from(&PropertyMap::new())
        .timezone()
        .is_empty());
}

#[test]
fn paths_and_buckets_are_printed() {
    let path = Arc::new(TablePath::new("db", "t"));
    assert_eq!(PhysicalTablePath::of(path.clone()).to_string(), "db.t");
    let part = PhysicalTablePath::of_partitioned(path, Some("p1".to_string()));
    assert_eq!(part.to_string(), "db.t(p=p1)");
    assert_eq!(part.get_partition_name(), Some(&"p1".to_string()));
    assert_eq!(part.get_database_name(), "db");
    assert_eq!(part.get_table_name(), "t");
    assert_eq!(
        TableBucket::new(1, 2).to_string(),
        "TableBucket(table_id=1, bucket=2)"
    );
    assert_eq!(
        TableBucket::new_with_partition(-1, Some(7), 2).to_string(),
        "TableBucket(table_id=-1, partition_id=7, bucket=2)"
    );
}

#[test]
fn buckets_keep_what_was_put_last() {
    let mut offsets = BucketMap::new();
    let bucket = TableBucket::new(1, 2);
    offsets.insert(bucket, 10i64);
    offsets.insert(TableBucket::new_with_partition(1, Some(0), 2), 11i64);
    offsets.insert(bucket, 12i64);
    assert_eq!(offsets.len(), 2);
    assert_eq!(offsets.get(&bucket), Some(&12));
    assert_eq!(offsets.get(&TableBucket::new(1, 3)), None);
}

#[test]
fn properties_keep_what_was_put_last() {
    let mut a = PropertyMap::new();
    a.insert("x", "1");
    a.insert("y", "2");
    let mut b = PropertyMap::new();
    b.insert("x", "3");
    a.insert_all(&b);
    assert_eq!(a.get("x").unwrap(), "3");
    assert_eq!(a.get("y").unwrap(), "2");
    assert!(a.get("z").is_none());
    let mut c = PropertyMap::new();
    c.insert("y", "2");
    c.insert("x", "3");
    assert_eq!(a, c);
}
