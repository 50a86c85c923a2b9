use std::sync::Arc;

use fluss::metadata::{
    DataTypes, KvFormatVersion, Schema, TableConfig, TableInfo, TablePath, MAX_NAME_LENGTH,
};
use fluss::property_map::PropertyMap;

fn assert_invalid_name(name: &str, expected_message: &str) {
    let result = TablePath::detect_invalid_name(name);
    assert!(
        result.is_some(),
        "Expected '{name}' to be invalid, but it was valid"
    );
    assert!(
        result.as_ref().unwrap().contains(expected_message),
        "Expected message containing '{}', but got '{}'",
        expected_message,
        result.unwrap()
    );
}

#[test]
fn test_validate() {
    // assert valid name
    let path = TablePath::new("db_2-abc3".to_string(), "table-1_abc_2".to_string());
    assert!(TablePath::detect_invalid_name(path.database()).is_none());
    assert!(TablePath::detect_invalid_name(path.table()).is_none());
    assert_eq!(path.to_string(), "db_2-abc3.table-1_abc_2");

    // assert invalid name prefix
    assert!(TablePath::validate_prefix("__table-1")
        .unwrap()
        .contains("'__' is not allowed as prefix"));

    // check max length
    let long_name = "a".repeat(200);
    assert!(TablePath::detect_invalid_name(&long_name).is_none());

    // assert invalid names
    assert_invalid_name("*abc", "'*abc' contains one or more characters other than");
    assert_invalid_name(
        "table.abc",
        "'table.abc' contains one or more characters other than",
    );
    assert_invalid_name("", "the empty string is not allowed");
    assert_invalid_name(" ", "' ' contains one or more characters other than");
    assert_invalid_name(".", "'.' is not allowed");
    assert_invalid_name("..", "'..' is not allowed");
    let invalid_long_name = "a".repeat(201);
    assert_invalid_name(
        &invalid_long_name,
        &format!(
            "the length of '{invalid_long_name}' is longer than the max allowed length {MAX_NAME_LENGTH}"
        ),
    );
}

#[test]
fn test_is_auto_partitioned() {
    let schema = Schema::builder()
        .column("id", DataTypes::integer())
        .column("name", DataTypes::string())
        .primary_key(vec!["id".to_string()])
        .build()
        .unwrap();

    let table_path = TablePath::new("db".to_string(), "tbl".to_string());

    // 1. Not partitioned, auto partition disabled
    let mut properties = PropertyMap::new();
    let table_info = TableInfo::new(
        table_path.clone(),
        1,
        1,
        schema.clone(),
        vec!["id".to_string()],
        Arc::from(vec![]), // No partition keys
        1,
        properties.clone(),
        PropertyMap::new(),
        None,
        0,
        0,
    );
    assert!(!table_info.is_auto_partitioned());

    // 2. Not partitioned, auto partition enabled
    properties.insert(
        "table.auto-partition.enabled".to_string(),
        "true".to_string(),
    );
    let table_info = TableInfo::new(
        table_path.clone(),
        1,
        1,
        schema.clone(),
        vec!["id".to_string()],
        Arc::from(vec![]), // No partition keys
        1,
        properties.clone(),
        PropertyMap::new(),
        None,
        0,
        0,
    );
    assert!(!table_info.is_auto_partitioned());

    // 3. Partitioned, auto partition disabled
    properties.insert(
        "table.auto-partition.enabled".to_string(),
        "false".to_string(),
    );
    let table_info = TableInfo::new(
        table_path.clone(),
        1,
        1,
        schema.clone(),
        vec!["id".to_string()],
        Arc::from(vec!["name".to_string()]), // Partition keys
        1,
        properties.clone(),
        PropertyMap::new(),
        None,
        0,
        0,
    );
    assert!(!table_info.is_auto_partitioned());

    // 4. Partitioned, auto partition enabled
    properties.insert(
        "table.auto-partition.enabled".to_string(),
        "true".to_string(),
    );
    let table_info = TableInfo::new(
        table_path.clone(),
        1,
        1,
        schema.clone(),
        vec!["id".to_string()],
        Arc::from(vec!["name".to_string()]), // Partition keys
        1,
        properties.clone(),
        PropertyMap::new(),
        None,
        0,
        0,
    );
    assert!(table_info.is_auto_partitioned());
}

#[test]
fn kv_format_version_parse_property_defaults() {
    assert_eq!(KvFormatVersion::parse_property(None), KvFormatVersion::V1);
    assert_eq!(KvFormatVersion::parse_property(Some("")), KvFormatVersion::V1);
    assert_eq!(KvFormatVersion::parse_property(Some("  ")), KvFormatVersion::V1);
    assert_eq!(KvFormatVersion::parse_property(Some("1")), KvFormatVersion::V1);
    assert_eq!(KvFormatVersion::parse_property(Some(" 2 ")), KvFormatVersion::V2);
    assert_eq!(KvFormatVersion::parse_property(Some("99")), KvFormatVersion::V1);
    assert_eq!(KvFormatVersion::parse_property(Some("nope")), KvFormatVersion::V1);
}

#[test]
fn table_config_get_kv_format_version() {
    let empty = TableConfig::from_properties(PropertyMap::new());
    assert_eq!(empty.get_kv_format_version(), KvFormatVersion::V1);

    let mut m = PropertyMap::new();
    m.insert("table.kv.format-version".to_string(), "2".to_string());
    assert_eq!(
        TableConfig::from_properties(m).get_kv_format_version(),
        KvFormatVersion::V2
    );
}
