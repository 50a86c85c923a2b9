use std::sync::Arc;

use fluss::client::table::bucket_lookup::{
    rows_of_value, LookupAction, LookupEvent, LookupState,
};
use fluss::client::table::prefix_lookup::validate_prefix_lookup;
use fluss::client::{LookupResult, TableLookup};
use fluss::error::Error;
use fluss::metadata::{
    Column, DataLakeFormat, DataTypes, Schema, TableDescriptor, TableInfo, TablePath,
};
use fluss::row::encode::{RowEncoder, RowEncoderFactory};
use fluss::row::{Datum, GenericRow, InternalRow};

fn strings(names: &[&str]) -> Vec<String> {
    names.iter().map(|n| n.to_string()).collect()
}

fn schema() -> Schema {
    Schema::builder()
        .column("a", DataTypes::integer())
        .column("p", DataTypes::string())
        .column("b", DataTypes::string())
        .column("v", DataTypes::string())
        .primary_key(vec!["a", "p", "b"])
        .build()
        .unwrap()
}

fn table(partitions: &[&str], buckets: &[&str], properties: &[(&str, &str)]) -> TableInfo {
    let mut builder = TableDescriptor::builder()
        .schema(schema())
        .partitioned_by(strings(partitions))
        .distributed_by(Some(4), strings(buckets));
    for (k, v) in properties {
        builder = builder.property(*k, *v);
    }
    TableInfo::of(TablePath::new("db", "t"), 11, 3, builder.build().unwrap(), 0, 0)
}

fn encode(schema: &Schema, values: &[Datum<'static>]) -> Vec<u8> {
    let mut encoder = RowEncoderFactory::create(
        fluss::metadata::KvFormat::COMPACTED,
        schema.row_type().clone(),
    )
    .unwrap();
    encoder.start_new_row().unwrap();
    for (i, value) in values.iter().enumerate() {
        encoder.encode_field(i, value.clone()).unwrap();
    }
    encoder.finish_row().unwrap().to_vec()
}

fn stored(schema_id: i16, row: Vec<u8>) -> Vec<u8> {
    let mut bytes = schema_id.to_le_bytes().to_vec();
    bytes.extend(row);
    bytes
}

fn refusal(info: &TableInfo, columns: &[&str]) -> String {
    match validate_prefix_lookup(info, &strings(columns)) {
        Err(Error::IllegalArgument { message }) => message,
        other => panic!("expected a refusal, got {other:?}"),
    }
}

#[test]
fn prefix_lookups_are_accepted() {
    let info = table(&["p"], &["a"], &[]);
    assert!(validate_prefix_lookup(&info, &strings(&["p", "a"])).is_ok());
    let unpartitioned = table(&[], &["a", "p"], &[]);
    assert!(validate_prefix_lookup(&unpartitioned, &strings(&["a", "p"])).is_ok());
}

#[test]
fn prefix_lookups_are_refused() {
    let log_schema = Schema::builder()
        .column("a", DataTypes::integer())
        .build()
        .unwrap();
    let log = TableInfo::of(
        TablePath::new("db", "log"),
        1,
        1,
        TableDescriptor::builder()
            .schema(log_schema)
            .distributed_by(Some(1), vec![])
            .build()
            .unwrap(),
        0,
        0,
    );
    assert_eq!(
        refusal(&log, &["a"]),
        "Log table db.log doesn't support prefix lookup"
    );

    let mut no_buckets = table(&[], &["a"], &[]);
    no_buckets.bucket_keys = vec![];
    assert_eq!(
        refusal(&no_buckets, &["a"]),
        "Can not perform prefix lookup on table 'db.t', because it has no bucket keys."
    );

    let not_prefix = table(&["p"], &["b"], &[]);
    assert_eq!(
        refusal(&not_prefix, &["p", "b"]),
        "Can not perform prefix lookup on table 'db.t', because the bucket keys [\"b\"] is not a prefix subset of the physical primary keys [\"a\", \"b\"] (excluded partition fields if present)."
    );

    let info = table(&["p"], &["a"], &[]);
    assert_eq!(
        refusal(&info, &["a"]),
        "Can not perform prefix lookup on table 'db.t', because the lookup columns [\"a\"] must contain all partition fields [\"p\"]."
    );
    assert_eq!(
        refusal(&info, &["p", "a", "b"]),
        "Can not perform prefix lookup on table 'db.t', because the lookup columns [\"p\", \"a\", \"b\"] must contain all bucket keys [\"a\"] in order."
    );

    let whole = table(&["p"], &["a", "b"], &[]);
    assert_eq!(
        refusal(&whole, &["p", "a", "b"]),
        "Can not perform prefix lookup on table 'db.t', because the lookup columns [\"p\", \"a\", \"b\"] equals the physical primary keys [\"a\", \"b\"]. Please use primary key lookup (Lookuper without lookup_by) instead."
    );

    assert_eq!(
        refusal(&info, &["a", "p"]),
        "Can not perform prefix lookup on table 'db.t', because the lookup columns [\"a\", \"p\"] must list the partition fields [\"p\"] and then the bucket keys [\"a\"], in that order."
    );
    assert_eq!(
        refusal(&info, &["p", "p", "a"]),
        "Can not perform prefix lookup on table 'db.t', because the lookup columns [\"p\", \"p\", \"a\"] must list the partition fields [\"p\"] and then the bucket keys [\"a\"], in that order."
    );
}

#[test]
fn partitions_must_be_in_the_primary_key() {
    let mut info = table(&["p"], &["a", "b"], &[]);
    assert!(TableLookup::new(info.clone()).create_lookuper().is_ok());
    info.partition_keys = Arc::from(strings(&["p", "v"]));
    let e = TableLookup::new(info).create_lookuper().err().unwrap();
    let message = e.message();
    assert!(
        message.starts_with("Field \"v\" not found in input row type RowType { nullable: true, "),
        "{message}"
    );
}

fn finished(step: (LookupState, LookupAction)) -> LookupResult {
    match step {
        (LookupState::Finished, LookupAction::Return(result)) => result,
        other => panic!("expected a result, got {other:?}"),
    }
}

#[test]
fn a_lookup_in_a_partitioned_table() {
    let mut lookuper = TableLookup::new(table(&["p"], &["a"], &[]))
        .create_lookuper()
        .unwrap();
    assert_eq!(lookuper.data_lake_format(), None);
    assert_eq!(lookuper.table_info().get_table_id(), 11);
    let key_row = GenericRow::from_data(vec![
        Datum::from(300i32),
        Datum::from("p1"),
        Datum::from("x"),
    ]);

    let (state, action) = lookuper.lookup(&key_row).unwrap();
    assert!(matches!(action, LookupAction::NamePartition));

    let (state, action) = lookuper
        .advance(state, LookupEvent::PartitionNamed("p1".to_string()))
        .unwrap();
    match action {
        LookupAction::FindPartition(path) => assert_eq!(path.to_string(), "db.t(p=p1)"),
        other => panic!("{other:?}"),
    }

    let (state, action) = lookuper
        .advance(state, LookupEvent::PartitionFound(Some(77)))
        .unwrap();
    match action {
        LookupAction::ComputeBucket(key, num_buckets) => {
            assert_eq!(key.as_ref(), &[0xac, 0x02]);
            assert_eq!(num_buckets, 4);
        }
        other => panic!("{other:?}"),
    }

    let (state, action) = lookuper
        .advance(state, LookupEvent::BucketComputed(2))
        .unwrap();
    match action {
        LookupAction::Send(request) => {
            assert_eq!(request.table_path.to_string(), "db.t");
            assert_eq!(request.table_bucket.table_id(), 11);
            assert_eq!(request.table_bucket.partition_id(), Some(77));
            assert_eq!(request.table_bucket.bucket_id(), 2);
            // The bucket key comes first in the primary key.
            assert_eq!(request.key.as_ref(), &[0xac, 0x02, 1, b'x']);
        }
        other => panic!("{other:?}"),
    }

    let values = [
        Datum::Int32(300),
        Datum::from("p1"),
        Datum::from("x"),
        Datum::from("value"),
    ];
    let value = stored(3, encode(&schema(), &values));
    let step = lookuper
        .advance(state, LookupEvent::Answered(rows_of_value(Some(value))))
        .unwrap();
    let result = finished(step);
    let row = result.get_single_row().unwrap().unwrap();
    assert_eq!(row.get_string(3).unwrap(), "value");
    assert_eq!(row.into_values(), GenericRow { values: values.to_vec() });
}

#[test]
fn a_key_has_at_most_one_row() {
    let values = [
        Datum::Int32(1),
        Datum::from("p"),
        Datum::from("x"),
        Datum::from("v"),
    ];
    let known = stored(3, encode(&schema(), &values));
    let other = stored(8, encode(&schema(), &values));
    for (value, expected) in [(None, 0), (Some(known), 1), (Some(other), 1)] {
        let mut lookuper = TableLookup::new(table(&[], &["a"], &[]))
            .create_lookuper()
            .unwrap();
        let key_row = GenericRow::from_data(vec![
            Datum::from(1i32),
            Datum::from("p"),
            Datum::from("x"),
        ]);
        let (state, _) = lookuper.lookup(&key_row).unwrap();
        let (state, _) = lookuper
            .advance(state, LookupEvent::BucketComputed(0))
            .unwrap();
        let mut step = lookuper
            .advance(state, LookupEvent::Answered(rows_of_value(value)))
            .unwrap();
        if let LookupAction::FetchSchemas(ids) = &step.1 {
            assert_eq!(ids, &vec![8]);
            let schemas = vec![(8, Arc::new(schema()))];
            step = lookuper
                .advance(step.0, LookupEvent::SchemasFetched(schemas))
                .unwrap();
        }
        let result = finished(step);
        assert_eq!(result.get_rows().unwrap().len(), expected);
        assert_eq!(result.get_single_row().unwrap().is_some(), expected == 1);
    }
}

#[test]
fn a_partition_that_does_not_exist_has_no_rows() {
    let mut lookuper = TableLookup::new(table(&["p"], &[], &[]))
        .create_lookuper()
        .unwrap();
    let key_row = GenericRow::from_data(vec![
        Datum::from(1i32),
        Datum::from("p1"),
        Datum::from("x"),
    ]);
    let (state, _) = lookuper.lookup(&key_row).unwrap();
    let (state, _) = lookuper
        .advance(state, LookupEvent::PartitionNamed("p1".to_string()))
        .unwrap();
    let step = lookuper
        .advance(state, LookupEvent::PartitionFound(None))
        .unwrap();
    let result = finished(step);
    assert!(result.get_single_row().unwrap().is_none());
    assert_eq!(result.get_rows().unwrap().len(), 0);
}

#[test]
fn rows_of_other_schemas_wait_for_them() {
    let mut lookuper = TableLookup::new(table(&[], &["a"], &[]))
        .lookup_by(strings(&["a"]))
        .create_lookuper()
        .unwrap();
    let (state, action) = lookuper
        .lookup(&GenericRow::from_data(vec![Datum::from(1i32)]))
        .unwrap();
    match action {
        LookupAction::ComputeBucket(key, 4) => assert_eq!(key.as_ref(), &[1]),
        other => panic!("{other:?}"),
    }
    let (state, action) = lookuper
        .advance(state, LookupEvent::BucketComputed(0))
        .unwrap();
    match action {
        LookupAction::Send(request) => {
            assert_eq!(request.table_bucket.partition_id(), None);
            assert_eq!(request.key.as_ref(), &[1]);
        }
        other => panic!("{other:?}"),
    }

    // An older schema, without the value column.
    let old = Schema::builder()
        .with_columns(vec![
            Column::new("a", DataTypes::integer()).with_id(0),
            Column::new("p", DataTypes::string()).with_id(1),
            Column::new("b", DataTypes::string()).with_id(2),
        ])
        .build()
        .unwrap();
    let old_row = stored(
        1,
        encode(
            &old,
            &[Datum::Int32(1), Datum::from("p"), Datum::from("old")],
        ),
    );
    let new_row = stored(
        3,
        encode(
            &schema(),
            &[
                Datum::Int32(1),
                Datum::from("p"),
                Datum::from("new"),
                Datum::from("v"),
            ],
        ),
    );
    let rows = vec![old_row.clone(), new_row, old_row];
    let (state, action) = lookuper
        .advance(state, LookupEvent::Answered(rows))
        .unwrap();
    match action {
        LookupAction::FetchSchemas(ids) => assert_eq!(ids, vec![1]),
        other => panic!("{other:?}"),
    }
    let step = lookuper
        .advance(
            state,
            LookupEvent::SchemasFetched(vec![(1, Arc::new(old))]),
        )
        .unwrap();
    let result = finished(step);
    let rows = result.get_rows().unwrap();
    assert_eq!(rows.len(), 3);
    assert_eq!(rows[0].get_string(2).unwrap(), "old");
    assert!(rows[0].is_null_at(3).unwrap());
    assert_eq!(rows[1].get_string(3).unwrap(), "v");
    assert_eq!(
        result.get_single_row().err().unwrap().message(),
        "LookupResult contains multiple rows, use get_rows() instead"
    );
    let batch = result.to_record_batch().unwrap();
    assert_eq!(batch.num_rows(), 3);
    assert_eq!(batch.num_columns(), 4);
    assert_eq!(batch.column(0)[2], Datum::Int32(1));
    assert_eq!(batch.column(3)[0], Datum::Null);
    assert_eq!(batch.column(3)[1], Datum::from("v"));
}

#[test]
fn broken_answers_end_a_lookup() {
    let mut lookuper = TableLookup::new(table(&[], &[], &[]))
        .create_lookuper()
        .unwrap();
    let row = GenericRow::from_data(vec![Datum::from(1i32), Datum::from("p"), Datum::from("b")]);
    let (state, _) = lookuper.lookup(&row).unwrap();
    let (state, _) = lookuper
        .advance(state, LookupEvent::BucketComputed(0))
        .unwrap();
    let e = lookuper
        .advance(state, LookupEvent::Answered(vec![vec![0xff, 0xff]]))
        .err()
        .unwrap();
    assert_eq!(
        e.message(),
        "Invalid negative schema id -1; row prefix is corrupt"
    );
    assert_eq!(LookupResult::read_schema_id(&[2, 1, 9]).unwrap(), 258);
    assert_eq!(
        LookupResult::read_schema_id(&[2]).unwrap_err().message(),
        "Row payload too short: 1 bytes, need at least 2 for schema id"
    );
    let null = GenericRow::from_data(vec![Datum::Null, Datum::from("p"), Datum::from("b")]);
    assert!(lookuper.lookup(&null).is_err());
}

#[test]
fn lookups_are_refused() {
    let mut info = table(&[], &[], &[]);
    info.schema_id = 40_000;
    assert_eq!(
        TableLookup::new(info)
            .create_lookuper()
            .err()
            .unwrap()
            .message(),
        "Schema id 40000 does not fit in 16 bits \u{2014} wire format violated"
    );
    let paimon = table(&[], &[], &[("table.datalake.format", "paimon")]);
    assert_eq!(
        TableLookup::new(paimon)
            .create_lookuper()
            .err()
            .unwrap()
            .message(),
        "KeyEncoder for Paimon format is not yet implemented"
    );
    let unknown = table(&[], &[], &[("table.datalake.format", "hudi")]);
    assert!(TableLookup::new(unknown).create_lookuper().is_err());
    let indexed = table(&[], &[], &[("table.kv.format", "INDEXED")]);
    assert_eq!(
        TableLookup::new(indexed)
            .create_lookuper()
            .err()
            .unwrap()
            .message(),
        "RowDecoder for INDEXED format is not yet implemented"
    );
    let whole = table(&[], &[], &[]);
    assert!(TableLookup::new(whole)
        .lookup_by(strings(&["a", "p", "b"]))
        .create_lookuper()
        .is_err());
}

#[test]
fn iceberg_buckets_and_compacted_keys() {
    let info = table(
        &[],
        &["a"],
        &[
            ("table.datalake.format", "iceberg"),
            ("table.kv.format-version", "2"),
        ],
    );
    let mut lookuper = TableLookup::new(info).create_lookuper().unwrap();
    assert_eq!(lookuper.data_lake_format(), Some(DataLakeFormat::Iceberg));
    let row = GenericRow::from_data(vec![Datum::from(7i32), Datum::from("p"), Datum::from("b")]);
    let (state, action) = lookuper.lookup(&row).unwrap();
    match action {
        LookupAction::ComputeBucket(key, _) => assert_eq!(key.as_ref(), 7i64.to_le_bytes()),
        other => panic!("{other:?}"),
    }
    let (_, action) = lookuper
        .advance(state, LookupEvent::BucketComputed(3))
        .unwrap();
    match action {
        LookupAction::Send(request) => {
            assert_eq!(request.key.as_ref(), &[7, 1, b'p', 1, b'b']);
        }
        other => panic!("{other:?}"),
    }
}
