use fluss::error::Error;
use fluss::metadata::{Column, DataField, DataType, DataTypes, PrimaryKey, Schema, SchemaBuilder};

fn field(name: &str, data_type: DataType, id: i32) -> DataField {
    DataField {
        name: name.to_string(),
        data_type,
        description: None,
        field_id: id,
    }
}

/// The ids of a column and of everything in it.
fn ids_in(data_type: &DataType) -> Vec<i32> {
    match data_type {
        DataType::Array(t) => ids_in(t.get_element_type()),
        DataType::Mapping(t) => {
            let mut ids = ids_in(t.key_type());
            ids.extend(ids_in(t.value_type()));
            ids
        }
        DataType::Row(t) => {
            let mut ids = Vec::new();
            for f in t.fields() {
                ids.push(f.field_id);
                ids.extend(ids_in(f.data_type()));
            }
            ids
        }
        _ => Vec::new(),
    }
}

fn illegal(r: Result<Schema, Error>) -> String {
    match r {
        Err(Error::IllegalArgument { message }) => message,
        other => panic!("expected an illegal argument, got {other:?}"),
    }
}

fn invalid_table(r: Result<Schema, Error>) -> String {
    match r {
        Err(Error::InvalidTable { message }) => message,
        other => panic!("expected an invalid table, got {other:?}"),
    }
}

#[test]
fn ids_are_assigned_in_preorder() {
    let inner = DataTypes::row(vec![
        DataTypes::field("x", DataTypes::integer()),
        DataTypes::field("y", DataTypes::array(DataTypes::row(vec![DataTypes::field(
            "z",
            DataTypes::string(),
        )]))),
    ]);
    let schema = Schema::builder()
        .column("a", DataTypes::integer())
        .column("b", inner)
        .column("c", DataTypes::map(DataTypes::string(), DataTypes::bigint()))
        .build()
        .unwrap();
    let top: Vec<i32> = schema.columns().iter().map(|c| c.id()).collect();
    assert_eq!(top, vec![0, 1, 5]);
    assert_eq!(ids_in(schema.columns()[1].data_type()), vec![2, 3, 4]);
    assert_eq!(schema.highest_field_id(), 5);
    assert_eq!(schema.row_type().fields()[2].field_id, 5);
}

#[test]
fn ids_that_are_set_are_kept() {
    let schema = Schema::builder()
        .with_columns(vec![
            Column::new("a", DataTypes::integer()).with_id(7),
            Column::new(
                "b",
                DataTypes::row(vec![field("x", DataTypes::integer(), 9)]),
            )
            .with_id(3),
        ])
        .build()
        .unwrap();
    let top: Vec<i32> = schema.columns().iter().map(|c| c.id()).collect();
    assert_eq!(top, vec![7, 3]);
    assert_eq!(ids_in(schema.columns()[1].data_type()), vec![9]);
    assert_eq!(schema.highest_field_id(), 9);
}

#[test]
fn empty_schema_has_no_ids() {
    let schema = Schema::empty().unwrap();
    assert_eq!(schema.columns().len(), 0);
    assert_eq!(schema.highest_field_id(), -1);
}

#[test]
fn ids_are_refused() {
    let mixed = Schema::builder()
        .with_columns(vec![
            Column::new("a", DataTypes::integer()).with_id(0),
            Column::new("b", DataTypes::integer()),
        ])
        .build();
    assert_eq!(
        illegal(mixed),
        "All columns must have an id assigned, or none of them must."
    );

    let negative = Schema::builder()
        .with_columns(vec![Column::new("a", DataTypes::integer()).with_id(-5)])
        .build();
    assert_eq!(
        illegal(negative),
        "Column 'a' has invalid id -5; ids must be non-negative"
    );

    let duplicate = Schema::builder()
        .with_columns(vec![
            Column::new("a", DataTypes::integer()).with_id(4),
            Column::new("b", DataTypes::integer()).with_id(4),
        ])
        .build();
    assert_eq!(illegal(duplicate), "Duplicate field id 4 in schema");

    let nested_negative = Schema::builder()
        .with_columns(vec![Column::new(
            "a",
            DataTypes::row(vec![field("x", DataTypes::integer(), -2)]),
        )
        .with_id(0)])
        .build();
    assert_eq!(
        illegal(nested_negative),
        "Nested DataField in column 'a' has invalid id -2; ids must be non-negative"
    );

    let nested_duplicate = Schema::builder()
        .with_columns(vec![
            Column::new("a", DataTypes::integer()).with_id(1),
            Column::new(
                "b",
                DataTypes::row(vec![field("x", DataTypes::integer(), 1)]),
            )
            .with_id(2),
        ])
        .build();
    assert_eq!(
        illegal(nested_duplicate),
        "Duplicate field id 1 in schema (column 'b')"
    );

    let unassigned = Schema::builder()
        .with_columns(vec![Column::new(
            "a",
            DataTypes::row(vec![DataTypes::field("x", DataTypes::integer())]),
        )
        .with_id(0)])
        .build();
    assert_eq!(
        illegal(unassigned),
        "Top-level column ids are set but some nested DataField ids are unassigned; reassign all or none."
    );
}

#[test]
fn column_ids_are_assigned_or_refused() {
    let assigned = SchemaBuilder::assign_column_ids(vec![
        Column::new("a", DataTypes::integer()),
        Column::new("b", DataTypes::integer()),
    ])
    .unwrap();
    let ids: Vec<i32> = assigned.iter().map(|c| c.id()).collect();
    assert_eq!(ids, vec![0, 1]);

    let duplicate = SchemaBuilder::assign_column_ids(vec![
        Column::new("a", DataTypes::integer()).with_id(3),
        Column::new("b", DataTypes::integer()).with_id(3),
    ]);
    assert_eq!(
        duplicate.unwrap_err().message(),
        "Duplicate column id 3 in schema"
    );
}

#[test]
fn key_columns_are_not_nullable() {
    let schema = Schema::builder()
        .column("id", DataTypes::integer())
        .column("name", DataTypes::string())
        .with_comment("who")
        .primary_key(vec!["id"])
        .build()
        .unwrap();
    assert!(!schema.columns()[0].data_type().is_nullable());
    assert!(schema.columns()[1].data_type().is_nullable());
    assert_eq!(schema.columns()[1].comment(), Some("who"));
    let key: &PrimaryKey = schema.primary_key().unwrap();
    assert_eq!(key.constraint_name(), "PK_id");
    assert_eq!(schema.primary_key_indexes(), vec![0]);
    assert_eq!(schema.primary_key_column_names(), vec!["id"]);
    assert_eq!(schema.column_names(), vec!["id", "name"]);
}

#[test]
fn names_are_refused() {
    let duplicates = Schema::builder()
        .column("a", DataTypes::integer())
        .column("a", DataTypes::string())
        .build();
    assert_eq!(
        invalid_table(duplicates),
        "Duplicate column names found: {\"a\"}"
    );

    let no_key = Schema::builder()
        .column("a", DataTypes::integer())
        .primary_key(vec!["b"])
        .build();
    assert_eq!(
        invalid_table(no_key),
        "Primary key columns {\"b\"} not found in schema"
    );

    let no_auto = Schema::builder()
        .column("a", DataTypes::integer())
        .enable_auto_increment("b")
        .unwrap()
        .build();
    assert_eq!(
        illegal(no_auto),
        "Auto increment column 'b' is not found in the schema columns."
    );

    let two_autos = Schema::builder()
        .enable_auto_increment("a")
        .unwrap()
        .enable_auto_increment("b");
    assert_eq!(
        two_autos.err().unwrap().message(),
        "Multiple auto increment columns are not supported yet."
    );
}

#[test]
fn columns_come_from_a_row_type() {
    let row = DataTypes::row(vec![
        DataTypes::field("a", DataTypes::integer()),
        DataTypes::field("b", DataTypes::string()),
    ]);
    let schema = Schema::builder().with_row_type(&row).build().unwrap();
    assert_eq!(schema.column_names(), vec!["a", "b"]);
    assert_eq!(schema.columns()[1].id(), 1);
}

#[test]
fn a_schema_is_built_again_from_what_it_holds() {
    let nested = DataTypes::row(vec![
        DataTypes::field("x", DataTypes::integer()),
        DataTypes::field("y", DataTypes::map(DataTypes::string(), DataTypes::bigint())),
    ]);
    let schema = Schema::builder()
        .column("a", DataTypes::integer())
        .with_comment("the key")
        .column("b", nested)
        .primary_key_named("pk", vec!["a"])
        .enable_auto_increment("a")
        .unwrap()
        .build()
        .unwrap();
    let key = schema.primary_key().unwrap();
    let again = Schema::builder()
        .with_columns(schema.columns().to_vec())
        .primary_key_named(key.constraint_name(), key.column_names().to_vec())
        .enable_auto_increment(schema.auto_increment_col_names()[0].as_str())
        .unwrap()
        .build()
        .unwrap();
    assert_eq!(again, schema);
    assert_eq!(again.highest_field_id(), 3);
}

#[test]
fn schemas_are_printed() {
    let every = vec![
        DataTypes::boolean(),
        DataTypes::tinyint(),
        DataTypes::smallint(),
        DataTypes::integer(),
        DataTypes::bigint(),
        DataTypes::float(),
        DataTypes::double(),
        DataTypes::character(3),
        DataTypes::string(),
        DataTypes::decimal(10, 2),
        DataTypes::date(),
        DataTypes::time(),
        DataTypes::timestamp(),
        DataTypes::timestamp_ltz(),
        DataTypes::bytes(),
        DataTypes::binary(4),
        DataTypes::array(DataTypes::integer().as_non_nullable()),
        DataTypes::row(vec![
            DataField::new("x", DataTypes::integer(), Some("a \"note\"".to_string())),
            DataTypes::field("y", DataTypes::row(vec![])),
        ]),
    ];
    let mut builder = Schema::builder();
    for (i, t) in every.into_iter().enumerate() {
        assert_eq!(t.to_debug_string(), format!("{t:?}"));
        builder = builder.column(format!("c{i}"), t).with_comment("c");
    }
    let schema = builder.primary_key(vec!["c3"]).build().unwrap();
    assert_eq!(schema.to_debug_string(), format!("{schema:?}"));
    let empty = Schema::empty().unwrap();
    assert_eq!(empty.to_debug_string(), format!("{empty:?}"));
    assert_eq!(
        DataTypes::map(DataTypes::string(), DataTypes::integer()).to_debug_string(),
        "Map(MapType { nullable: true, key_type: String(StringType { nullable: true }), value_type: Int(IntType { nullable: true }) })"
    );
}
