use fluss::row::{Datum, GenericRow, InternalRow};

#[test]
fn is_null_at_checks_datum_nullity() {
    let mut row = GenericRow::new(2);
    row.set_field(0, Datum::Null);
    row.set_field(1, 42_i32);

    assert!(row.is_null_at(0).unwrap());
    assert!(!row.is_null_at(1).unwrap());
}

#[test]
fn is_null_at_out_of_bounds_returns_error() {
    let row = GenericRow::from_data(vec![42_i32]);
    let err = row.is_null_at(5).unwrap_err();
    assert!(
        err.message().contains("out of bounds"),
        "Expected out of bounds error, got: {err:?}"
    );
}

#[test]
fn new_initializes_nulls() {
    let row = GenericRow::new(3);
    assert_eq!(row.get_field_count(), 3);
    assert!(row.is_null_at(0).unwrap());
    assert!(row.is_null_at(1).unwrap());
    assert!(row.is_null_at(2).unwrap());
}

#[test]
fn partial_row_for_delete() {
    // Simulates delete scenario: only primary key (field 0) is set
    let mut row = GenericRow::new(3);
    row.set_field(0, 123_i32);
    // Fields 1 and 2 remain null
    assert_eq!(row.get_field_count(), 3);
    assert_eq!(row.get_int(0).unwrap(), 123);
    assert!(row.is_null_at(1).unwrap());
    assert!(row.is_null_at(2).unwrap());
}

#[test]
fn type_mismatch_returns_error() {
    let row = GenericRow::from_data(vec![Datum::Int64(999)]);
    let err = row.get_string(0).unwrap_err();
    assert!(
        err.message().contains("type mismatch"),
        "Expected type mismatch error, got: {err:?}"
    );
}

#[test]
fn out_of_bounds_returns_error() {
    let row = GenericRow::from_data(vec![42_i32]);
    let err = row.get_int(5).unwrap_err();
    assert!(
        err.message().contains("out of bounds"),
        "Expected out of bounds error, got: {err:?}"
    );
}
