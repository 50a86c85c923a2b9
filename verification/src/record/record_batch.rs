//! Batches of rows, column by column.

use std::sync::Arc;

use vstd::prelude::*;

use crate::error::{Error, ErrorView, Result};
use crate::row::datum::{self, Datum, DatumView};

verus! {

/// Rows as columns of equal length.
#[derive(Debug, Clone)]
pub struct RecordBatch {
    columns: Vec<Vec<Datum<'static>>>,
    row_count: usize,
}

/// A [`RecordBatch`] as a value.
pub struct RecordBatchView {
    pub columns: Seq<Seq<DatumView>>,
    pub row_count: nat,
}

/// The values of columns.
pub open spec fn column_values(columns: Seq<Vec<Datum<'static>>>) -> Seq<Seq<DatumView>> {
    Seq::new(columns.len(), |i: int| datum::datum_views(columns[i]@))
}

impl View for RecordBatch {
    type V = RecordBatchView;

    closed spec fn view(&self) -> RecordBatchView {
        RecordBatchView {
            columns: column_values(self.columns@),
            row_count: self.row_count as nat,
        }
    }
}

impl RecordBatchView {
    /// Whether every column holds a value for each row.
    pub open spec fn rectangular(self) -> bool {
        forall|i: int|
            0 <= i < self.columns.len() ==> (#[trigger] self.columns[i]).len() == self.row_count
    }
}

impl RecordBatch {
    /// A batch of the given columns: at least one, all of the same length.
    pub fn try_new(columns: Vec<Vec<Datum<'static>>>) -> (r: Result<Self>)
        ensures
            match r {
                Ok(batch) => {
                    &&& columns@.len() > 0
                    &&& batch@.columns == column_values(columns@)
                    &&& batch@.row_count == columns@[0]@.len()
                    &&& batch@.rectangular()
                },
                Err(e) => {
                    if columns@.len() == 0 {
                        e@ == ErrorView::IllegalArgument(
                            "A record batch must have at least one column"@,
                        )
                    } else {
                        &&& e@ == ErrorView::IllegalArgument(
                            "All columns of a record batch must have the same length"@,
                        )
                        &&& exists|i: int|
                            0 <= i < columns@.len() && (#[trigger] columns@[i])@.len()
                                != columns@[0]@.len()
                    }
                },
            },
    {
        if columns.len() == 0 {
            return Err(Error::illegal_argument("A record batch must have at least one column"));
        }
        let row_count: usize = columns[0].len();
        let mut i: usize = 0;
        while i < columns.len()
            invariant
                i <= columns@.len(),
                columns@.len() > 0,
                row_count == columns@[0]@.len(),
                forall|j: int| 0 <= j < i ==> (#[trigger] columns@[j])@.len() == row_count,
            decreases columns@.len() - i,
        {
            if columns[i].len() != row_count {
                return Err(
                    Error::illegal_argument(
                        "All columns of a record batch must have the same length",
                    ),
                );
            }
            i = i + 1;
        }
        Ok(RecordBatch { columns, row_count })
    }

    /// A batch of `row_count` rows with the given columns.
    pub fn of_columns(columns: Vec<Vec<Datum<'static>>>, row_count: usize) -> (r: Self)
        requires
            forall|i: int| 0 <= i < columns@.len() ==> (#[trigger] columns@[i])@.len() == row_count,
        ensures
            r@ == (RecordBatchView {
                columns: column_values(columns@),
                row_count: row_count as nat,
            }),
            r@.rectangular(),
    {
        RecordBatch { columns, row_count }
    }

    /// A batch of empty columns.
    pub fn new_empty(column_count: usize) -> (r: Self)
        ensures
            r@.columns == Seq::new(column_count as nat, |i: int| Seq::<DatumView>::empty()),
            r@.row_count == 0,
            r@.rectangular(),
    {
        let mut columns: Vec<Vec<Datum<'static>>> = Vec::new();
        let mut i: usize = 0;
        while i < column_count
            invariant
                i <= column_count,
                columns@.len() == i,
                forall|j: int| 0 <= j < i ==> (#[trigger] columns@[j])@.len() == 0,
            decreases column_count - i,
        {
            columns.push(Vec::new());
            i = i + 1;
        }
        let r = RecordBatch { columns, row_count: 0 };
        assert forall|j: int| 0 <= j < column_count implies #[trigger] r@.columns[j] == Seq::<
            DatumView,
        >::empty() by {
            assert(columns@[j]@.len() == 0);
            assert(r@.columns[j] =~= Seq::<DatumView>::empty());
        }
        assert(r@.columns =~= Seq::new(column_count as nat, |i: int| Seq::<DatumView>::empty()));
        r
    }

    pub fn num_rows(&self) -> (r: usize)
        ensures
            r == self@.row_count,
    {
        self.row_count
    }

    pub fn num_columns(&self) -> (r: usize)
        ensures
            r == self@.columns.len(),
    {
        self.columns.len()
    }

    /// The values of a column.
    pub fn column(&self, i: usize) -> (r: &Vec<Datum<'static>>)
        requires
            i < self@.columns.len(),
        ensures
            datum::datum_views(r@) == self@.columns[i as int],
    {
        &self.columns[i]
    }
}

/// One row of a batch.
#[derive(Debug, Clone)]
pub struct ColumnarRow {
    pub record_batch: Arc<RecordBatch>,
    pub row_id: usize,
}

impl ColumnarRow {
    pub fn new_with_row_id(record_batch: Arc<RecordBatch>, row_id: usize) -> (r: Self)
        ensures
            r == (ColumnarRow { record_batch, row_id }),
    {
        ColumnarRow { record_batch, row_id }
    }
}

} // verus!
