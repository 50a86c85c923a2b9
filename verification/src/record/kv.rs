//! What reading key-value records needs.

use std::sync::Arc;

use vstd::prelude::*;

use crate::error::{ErrorView, Result};
use crate::metadata::schema::{Schema, SchemaView};

verus! {

/// How many bytes the schema id takes in front of a row.
pub const SCHEMA_ID_LENGTH: usize = 2;

/// Knows the schemas that rows were written with.
pub trait SchemaGetter: Send + Sync {
    /// The schema with an id, or why there is none.
    spec fn schema_of(&self, schema_id: i16) -> core::result::Result<SchemaView, ErrorView>;

    fn get_schema(&self, schema_id: i16) -> (r: Result<Arc<Schema>>)
        ensures
            match r {
                Ok(schema) => self.schema_of(schema_id) == Ok::<SchemaView, ErrorView>(
                    (*schema)@,
                ),
                Err(e) => self.schema_of(schema_id) == Err::<SchemaView, ErrorView>(e@),
            },
    ;
}

/// Knows one schema, and takes it for every id.
pub struct StaticSchemaGetter {
    schema: Arc<Schema>,
}

impl StaticSchemaGetter {
    pub closed spec fn schema_view(&self) -> SchemaView {
        (*self.schema)@
    }

    pub fn new(schema: Arc<Schema>) -> (r: Self)
        ensures
            r.schema_view() == (*schema)@,
    {
        StaticSchemaGetter { schema }
    }
}

impl SchemaGetter for StaticSchemaGetter {
    open spec fn schema_of(&self, schema_id: i16) -> core::result::Result<SchemaView, ErrorView> {
        Ok(self.schema_view())
    }

    fn get_schema(&self, _schema_id: i16) -> (r: Result<Arc<Schema>>) {
        Ok(self.schema.clone())
    }
}

/// A getter of one schema has it for every id.
pub proof fn one_schema_for_every_id(getter: StaticSchemaGetter, id: i16)
    ensures
        getter.schema_of(id) == Ok::<SchemaView, ErrorView>(getter.schema_view()),
{
}

} // verus!
