//! Columns, primary keys and schemas, and the builder that checks them.

use std::collections::HashSet;

use vstd::prelude::*;

use crate::error::{Error, ErrorView, Result};
use crate::metadata::datatype::{
    self, DataField, DataType, FieldView, RowType, RowView, TypeView,
};
use crate::metadata::field_ids::{
    self, collect_field_id_state, collect_nested_field_ids, reassign_field_ids,
};
use crate::metadata::type_text;
use crate::name_list::{self, clone_list, find_absent, find_repeated, indices_of};
use crate::text::{self, concat3, concat5, i64_to_text, Text};

verus! {

/// Sentinel for a column whose stable id has not yet been assigned.
pub const UNKNOWN_COLUMN_ID: i32 = -1;

/// A column of a table. As a value it is a field: its comment is the field's
/// description and its id the field's id.
#[derive(Debug, PartialEq, Eq)]
pub struct Column {
    name: String,
    data_type: DataType,
    comment: Option<String>,
    id: i32,
}

impl View for Column {
    type V = FieldView;

    closed spec fn view(&self) -> FieldView {
        FieldView {
            name: self.name@,
            data_type: self.data_type@,
            description: text::opt_text(self.comment),
            field_id: self.id,
        }
    }
}

impl Clone for Column {
    fn clone(&self) -> (r: Self)
        ensures
            r@ == self@,
    {
        Column {
            name: self.name.clone(),
            data_type: self.data_type.clone(),
            comment: text::clone_opt(&self.comment),
            id: self.id,
        }
    }
}

impl Column {
    pub fn new<N: Text>(name: N, data_type: DataType) -> (r: Self)
        ensures
            r@ == (FieldView {
                name: name.text(),
                data_type: data_type@,
                description: None,
                field_id: UNKNOWN_COLUMN_ID,
            }),
    {
        Column { name: name.into_text(), data_type, comment: None, id: UNKNOWN_COLUMN_ID }
    }

    /// The column as diagnostics print it.
    pub fn to_debug_string(&self) -> (r: String)
        ensures
            r@ == column_text(self@),
    {
        let mut out = concat5(
            "Column { name: ",
            text::quote(self.name.as_str()).as_str(),
            ", data_type: ",
            self.data_type.to_debug_string().as_str(),
            ", comment: ",
        );
        out.append(text::print_opt(&self.comment).as_str());
        out.append(", id: ");
        out.append(i64_to_text(self.id as i64).as_str());
        out.append(" }");
        out
    }

    pub fn with_comment<C: Text>(self, comment: C) -> (r: Self)
        ensures
            r@ == (FieldView { description: Some(comment.text()), ..self@ }),
    {
        Column {
            name: self.name,
            data_type: self.data_type,
            comment: Some(comment.into_text()),
            id: self.id,
        }
    }

    pub fn with_data_type(&self, data_type: DataType) -> (r: Self)
        ensures
            r@ == (FieldView { data_type: data_type@, ..self@ }),
    {
        Column {
            name: self.name.clone(),
            data_type,
            comment: text::clone_opt(&self.comment),
            id: self.id,
        }
    }

    pub fn with_id(self, id: i32) -> (r: Self)
        ensures
            r@ == (FieldView { field_id: id, ..self@ }),
    {
        Column { name: self.name, data_type: self.data_type, comment: self.comment, id }
    }

    pub fn name(&self) -> (r: &str)
        ensures
            r@ == self@.name,
    {
        self.name.as_str()
    }

    pub fn data_type(&self) -> (r: &DataType)
        ensures
            r@ == self@.data_type,
    {
        &self.data_type
    }

    pub fn comment(&self) -> (r: Option<&str>)
        ensures
            text::opt_str(r) == self@.description,
    {
        text::as_opt_str(&self.comment)
    }

    /// Returns the stable column id, or [`UNKNOWN_COLUMN_ID`] when the
    /// id has not yet been assigned by a [`SchemaBuilder`].
    pub fn id(&self) -> (r: i32)
        ensures
            r == self@.field_id,
    {
        self.id
    }
}

/// A column as diagnostics print it.
pub open spec fn column_text(c: FieldView) -> Seq<char> {
    "Column { name: "@ + text::quoted(c.name) + ", data_type: "@ + type_text::type_text(
        c.data_type,
    ) + ", comment: "@ + text::opt_text_shown(c.description) + ", id: "@ + text::int_text(
        c.field_id as int,
    ) + " }"@
}

/// The values of columns.
pub open spec fn column_views(columns: Seq<Column>) -> Seq<FieldView> {
    Seq::new(columns.len(), |i: int| columns[i]@)
}

/// The names of fields.
pub open spec fn field_names(fields: Seq<FieldView>) -> Seq<Seq<char>> {
    Seq::new(fields.len(), |i: int| fields[i].name)
}

/// Copies columns.
pub fn clone_columns(columns: &[Column]) -> (r: Vec<Column>)
    ensures
        column_views(r@) == column_views(columns@),
{
    let mut out: Vec<Column> = Vec::new();
    let mut i: usize = 0;
    while i < columns.len()
        invariant
            i <= columns@.len(),
            out@.len() == i,
            forall|j: int| 0 <= j < i ==> (#[trigger] out@[j])@ == columns@[j]@,
        decreases columns@.len() - i,
    {
        out.push(columns[i].clone());
        i = i + 1;
    }
    assert(column_views(out@) =~= column_views(columns@));
    out
}

/// Copies the names of columns.
fn names_of(columns: &[Column]) -> (r: Vec<String>)
    ensures
        text::names(r@) == field_names(column_views(columns@)),
{
    let mut out: Vec<String> = Vec::new();
    let mut i: usize = 0;
    while i < columns.len()
        invariant
            i <= columns@.len(),
            out@.len() == i,
            forall|j: int| 0 <= j < i ==> (#[trigger] out@[j])@ == columns@[j]@.name,
        decreases columns@.len() - i,
    {
        out.push(columns[i].name.clone());
        i = i + 1;
    }
    assert(text::names(out@) =~= field_names(column_views(columns@)));
    out
}

/// Whether no column has an id.
pub open spec fn no_id(columns: Seq<FieldView>) -> bool {
    forall|i: int| 0 <= i < columns.len() ==> (#[trigger] columns[i]).field_id == UNKNOWN_COLUMN_ID
}

/// Whether every column has an id.
pub open spec fn every_id(columns: Seq<FieldView>) -> bool {
    forall|i: int| 0 <= i < columns.len() ==> (#[trigger] columns[i]).field_id != UNKNOWN_COLUMN_ID
}

/// Whether there are enough ids for columns that have none.
pub open spec fn numberable(columns: Seq<FieldView>) -> bool {
    no_id(columns) ==> field_ids::field_ids(columns).len() <= i32::MAX + 1
}

/// What is wrong with the id at place `p` of the ids of columns.
pub open spec fn id_fault(columns: Seq<FieldView>, p: int) -> Seq<char> {
    let id = field_ids::field_ids(columns)[p];
    let c = field_ids::owner(columns, p);
    let name = columns[c].name;
    if p == field_ids::field_ids(columns.take(c)).len() {
        column_fault(name, id)
    } else {
        nested_fault(name, id)
    }
}

/// Why the ids of columns are refused, if they are.
pub open spec fn id_error(columns: Seq<FieldView>) -> Option<Seq<char>> {
    if !no_id(columns) && !every_id(columns) {
        Some("All columns must have an id assigned, or none of them must."@)
    } else if !every_id(columns) {
        None
    } else if field_ids::field_ids(columns).contains(UNKNOWN_COLUMN_ID) {
        Some(
            "Top-level column ids are set but some nested DataField ids are unassigned; reassign all or none."@,
        )
    } else {
        match field_ids::first_fault(field_ids::field_ids(columns)) {
            Some(p) => Some(id_fault(columns, p)),
            None => None,
        }
    }
}

/// Columns with their ids: those that they have, or 0, 1, 2 and so on in
/// preorder.
pub open spec fn with_ids(columns: Seq<FieldView>) -> Seq<FieldView> {
    if every_id(columns) {
        columns
    } else {
        field_ids::renumber_fields(columns, 0)
    }
}

/// Counts the columns that have an id.
fn count_with_id(columns: &[Column]) -> (r: usize)
    ensures
        r <= columns@.len(),
        r == 0 <==> no_id(column_views(columns@)),
        r == columns@.len() <==> every_id(column_views(columns@)),
{
    let ghost all = column_views(columns@);
    let mut count: usize = 0;
    let mut i: usize = 0;
    while i < columns.len()
        invariant
            count <= i <= columns@.len(),
            all == column_views(columns@),
            count == 0 <==> forall|j: int| 0 <= j < i ==> (#[trigger] all[j]).field_id == UNKNOWN_COLUMN_ID,
            count == i <==> forall|j: int| 0 <= j < i ==> (#[trigger] all[j]).field_id != UNKNOWN_COLUMN_ID,
        decreases columns@.len() - i,
    {
        assert(all[i as int] == columns@[i as int]@);
        if columns[i].id != UNKNOWN_COLUMN_ID {
            count = count + 1;
        }
        i = i + 1;
    }
    count
}

/// The ids inside the types of fields.
spec fn inner_ids(fields: Seq<FieldView>) -> Seq<i32>
    decreases fields.len(),
{
    if fields.len() == 0 {
        Seq::empty()
    } else {
        inner_ids(fields.drop_last()) + field_ids::nested_ids(fields.last().data_type)
    }
}

/// The ids of fields themselves.
pub open spec fn top_ids(fields: Seq<FieldView>) -> Seq<i32> {
    Seq::new(fields.len(), |i: int| fields[i].field_id)
}

proof fn lemma_top_and_inner(fields: Seq<FieldView>)
    ensures
        field_ids::highest(field_ids::field_ids(fields)) == if field_ids::highest(top_ids(fields))
            >= field_ids::highest(inner_ids(fields)) {
            field_ids::highest(top_ids(fields))
        } else {
            field_ids::highest(inner_ids(fields))
        },
        forall|x: i32|
            #[trigger] field_ids::field_ids(fields).contains(x) <==> top_ids(fields).contains(x)
                || inner_ids(fields).contains(x),
    decreases fields.len(),
{
    if fields.len() > 0 {
        let front = fields.drop_last();
        let last = fields.last();
        let own = seq![last.field_id];
        let nested = field_ids::nested_ids(last.data_type);
        lemma_top_and_inner(front);
        assert(top_ids(fields) =~= top_ids(front) + own);
        assert(own.drop_last() =~= Seq::<i32>::empty());
        field_ids::highest_of_concatenation(field_ids::field_ids(front), own + nested);
        field_ids::highest_of_concatenation(own, nested);
        field_ids::highest_of_concatenation(top_ids(front), own);
        field_ids::highest_of_concatenation(inner_ids(front), nested);
        assert forall|x: i32|
            #[trigger] field_ids::field_ids(fields).contains(x) <==> top_ids(fields).contains(x)
                || inner_ids(fields).contains(x) by {
            field_ids::contains_of_concatenation(field_ids::field_ids(front), own + nested, x);
            field_ids::contains_of_concatenation(own, nested, x);
            field_ids::contains_of_concatenation(top_ids(front), own, x);
            field_ids::contains_of_concatenation(inner_ids(front), nested, x);
            assert(top_ids(front).contains(x) || inner_ids(front).contains(x)
                <==> field_ids::field_ids(front).contains(x));
        }
    } else {
        assert(top_ids(fields) =~= Seq::<i32>::empty());
        assert forall|x: i32|
            #[trigger] field_ids::field_ids(fields).contains(x) <==> top_ids(fields).contains(x)
                || inner_ids(fields).contains(x) by {}
    }
}

proof fn lemma_all_assigned(ids: Seq<i32>)
    requires
        !ids.contains(UNKNOWN_COLUMN_ID),
    ensures
        field_ids::assigned_ids(ids) == ids,
    decreases ids.len(),
{
    reveal(Seq::filter);
    if ids.len() > 0 {
        assert(!ids.drop_last().contains(UNKNOWN_COLUMN_ID)) by {
            if ids.drop_last().contains(UNKNOWN_COLUMN_ID) {
                let i = choose|i: int|
                    0 <= i < ids.drop_last().len() && ids.drop_last()[i] == UNKNOWN_COLUMN_ID;
                assert(ids[i] == UNKNOWN_COLUMN_ID);
            }
        }
        lemma_all_assigned(ids.drop_last());
        assert(ids[ids.len() - 1] != UNKNOWN_COLUMN_ID);
        assert(ids.drop_last().push(ids.last()) =~= ids);
    }
}

/// Notes the ids inside the types of columns: the largest, and whether one was
/// not assigned.
fn nested_id_state(columns: &[Column]) -> (r: (i32, bool))
    ensures
        r.0 == field_ids::highest(inner_ids(column_views(columns@))),
        r.1 == inner_ids(column_views(columns@)).contains(UNKNOWN_COLUMN_ID),
{
    let ghost all = column_views(columns@);
    let mut max_nested_id: i32 = -1;
    let mut has_unassigned_nested = false;
    let mut i: usize = 0;
    assert(inner_ids(all.take(0)) =~= Seq::<i32>::empty());
    while i < columns.len()
        invariant
            i <= columns@.len(),
            all == column_views(columns@),
            max_nested_id >= -1,
            max_nested_id == field_ids::highest(inner_ids(all.take(i as int))),
            has_unassigned_nested == inner_ids(all.take(i as int)).contains(UNKNOWN_COLUMN_ID),
        decreases columns@.len() - i,
    {
        proof {
            let front = all.take(i as int);
            let last = all[i as int];
            assert(all.take(i + 1).drop_last() =~= front);
            assert(all.take(i + 1).last() == last);
            field_ids::highest_of_concatenation(
                inner_ids(front),
                field_ids::nested_ids(last.data_type),
            );
            field_ids::contains_of_concatenation(
                inner_ids(front),
                field_ids::nested_ids(last.data_type),
                UNKNOWN_COLUMN_ID,
            );
        }
        collect_field_id_state(
            &columns[i].data_type,
            &mut max_nested_id,
            &mut has_unassigned_nested,
        );
        i = i + 1;
    }
    assert(all.take(i as int) =~= all);
    (max_nested_id, has_unassigned_nested)
}

/// Whether a set holds exactly the ids of a list.
spec fn holds(seen: Set<i32>, ids: Seq<i32>) -> bool {
    forall|x: i32| seen.contains(x) <==> #[trigger] ids.contains(x)
}

proof fn lemma_holds_push(seen: Set<i32>, ids: Seq<i32>, id: i32)
    requires
        holds(seen, ids),
    ensures
        holds(seen.insert(id), ids.push(id)),
{
    assert forall|x: i32| seen.insert(id).contains(x) <==> #[trigger] ids.push(id).contains(x) by {
        vstd::seq_lib::lemma_seq_contains_after_push(ids, id, x);
        assert(seen.contains(x) <==> ids.contains(x));
    }
}

/// What is wrong with an id inside the column `name`.
pub open spec fn nested_fault(name: Seq<char>, id: i32) -> Seq<char> {
    if id < 0 {
        "Nested DataField in column '"@ + name + "' has invalid id "@ + text::int_text(id as int)
            + "; ids must be non-negative"@
    } else {
        "Duplicate field id "@ + text::int_text(id as int) + " in schema (column '"@ + name + "')"@
    }
}

/// What is wrong with the id of the column `name`.
pub open spec fn column_fault(name: Seq<char>, id: i32) -> Seq<char> {
    if id < 0 {
        "Column '"@ + name + "' has invalid id "@ + text::int_text(id as int)
            + "; ids must be non-negative"@
    } else {
        "Duplicate field id "@ + text::int_text(id as int) + " in schema"@
    }
}

/// Checks the ids inside one column against those seen before it.
fn check_nested_ids(
    name: &str,
    nested_ids: &Vec<i32>,
    seen: &mut HashSet<i32>,
    Ghost(before): Ghost<Seq<i32>>,
) -> (r: Result<()>)
    requires
        holds(old(seen)@, before),
        field_ids::first_fault(before) is None,
    ensures
        match r {
            Ok(_) => {
                &&& field_ids::first_fault(before + nested_ids@) is None
                &&& holds(final(seen)@, before + nested_ids@)
            },
            Err(e) => {
                let fault = field_ids::first_fault(before + nested_ids@);
                &&& fault is Some
                &&& before.len() <= fault->0 < before.len() + nested_ids@.len()
                &&& e@ == ErrorView::IllegalArgument(
                    nested_fault(name@, (before + nested_ids@)[fault->0]),
                )
            },
        },
{
    broadcast use vstd::std_specs::hash::group_hash_axioms;

    let ghost ids = before + nested_ids@;
    let mut j: usize = 0;
    assert(ids.take(before.len() as int) =~= before);
    while j < nested_ids.len()
        invariant
            j <= nested_ids@.len(),
            ids == before + nested_ids@,
            field_ids::first_fault(ids.take(before.len() + j)) is None,
            holds(seen@, ids.take(before.len() + j)),
        decreases nested_ids@.len() - j,
    {
        let id: i32 = nested_ids[j];
        let ghost p = before.len() + j;
        assert(ids[p] == id);
        proof {
            field_ids::first_fault_at(ids, p);
            assert(seen@.contains(id) <==> ids.take(p).contains(id));
            lemma_holds_push(seen@, ids.take(p), id);
            assert(ids.take(p).push(id) =~= ids.take(p + 1));
        }
        if id < 0 {
            return Err(
                Error::illegal_argument(
                    concat5(
                        "Nested DataField in column '",
                        name,
                        "' has invalid id ",
                        i64_to_text(id as i64).as_str(),
                        "; ids must be non-negative",
                    ),
                ),
            );
        }
        if !seen.insert(id) {
            return Err(
                Error::illegal_argument(
                    concat5(
                        "Duplicate field id ",
                        i64_to_text(id as i64).as_str(),
                        " in schema (column '",
                        name,
                        "')",
                    ),
                ),
            );
        }
        j = j + 1;
    }
    assert(ids.take(ids.len() as int) =~= ids);
    Ok(())
}

/// Checks ids that are all there, and gives the largest id of a column.
#[verifier::spinoff_prover]
#[verifier::rlimit(40)]
fn check_ids(columns: &[Column]) -> (r: Result<i32>)
    requires
        !field_ids::field_ids(column_views(columns@)).contains(UNKNOWN_COLUMN_ID),
    ensures
        match r {
            Ok(max_id) => {
                &&& field_ids::first_fault(field_ids::field_ids(column_views(columns@))) is None
                &&& max_id == field_ids::highest(top_ids(column_views(columns@)))
            },
            Err(e) => {
                let fault = field_ids::first_fault(field_ids::field_ids(column_views(columns@)));
                &&& fault is Some
                &&& e@ == ErrorView::IllegalArgument(id_fault(column_views(columns@), fault->0))
            },
        },
{
    broadcast use vstd::std_specs::hash::group_hash_axioms;

    let ghost all = column_views(columns@);
    let ghost ids = field_ids::field_ids(all);
    let mut seen: HashSet<i32> = HashSet::new();
    let mut max_id: i32 = -1;
    let mut i: usize = 0;
    proof {
        assert(field_ids::field_ids(all.take(0)) =~= Seq::<i32>::empty());
        assert(top_ids(all.take(0)) =~= Seq::<i32>::empty());
    }
    while i < columns.len()
        invariant
            i <= columns@.len(),
            all == column_views(columns@),
            ids == field_ids::field_ids(all),
            !ids.contains(UNKNOWN_COLUMN_ID),
            max_id == field_ids::highest(top_ids(all.take(i as int))),
            field_ids::first_fault(field_ids::field_ids(all.take(i as int))) is None,
            holds(seen@, field_ids::field_ids(all.take(i as int))),
        decreases columns@.len() - i,
    {
        let col = &columns[i];
        let ghost front = field_ids::field_ids(all.take(i as int));
        let ghost nested = field_ids::nested_ids(col.data_type@);
        let ghost own = front.push(col.id);
        proof {
            assert(all[i as int] == col@);
            lemma_column_ids(all, i as int);
            assert(ids.take(front.len() as int + 1).take(front.len() as int) =~= front);
            assert(ids.take(front.len() as int) =~= front);
            field_ids::first_fault_at(ids, front.len() as int);
            assert(seen@.contains(col.id) <==> front.contains(col.id));
            lemma_holds_push(seen@, front, col.id);
            field_ids::owner_at(all, i as int, front.len() as int);
        }
        if col.id < 0 {
            return Err(
                Error::illegal_argument(
                    concat5(
                        "Column '",
                        col.name.as_str(),
                        "' has invalid id ",
                        i64_to_text(col.id as i64).as_str(),
                        "; ids must be non-negative",
                    ),
                ),
            );
        }
        if !seen.insert(col.id) {
            return Err(
                Error::illegal_argument(
                    concat3(
                        "Duplicate field id ",
                        i64_to_text(col.id as i64).as_str(),
                        " in schema",
                    ),
                ),
            );
        }
        if col.id > max_id {
            max_id = col.id;
        }
        let mut nested_ids: Vec<i32> = Vec::new();
        collect_nested_field_ids(&col.data_type, &mut nested_ids);
        proof {
            assert(!nested.contains(UNKNOWN_COLUMN_ID)) by {
                if nested.contains(UNKNOWN_COLUMN_ID) {
                    let k = choose|k: int| 0 <= k < nested.len() && nested[k] == UNKNOWN_COLUMN_ID;
                    assert((own + nested)[own.len() + k] == UNKNOWN_COLUMN_ID);
                    assert(ids[own.len() + k] == UNKNOWN_COLUMN_ID);
                }
            }
            lemma_all_assigned(nested);
            assert(nested_ids@ =~= nested);
            assert(ids.take(front.len() as int + 1) =~= own);
        }
        match check_nested_ids(col.name.as_str(), &nested_ids, &mut seen, Ghost(own)) {
            Ok(_) => {},
            Err(e) => {
                proof {
                    let n = (own + nested).len() as int;
                    let p = field_ids::first_fault(own + nested)->0;
                    field_ids::first_fault_of_prefix(ids, n);
                    field_ids::owner_at(all, i as int, p);
                    assert(ids[p] == ids.take(n)[p]);
                }
                return Err(e);
            },
        }
        proof {
            assert(all.take(i + 1).drop_last() =~= all.take(i as int));
            assert(top_ids(all.take(i + 1)).drop_last() =~= top_ids(all.take(i as int)));
        }
        i = i + 1;
    }
    assert(all.take(i as int) =~= all);
    Ok(max_id)
}

/// The ids up to and with the column at `i` start all ids.
proof fn lemma_column_ids(all: Seq<FieldView>, i: int)
    requires
        0 <= i < all.len(),
    ensures
        ({
            let ids = field_ids::field_ids(all);
            let front = field_ids::field_ids(all.take(i));
            let own = front.push(all[i].field_id);
            let nested = field_ids::nested_ids(all[i].data_type);
            &&& field_ids::field_ids(all.take(i + 1)) == own + nested
            &&& own.len() + nested.len() <= ids.len()
            &&& ids.take((own + nested).len() as int) == own + nested
            &&& ids.take(front.len() as int) == front
            &&& ids[front.len() as int] == all[i].field_id
        }),
{
    let ids = field_ids::field_ids(all);
    let front = field_ids::field_ids(all.take(i));
    let own = front.push(all[i].field_id);
    let nested = field_ids::nested_ids(all[i].data_type);
    field_ids::field_ids_step(all, i);
    field_ids::field_ids_of_prefix(all, i);
    field_ids::field_ids_of_prefix(all, i + 1);
    assert(field_ids::field_ids(all.take(i + 1)) =~= own + nested);
    assert(ids[front.len() as int] == ids.take((own + nested).len() as int)[front.len() as int]);
}

/// The key constraint of a table.
#[derive(Debug, PartialEq, Eq)]
pub struct PrimaryKey {
    constraint_name: String,
    column_names: Vec<String>,
}

/// A [`PrimaryKey`] as a value.
pub struct PrimaryKeyView {
    pub constraint_name: Seq<char>,
    pub column_names: Seq<Seq<char>>,
}

impl PrimaryKeyView {
    /// The key as diagnostics print it.
    pub open spec fn text(self) -> Seq<char> {
        "PrimaryKey { constraint_name: "@ + text::quoted(self.constraint_name)
            + ", column_names: "@ + text::list_text(self.column_names) + " }"@
    }
}

impl View for PrimaryKey {
    type V = PrimaryKeyView;

    closed spec fn view(&self) -> PrimaryKeyView {
        PrimaryKeyView {
            constraint_name: self.constraint_name@,
            column_names: text::names(self.column_names@),
        }
    }
}

impl Clone for PrimaryKey {
    fn clone(&self) -> (r: Self)
        ensures
            r@ == self@,
    {
        PrimaryKey {
            constraint_name: self.constraint_name.clone(),
            column_names: clone_list(&self.column_names),
        }
    }
}

impl PrimaryKey {
    pub fn new<N: Text>(constraint_name: N, column_names: Vec<String>) -> (r: Self)
        ensures
            r@ == (PrimaryKeyView {
                constraint_name: constraint_name.text(),
                column_names: text::names(column_names@),
            }),
    {
        PrimaryKey { constraint_name: constraint_name.into_text(), column_names }
    }

    /// The key as diagnostics print it.
    pub fn to_debug_string(&self) -> (r: String)
        ensures
            r@ == self@.text(),
    {
        concat5(
            "PrimaryKey { constraint_name: ",
            text::quote(self.constraint_name.as_str()).as_str(),
            ", column_names: ",
            text::print_list(&self.column_names).as_str(),
            " }",
        )
    }

    pub fn constraint_name(&self) -> (r: &str)
        ensures
            r@ == self@.constraint_name,
    {
        self.constraint_name.as_str()
    }

    pub fn column_names(&self) -> (r: &[String])
        ensures
            text::names(r@) == self@.column_names,
    {
        self.column_names.as_slice()
    }
}

/// The value of an optional key.
pub open spec fn opt_key(key: Option<PrimaryKey>) -> Option<PrimaryKeyView> {
    match key {
        Some(k) => Some(k@),
        None => None,
    }
}

/// The value of an optional borrowed key.
pub open spec fn opt_key_ref(key: Option<&PrimaryKey>) -> Option<PrimaryKeyView> {
    match key {
        Some(k) => Some(k@),
        None => None,
    }
}

fn clone_opt_key(key: &Option<PrimaryKey>) -> (r: Option<PrimaryKey>)
    ensures
        opt_key(r) == opt_key(*key),
{
    match key {
        Some(k) => Some(k.clone()),
        None => None,
    }
}

/// The columns and keys of a table.
#[derive(Debug, PartialEq, Eq)]
pub struct Schema {
    columns: Vec<Column>,
    primary_key: Option<PrimaryKey>,
    row_type: RowType,
    auto_increment_col_names: Vec<String>,
    highest_field_id: i32,
}

/// A [`Schema`] as a value.
pub struct SchemaView {
    pub columns: Seq<FieldView>,
    pub primary_key: Option<PrimaryKeyView>,
    pub row_type: RowView,
    pub auto_increment_col_names: Seq<Seq<char>>,
    pub highest_field_id: i32,
}

impl View for Schema {
    type V = SchemaView;

    closed spec fn view(&self) -> SchemaView {
        SchemaView {
            columns: column_views(self.columns@),
            primary_key: opt_key(self.primary_key),
            row_type: self.row_type@,
            auto_increment_col_names: text::names(self.auto_increment_col_names@),
            highest_field_id: self.highest_field_id,
        }
    }
}

impl SchemaView {
    /// The names of the columns.
    pub open spec fn column_names(self) -> Seq<Seq<char>> {
        field_names(self.columns)
    }

    /// The names of the key columns; none without a key.
    pub open spec fn key_names(self) -> Seq<Seq<char>> {
        match self.primary_key {
            Some(key) => key.column_names,
            None => Seq::empty(),
        }
    }

    /// The schema as diagnostics print it.
    pub open spec fn text(self) -> Seq<char> {
        "Schema { columns: ["@ + text::joined(
            Seq::new(self.columns.len(), |i: int| column_text(self.columns[i])),
            ", "@,
        ) + "], primary_key: "@ + match self.primary_key {
            Some(key) => "Some("@ + key.text() + ")"@,
            None => "None"@,
        } + ", row_type: "@ + type_text::row_text(self.row_type) + ", auto_increment_col_names: "@
            + text::list_text(self.auto_increment_col_names) + ", highest_field_id: "@
            + text::int_text(self.highest_field_id as int) + " }"@
    }

    /// What holds of every schema that a builder makes.
    pub open spec fn valid(self) -> bool {
        &&& self.auto_increment_col_names.len() <= 1
        &&& self.column_names().no_duplicates()
        &&& name_list::all_in(self.key_names(), self.column_names())
        &&& name_list::all_in(self.auto_increment_col_names, self.column_names())
        &&& self.row_type == RowView { nullable: true, fields: self.columns }
        &&& field_ids::first_fault(field_ids::field_ids(self.columns)) is None
        &&& self.highest_field_id == field_ids::highest(field_ids::field_ids(self.columns))
        &&& forall|i: int|
            0 <= i < self.columns.len() && self.key_names().contains(
                (#[trigger] self.columns[i]).name,
            ) ==> !self.columns[i].data_type.nullable()
    }
}

impl Clone for Schema {
    fn clone(&self) -> (r: Self)
        ensures
            r@ == self@,
    {
        Schema {
            columns: clone_columns(&self.columns),
            primary_key: clone_opt_key(&self.primary_key),
            row_type: self.row_type.clone(),
            auto_increment_col_names: clone_list(&self.auto_increment_col_names),
            highest_field_id: self.highest_field_id,
        }
    }
}

impl Schema {
    pub fn empty() -> (r: Result<Self>)
        ensures
            r is Ok,
            r->Ok_0@ == (SchemaView {
                columns: Seq::empty(),
                primary_key: None,
                row_type: RowView { nullable: true, fields: Seq::empty() },
                auto_increment_col_names: Seq::empty(),
                highest_field_id: (-1) as i32,
            }),
    {
        let b = Schema::builder();
        proof {
            lemma_empty_build(b@);
        }
        b.build()
    }

    pub fn builder() -> (r: SchemaBuilder)
        ensures
            r@ == (SchemaBuilderView {
                columns: Seq::empty(),
                primary_key: None,
                auto_increment_col_names: Seq::empty(),
            }),
    {
        SchemaBuilder::new()
    }

    pub fn columns(&self) -> (r: &[Column])
        ensures
            column_views(r@) == self@.columns,
    {
        self.columns.as_slice()
    }

    pub fn primary_key(&self) -> (r: Option<&PrimaryKey>)
        ensures
            opt_key_ref(r) == self@.primary_key,
    {
        match &self.primary_key {
            Some(k) => Some(k),
            None => None,
        }
    }

    pub fn row_type(&self) -> (r: &RowType)
        ensures
            r@ == self@.row_type,
    {
        &self.row_type
    }

    /// The positions of the key columns, in the order of the key.
    pub fn primary_key_indexes(&self) -> (r: Vec<usize>)
        ensures
            name_list::indices(r@) == name_list::positions(
                self@.key_names(),
                self@.column_names(),
            ),
    {
        match &self.primary_key {
            Some(key) => {
                let names = names_of(&self.columns);
                indices_of(&key.column_names, &names)
            },
            None => {
                let out: Vec<usize> = Vec::new();
                assert(name_list::indices(out@) =~= Seq::<int>::empty());
                out
            },
        }
    }

    pub fn primary_key_column_names(&self) -> (r: Vec<&str>)
        ensures
            text::str_names(r@) == self@.key_names(),
    {
        match &self.primary_key {
            Some(key) => name_list::borrow_list(&key.column_names),
            None => {
                let out: Vec<&str> = Vec::new();
                assert(text::str_names(out@) =~= Seq::<Seq<char>>::empty());
                out
            },
        }
    }

    pub fn column_names(&self) -> (r: Vec<&str>)
        ensures
            text::str_names(r@) == self@.column_names(),
    {
        let mut out: Vec<&str> = Vec::new();
        let mut i: usize = 0;
        while i < self.columns.len()
            invariant
                i <= self.columns@.len(),
                out@.len() == i,
                forall|j: int| 0 <= j < i ==> (#[trigger] out@[j])@ == self.columns@[j]@.name,
            decreases self.columns@.len() - i,
        {
            out.push(self.columns[i].name());
            i = i + 1;
        }
        assert(text::str_names(out@) =~= self@.column_names());
        out
    }

    /// The schema as diagnostics print it.
    pub fn to_debug_string(&self) -> (r: String)
        ensures
            r@ == self@.text(),
    {
        let mut parts: Vec<String> = Vec::new();
        let mut i: usize = 0;
        while i < self.columns.len()
            invariant
                i <= self.columns@.len(),
                parts@.len() == i,
                forall|j: int|
                    0 <= j < i ==> (#[trigger] parts@[j])@ == column_text(self.columns@[j]@),
            decreases self.columns@.len() - i,
        {
            parts.push(self.columns[i].to_debug_string());
            i = i + 1;
        }
        assert(text::names(parts@) =~= Seq::new(
            self@.columns.len(),
            |i: int| column_text(self@.columns[i]),
        ));
        let key = match &self.primary_key {
            Some(key) => concat3("Some(", key.to_debug_string().as_str(), ")"),
            None => "None".to_owned(),
        };
        let mut out = concat5(
            "Schema { columns: [",
            text::join(&parts, ", ").as_str(),
            "], primary_key: ",
            key.as_str(),
            ", row_type: ",
        );
        out.append(self.row_type.to_debug_string().as_str());
        out.append(", auto_increment_col_names: ");
        out.append(text::print_list(&self.auto_increment_col_names).as_str());
        out.append(", highest_field_id: ");
        out.append(i64_to_text(self.highest_field_id as i64).as_str());
        out.append(" }");
        out
    }

    pub fn auto_increment_col_names(&self) -> (r: &Vec<String>)
        ensures
            text::names(r@) == self@.auto_increment_col_names,
    {
        &self.auto_increment_col_names
    }

    pub fn highest_field_id(&self) -> (r: i32)
        ensures
            r == self@.highest_field_id,
    {
        self.highest_field_id
    }
}

/// A schema together with its server-assigned version id.
#[derive(Debug, PartialEq, Eq)]
pub struct SchemaInfo {
    schema: Schema,
    schema_id: i32,
}

/// A [`SchemaInfo`] as a value.
pub struct SchemaInfoView {
    pub schema: SchemaView,
    pub schema_id: i32,
}

impl View for SchemaInfo {
    type V = SchemaInfoView;

    closed spec fn view(&self) -> SchemaInfoView {
        SchemaInfoView { schema: self.schema@, schema_id: self.schema_id }
    }
}

impl Clone for SchemaInfo {
    fn clone(&self) -> (r: Self)
        ensures
            r@ == self@,
    {
        SchemaInfo { schema: self.schema.clone(), schema_id: self.schema_id }
    }
}

impl SchemaInfo {
    pub fn new(schema: Schema, schema_id: i32) -> (r: Self)
        ensures
            r@ == (SchemaInfoView { schema: schema@, schema_id }),
    {
        SchemaInfo { schema, schema_id }
    }

    pub fn schema(&self) -> (r: &Schema)
        ensures
            r@ == self@.schema,
    {
        &self.schema
    }

    pub fn schema_id(&self) -> (r: i32)
        ensures
            r == self@.schema_id,
    {
        self.schema_id
    }

    pub fn into_parts(self) -> (r: (Schema, i32))
        ensures
            r.0@ == self@.schema,
            r.1 == self@.schema_id,
    {
        (self.schema, self.schema_id)
    }
}

/// Collects columns and keys, and makes a checked [`Schema`] of them. It holds at
/// most one auto-increment column.
#[derive(Debug)]
pub struct SchemaBuilder {
    columns: Vec<Column>,
    primary_key: Option<PrimaryKey>,
    auto_increment_col_names: Vec<String>,
}

/// A [`SchemaBuilder`] as a value.
pub struct SchemaBuilderView {
    pub columns: Seq<FieldView>,
    pub primary_key: Option<PrimaryKeyView>,
    pub auto_increment_col_names: Seq<Seq<char>>,
}

impl View for SchemaBuilder {
    type V = SchemaBuilderView;

    closed spec fn view(&self) -> SchemaBuilderView {
        SchemaBuilderView {
            columns: column_views(self.columns@),
            primary_key: opt_key(self.primary_key),
            auto_increment_col_names: text::names(self.auto_increment_col_names@),
        }
    }
}

/// A column that belongs to the key: it always holds a value.
pub open spec fn as_key_column(column: FieldView, key: Seq<Seq<char>>) -> FieldView {
    if key.contains(column.name) {
        FieldView { data_type: column.data_type.non_nullable(), ..column }
    } else {
        column
    }
}

/// Columns with those of the key made non-nullable.
pub open spec fn as_key_columns(columns: Seq<FieldView>, key: Seq<Seq<char>>) -> Seq<FieldView> {
    Seq::new(columns.len(), |i: int| as_key_column(columns[i], key))
}

/// Columns as a schema with the given key holds them, or why it cannot.
pub open spec fn normalized(
    columns: Seq<FieldView>,
    primary_key: Option<PrimaryKeyView>,
) -> core::result::Result<Seq<FieldView>, ErrorView> {
    let names = field_names(columns);
    if name_list::repeated(names).len() > 0 {
        Err(
            ErrorView::InvalidTable(
                "Duplicate column names found: "@ + text::set_text(name_list::repeated(names)),
            ),
        )
    } else {
        match primary_key {
            None => Ok(columns),
            Some(key) => if !name_list::all_in(key.column_names, names) {
                Err(
                    ErrorView::InvalidTable(
                        "Primary key columns "@ + text::set_text(
                            name_list::distinct(key.column_names),
                        ) + " not found in schema"@,
                    ),
                )
            } else {
                Ok(as_key_columns(columns, key.column_names))
            },
        }
    }
}

/// The schema that a builder makes, or why it makes none.
pub open spec fn built(b: SchemaBuilderView) -> core::result::Result<SchemaView, ErrorView> {
    match normalized(b.columns, b.primary_key) {
        Err(e) => Err(e),
        Ok(columns) => match id_error(columns) {
            Some(message) => Err(ErrorView::IllegalArgument(message)),
            None => {
                let numbered = with_ids(columns);
                match name_list::first_absent(b.auto_increment_col_names, field_names(numbered)) {
                    Some(name) => Err(
                        ErrorView::IllegalArgument(
                            "Auto increment column '"@ + name
                                + "' is not found in the schema columns."@,
                        ),
                    ),
                    None => Ok(
                        SchemaView {
                            columns: numbered,
                            primary_key: b.primary_key,
                            row_type: RowView { nullable: true, fields: numbered },
                            auto_increment_col_names: b.auto_increment_col_names,
                            highest_field_id: field_ids::highest(
                                field_ids::field_ids(numbered),
                            ) as i32,
                        },
                    ),
                }
            },
        },
    }
}

proof fn lemma_empty_build(b: SchemaBuilderView)
    requires
        b.columns.len() == 0,
        b.primary_key is None,
        b.auto_increment_col_names.len() == 0,
    ensures
        numberable(b.columns),
        built(b) == Ok::<SchemaView, ErrorView>(
            SchemaView {
                columns: Seq::empty(),
                primary_key: None,
                row_type: RowView { nullable: true, fields: Seq::empty() },
                auto_increment_col_names: Seq::empty(),
                highest_field_id: (-1) as i32,
            },
        ),
{
    assert(b.columns =~= Seq::empty());
    assert(b.auto_increment_col_names =~= Seq::empty());
    assert(field_ids::field_ids(b.columns) =~= Seq::<i32>::empty());
}

impl Default for SchemaBuilder {
    fn default() -> (r: Self)
        ensures
            r@ == (SchemaBuilderView {
                columns: Seq::empty(),
                primary_key: None,
                auto_increment_col_names: Seq::empty(),
            }),
    {
        let r = SchemaBuilder {
            columns: Vec::new(),
            primary_key: None,
            auto_increment_col_names: Vec::new(),
        };
        assert(column_views(r.columns@) =~= Seq::<FieldView>::empty());
        assert(text::names(r.auto_increment_col_names@) =~= Seq::<Seq<char>>::empty());
        r
    }
}

/// A field as a new column: with its name and type, and nothing else.
pub open spec fn fresh_column(f: FieldView) -> FieldView {
    FieldView {
        name: f.name,
        data_type: f.data_type,
        description: None,
        field_id: UNKNOWN_COLUMN_ID,
    }
}

impl SchemaBuilder {
    #[verifier::type_invariant]
    pub open spec fn at_most_one_auto_increment(self) -> bool {
        self@.auto_increment_col_names.len() <= 1
    }

    pub fn new() -> (r: Self)
        ensures
            r@ == (SchemaBuilderView {
                columns: Seq::empty(),
                primary_key: None,
                auto_increment_col_names: Seq::empty(),
            }),
    {
        Self::default()
    }

    /// Adds a column for each field of a row type.
    pub fn with_row_type(self, row_type: &DataType) -> (r: Self)
        requires
            row_type@ is Row,
        ensures
            r@ == (SchemaBuilderView {
                columns: self@.columns + row_type@->Row_0.fields.map_values(
                    |f: FieldView| fresh_column(f),
                ),
                ..self@
            }),
    {
        let ghost start = self@;
        match row_type {
            DataType::Row(row) => {
                let ghost all = datatype::field_views(row.fields@);
                let ghost fresh = all.map_values(|f: FieldView| fresh_column(f));
                proof {
                    datatype::row_type_view(*row);
                }
                let mut out = self;
                let mut i: usize = 0;
                assert(start.columns + fresh.take(0) =~= start.columns);
                while i < row.fields.len()
                    invariant
                        i <= row.fields@.len(),
                        all == datatype::field_views(row.fields@),
                        fresh == all.map_values(|f: FieldView| fresh_column(f)),
                        out@ == (SchemaBuilderView {
                            columns: start.columns + fresh.take(i as int),
                            ..start
                        }),
                    decreases row.fields@.len() - i,
                {
                    let f = &row.fields[i];
                    out = out.column(&f.name, f.data_type.clone());
                    assert(fresh[i as int] == fresh_column(all[i as int]));
                    assert(start.columns + fresh.take(i + 1) =~= (start.columns + fresh.take(
                        i as int,
                    )).push(fresh[i as int]));
                    i = i + 1;
                }
                assert(fresh.take(i as int) =~= fresh);
                out
            },
            _ => self,
        }
    }

    pub fn column<N: Text>(self, name: N, data_type: DataType) -> (r: Self)
        ensures
            r@ == (SchemaBuilderView {
                columns: self@.columns.push(
                    FieldView {
                        name: name.text(),
                        data_type: data_type@,
                        description: None,
                        field_id: UNKNOWN_COLUMN_ID,
                    },
                ),
                ..self@
            }),
            field_ids::field_ids(r@.columns).len() == field_ids::field_ids(self@.columns).len() + 1
                + field_ids::nested_ids(data_type@).len(),
    {
        proof {
            use_type_invariant(&self);
        }
        let ghost start = self@;
        let column = Column::new(name, data_type);
        let mut columns = self.columns;
        columns.push(column);
        proof {
            let all = start.columns.push(column@);
            assert(column_views(columns@) =~= all);
            field_ids::field_ids_step(all, start.columns.len() as int);
            assert(all.take(start.columns.len() as int) =~= start.columns);
            assert(all.take(all.len() as int) =~= all);
        }
        SchemaBuilder {
            columns,
            primary_key: self.primary_key,
            auto_increment_col_names: self.auto_increment_col_names,
        }
    }

    pub fn with_columns(self, columns: Vec<Column>) -> (r: Self)
        ensures
            r@ == (SchemaBuilderView {
                columns: self@.columns + column_views(columns@),
                ..self@
            }),
    {
        proof {
            use_type_invariant(&self);
        }
        let ghost start = self@;
        let mut all = self.columns;
        let mut more = columns;
        all.append(&mut more);
        assert(column_views(all@) =~= start.columns + column_views(columns@));
        SchemaBuilder {
            columns: all,
            primary_key: self.primary_key,
            auto_increment_col_names: self.auto_increment_col_names,
        }
    }

    /// Sets the comment of the last column, if there is one.
    pub fn with_comment<C: Text>(self, comment: C) -> (r: Self)
        ensures
            r@ == (SchemaBuilderView {
                columns: if self@.columns.len() == 0 {
                    self@.columns
                } else {
                    self@.columns.update(
                        self@.columns.len() - 1,
                        FieldView {
                            description: Some(comment.text()),
                            ..self@.columns.last()
                        },
                    )
                },
                ..self@
            }),
    {
        proof {
            use_type_invariant(&self);
        }
        let ghost start = self@;
        let mut columns = self.columns;
        match columns.pop() {
            Some(last) => {
                columns.push(last.with_comment(comment));
            },
            None => {},
        }
        assert(column_views(columns@) =~= if start.columns.len() == 0 {
            start.columns
        } else {
            start.columns.update(
                start.columns.len() - 1,
                FieldView { description: Some(comment.text()), ..start.columns.last() },
            )
        });
        SchemaBuilder {
            columns,
            primary_key: self.primary_key,
            auto_increment_col_names: self.auto_increment_col_names,
        }
    }

    /// Sets the key, under a name made of the names of its columns.
    pub fn primary_key<S: Text>(self, column_names: Vec<S>) -> (r: Self)
        ensures
            r@ == (SchemaBuilderView {
                primary_key: Some(
                    PrimaryKeyView {
                        constraint_name: "PK_"@ + text::joined(text::texts(column_names@), "_"@),
                        column_names: text::texts(column_names@),
                    },
                ),
                ..self@
            }),
    {
        let names: Vec<String> = name_list::own_list(column_names);
        let mut constraint_name = "PK_".to_owned();
        constraint_name.append(text::join(&names, "_").as_str());
        assert(text::texts(names@) =~= text::names(names@));
        self.primary_key_named(constraint_name, names)
    }

    pub fn primary_key_named<N: Text, P: Text>(
        self,
        constraint_name: N,
        column_names: Vec<P>,
    ) -> (r: Self)
        ensures
            r@ == (SchemaBuilderView {
                primary_key: Some(
                    PrimaryKeyView {
                        constraint_name: constraint_name.text(),
                        column_names: text::texts(column_names@),
                    },
                ),
                ..self@
            }),
    {
        proof {
            use_type_invariant(&self);
        }
        SchemaBuilder {
            columns: self.columns,
            primary_key: Some(
                PrimaryKey::new(constraint_name, name_list::own_list(column_names)),
            ),
            auto_increment_col_names: self.auto_increment_col_names,
        }
    }

    /// Declares a column to be auto-incremented. With an auto-increment column in the table,
    /// whenever a new row is inserted into the table, the new row will be assigned with the next
    /// available value from the auto-increment sequence. A table can have at most one auto
    /// increment column.
    pub fn enable_auto_increment<N: Text>(self, column_name: N) -> (r: Result<Self>)
        ensures
            match r {
                Ok(b) => self@.auto_increment_col_names.len() == 0 && b@ == (SchemaBuilderView {
                    auto_increment_col_names: seq![column_name.text()],
                    ..self@
                }),
                Err(e) => self@.auto_increment_col_names.len() > 0 && e@
                    == ErrorView::IllegalArgument(
                    "Multiple auto increment columns are not supported yet."@,
                ),
            },
    {
        proof {
            use_type_invariant(&self);
        }
        if self.auto_increment_col_names.len() > 0 {
            return Err(
                Error::illegal_argument("Multiple auto increment columns are not supported yet."),
            );
        }
        let mut names = self.auto_increment_col_names;
        names.push(column_name.into_text());
        assert(text::names(names@) =~= seq![column_name.text()]);
        Ok(
            SchemaBuilder {
                columns: self.columns,
                primary_key: self.primary_key,
                auto_increment_col_names: names,
            },
        )
    }

    pub fn build(&self) -> (r: Result<Schema>)
        requires
            numberable(self@.columns),
        ensures
            match r {
                Ok(schema) => built(self@) == Ok::<SchemaView, ErrorView>(schema@)
                    && schema@.valid(),
                Err(e) => built(self@) == Err::<SchemaView, ErrorView>(e@),
            },
    {
        let key = match &self.primary_key {
            Some(k) => Some(k),
            None => None,
        };
        let columns = match Self::normalize_columns(&self.columns, key) {
            Ok(columns) => columns,
            Err(e) => {
                return Err(e);
            },
        };
        proof {
            lemma_normalized_ids(self@.columns, self@.primary_key);
            if id_error(column_views(columns@)) is None {
                lemma_with_ids(column_views(columns@));
            }
        }
        let (columns_with_ids, highest_field_id) = match Self::assign_all_field_ids(columns) {
            Ok(assigned) => assigned,
            Err(e) => {
                return Err(e);
            },
        };
        let ghost numbered = column_views(columns_with_ids@);
        let names = names_of(&columns_with_ids);
        match find_absent(&self.auto_increment_col_names, &names) {
            Some(i) => {
                return Err(
                    Error::illegal_argument(
                        concat3(
                            "Auto increment column '",
                            self.auto_increment_col_names[i].as_str(),
                            "' is not found in the schema columns.",
                        ),
                    ),
                );
            },
            None => {},
        }
        let mut data_fields: Vec<DataField> = Vec::new();
        let mut i: usize = 0;
        while i < columns_with_ids.len()
            invariant
                i <= columns_with_ids@.len(),
                data_fields@.len() == i,
                forall|j: int|
                    0 <= j < i ==> datatype::field_view(#[trigger] data_fields@[j])
                        == columns_with_ids@[j]@,
            decreases columns_with_ids@.len() - i,
        {
            let c = &columns_with_ids[i];
            data_fields.push(
                DataField {
                    name: c.name.clone(),
                    data_type: c.data_type.clone(),
                    description: text::clone_opt(&c.comment),
                    field_id: c.id,
                },
            );
            i = i + 1;
        }
        assert(datatype::field_views(data_fields@) =~= numbered);
        let schema = Schema {
            columns: columns_with_ids,
            primary_key: clone_opt_key(&self.primary_key),
            row_type: RowType::new(data_fields),
            auto_increment_col_names: clone_list(&self.auto_increment_col_names),
            highest_field_id,
        };
        proof {
            use_type_invariant(self);
            lemma_built_is_valid(self@);
        }
        Ok(schema)
    }

    /// All-or-none: ids that every column and every nested field has are kept
    /// once they are checked, ids that no column has are handed out, and
    /// anything between is refused. Also gives the highest id.
    pub fn assign_all_field_ids(columns: Vec<Column>) -> (r: Result<(Vec<Column>, i32)>)
        requires
            numberable(column_views(columns@)),
        ensures
            match r {
                Ok((assigned, highest_field_id)) => {
                    &&& id_error(column_views(columns@)) is None
                    &&& column_views(assigned@) == with_ids(column_views(columns@))
                    &&& highest_field_id == field_ids::highest(
                        field_ids::field_ids(with_ids(column_views(columns@))),
                    )
                },
                Err(e) => {
                    &&& id_error(column_views(columns@)) is Some
                    &&& e@ == ErrorView::IllegalArgument(
                        id_error(column_views(columns@))->0,
                    )
                },
            },
    {
        let ghost all = column_views(columns@);
        let with_top_id: usize = count_with_id(&columns);
        let none_set = with_top_id == 0;
        let all_top_set = with_top_id == columns.len();

        if !none_set && !all_top_set {
            return Err(
                Error::illegal_argument(
                    "All columns must have an id assigned, or none of them must.",
                ),
            );
        }
        let (max_nested_id, has_unassigned_nested) = nested_id_state(&columns);
        proof {
            lemma_top_and_inner(all);
            if every_id(all) {
                assert(!top_ids(all).contains(UNKNOWN_COLUMN_ID));
            }
            assert(field_ids::field_ids(all).contains(UNKNOWN_COLUMN_ID) <==> top_ids(
                all,
            ).contains(UNKNOWN_COLUMN_ID) || inner_ids(all).contains(UNKNOWN_COLUMN_ID));
        }
        if all_top_set && !has_unassigned_nested {
            let max_id: i32 = match check_ids(&columns) {
                Ok(max_id) => max_id,
                Err(e) => {
                    return Err(e);
                },
            };
            let highest: i32 = if max_id >= max_nested_id {
                max_id
            } else {
                max_nested_id
            };
            return Ok((columns, highest));
        }
        if all_top_set && has_unassigned_nested {
            return Err(
                Error::illegal_argument(
                    "Top-level column ids are set but some nested DataField ids are unassigned; reassign all or none.",
                ),
            );
        }
        let mut counter: i32 = -1;
        let mut new_columns: Vec<Column> = Vec::new();
        let mut i: usize = 0;
        proof {
            assert(field_ids::field_ids(all.take(0)) =~= Seq::<i32>::empty());
            assert(column_views(new_columns@) =~= field_ids::renumber_fields(all.take(0), 0));
        }
        while i < columns.len()
            invariant
                i <= columns@.len(),
                all == column_views(columns@),
                field_ids::field_ids(all).len() <= i32::MAX + 1,
                counter == field_ids::field_ids(all.take(i as int)).len() - 1,
                column_views(new_columns@) == field_ids::renumber_fields(all.take(i as int), 0),
            decreases columns@.len() - i,
        {
            let c = &columns[i];
            proof {
                field_ids::field_ids_step(all, i as int);
                field_ids::field_ids_of_prefix(all, i + 1);
                assert(all[i as int] == c@);
                assert(all.take(i + 1).drop_last() =~= all.take(i as int));
            }
            counter = counter + 1;
            let id: i32 = counter;
            let new_data_type = reassign_field_ids(&c.data_type, &mut counter);
            let ghost before = new_columns@;
            new_columns.push(
                Column {
                    name: c.name.clone(),
                    data_type: new_data_type,
                    comment: text::clone_opt(&c.comment),
                    id,
                },
            );
            assert(column_views(new_columns@) =~= column_views(before).push(
                field_ids::renumber_field(all[i as int], id as int),
            ));
            i = i + 1;
        }
        assert(all.take(i as int) =~= all);
        proof {
            lemma_with_ids(all);
        }
        Ok((new_columns, counter))
    }

    /// All-or-none: preserve ids if every column has one, auto-assign
    /// 0..N-1 if none do, error on mixed input. When preserving ids,
    /// also reject duplicates and negative-but-not-sentinel values.
    pub fn assign_column_ids(columns: Vec<Column>) -> (r: Result<Vec<Column>>)
        ensures
            match r {
                Ok(assigned) => {
                    &&& column_id_error(column_views(columns@)) is None
                    &&& column_views(assigned@) == with_column_ids(column_views(columns@))
                },
                Err(e) => {
                    &&& column_id_error(column_views(columns@)) is Some
                    &&& e@ == ErrorView::IllegalArgument(
                        column_id_error(column_views(columns@))->0,
                    )
                },
            },
    {
        broadcast use vstd::std_specs::hash::group_hash_axioms;

        let ghost all = column_views(columns@);
        let with_id: usize = count_with_id(&columns);
        if with_id == 0 {
            let mut out: Vec<Column> = Vec::new();
            let mut i: usize = 0;
            while i < columns.len()
                invariant
                    i <= columns@.len(),
                    all == column_views(columns@),
                    out@.len() == i,
                    forall|j: int|
                        0 <= j < i ==> (#[trigger] out@[j])@ == (FieldView {
                            field_id: j as i32,
                            ..all[j]
                        }),
                decreases columns@.len() - i,
            {
                out.push(columns[i].clone().with_id(i as i32));
                i = i + 1;
            }
            assert(column_views(out@) =~= with_column_ids(all));
            return Ok(out);
        }
        if with_id != columns.len() {
            return Err(
                Error::illegal_argument(
                    "All columns must have an id assigned, or none of them must.",
                ),
            );
        }
        let ghost ids = top_ids(all);
        let mut seen: HashSet<i32> = HashSet::new();
        let mut i: usize = 0;
        assert(ids.take(0) =~= Seq::<i32>::empty());
        while i < columns.len()
            invariant
                i <= columns@.len(),
                all == column_views(columns@),
                ids == top_ids(all),
                every_id(all),
                !no_id(all),
                field_ids::first_fault(ids.take(i as int)) is None,
                holds(seen@, ids.take(i as int)),
            decreases columns@.len() - i,
        {
            let col = &columns[i];
            proof {
                assert(all[i as int] == col@);
                assert(ids[i as int] == col.id);
                field_ids::first_fault_at(ids, i as int);
                assert(seen@.contains(col.id) <==> ids.take(i as int).contains(col.id));
                lemma_holds_push(seen@, ids.take(i as int), col.id);
                assert(ids.take(i as int).push(col.id) =~= ids.take(i + 1));
            }
            if col.id < 0 {
                return Err(
                    Error::illegal_argument(
                        concat5(
                            "Column '",
                            col.name.as_str(),
                            "' has invalid id ",
                            i64_to_text(col.id as i64).as_str(),
                            "; ids must be non-negative",
                        ),
                    ),
                );
            }
            if !seen.insert(col.id) {
                return Err(
                    Error::illegal_argument(
                        concat3(
                            "Duplicate column id ",
                            i64_to_text(col.id as i64).as_str(),
                            " in schema",
                        ),
                    ),
                );
            }
            i = i + 1;
        }
        assert(ids.take(ids.len() as int) =~= ids);
        Ok(columns)
    }

    pub fn normalize_columns(columns: &[Column], primary_key: Option<&PrimaryKey>) -> (r: Result<
        Vec<Column>,
    >)
        ensures
            match r {
                Ok(out) => normalized(column_views(columns@), opt_key_ref(primary_key)) == Ok::<
                    Seq<FieldView>,
                    ErrorView,
                >(column_views(out@)),
                Err(e) => normalized(column_views(columns@), opt_key_ref(primary_key)) == Err::<
                    Seq<FieldView>,
                    ErrorView,
                >(e@),
            },
    {
        let ghost all = column_views(columns@);
        let names = names_of(columns);
        match Self::find_duplicates(&names) {
            Some(duplicates) => {
                let mut message = "Duplicate column names found: ".to_owned();
                message.append(text::print_set(&duplicates).as_str());
                return Err(Error::invalid_table(message));
            },
            None => {},
        }
        let pk = match primary_key {
            Some(pk) => pk,
            None => {
                return Ok(clone_columns(columns));
            },
        };
        let key = pk.column_names.as_slice();
        if !name_list::is_subset(key, &names) {
            return Err(
                Error::invalid_table(
                    concat3(
                        "Primary key columns ",
                        text::print_set(&name_list::dedup(key)).as_str(),
                        " not found in schema",
                    ),
                ),
            );
        }
        let ghost key_names = text::names(key@);
        let mut out: Vec<Column> = Vec::new();
        let mut i: usize = 0;
        while i < columns.len()
            invariant
                i <= columns@.len(),
                all == column_views(columns@),
                key_names == text::names(key@),
                out@.len() == i,
                forall|j: int|
                    0 <= j < i ==> (#[trigger] out@[j])@ == as_key_column(all[j], key_names),
            decreases columns@.len() - i,
        {
            let col = &columns[i];
            assert(all[i as int] == col@);
            if name_list::contains(key, col.name.as_str()) && col.data_type.is_nullable() {
                out.push(col.with_data_type(col.data_type.as_non_nullable()));
            } else {
                proof {
                    lemma_non_nullable(col@.data_type);
                }
                out.push(col.clone());
            }
            i = i + 1;
        }
        assert(column_views(out@) =~= as_key_columns(all, key_names));
        Ok(out)
    }

    /// The names that occur more than once, if any does.
    pub fn find_duplicates(names: &[String]) -> (r: Option<Vec<String>>)
        ensures
            match r {
                Some(d) => text::names(d@) == name_list::repeated(text::names(names@))
                    && text::names(d@).len() > 0,
                None => name_list::repeated(text::names(names@)).len() == 0,
            },
    {
        let duplicates = find_repeated(names);
        if duplicates.len() == 0 {
            None
        } else {
            Some(duplicates)
        }
    }
}

/// Why the ids of columns alone are refused, if they are.
pub open spec fn column_id_error(columns: Seq<FieldView>) -> Option<Seq<char>> {
    if no_id(columns) {
        None
    } else if !every_id(columns) {
        Some("All columns must have an id assigned, or none of them must."@)
    } else {
        match field_ids::first_fault(top_ids(columns)) {
            Some(p) => {
                let id = columns[p].field_id;
                if id < 0 {
                    Some(
                        "Column '"@ + columns[p].name + "' has invalid id "@ + text::int_text(
                            id as int,
                        ) + "; ids must be non-negative"@,
                    )
                } else {
                    Some("Duplicate column id "@ + text::int_text(id as int) + " in schema"@)
                }
            },
            None => None,
        }
    }
}

/// Columns with the ids that they have, or else with their places.
pub open spec fn with_column_ids(columns: Seq<FieldView>) -> Seq<FieldView> {
    if no_id(columns) {
        Seq::new(columns.len(), |i: int| FieldView { field_id: i as i32, ..columns[i] })
    } else {
        columns
    }
}

proof fn lemma_non_nullable(t: TypeView)
    ensures
        !t.nullable() ==> t.non_nullable() == t,
        !t.non_nullable().nullable(),
        field_ids::nested_ids(t.non_nullable()) == field_ids::nested_ids(t),
{
}

/// Making key columns non-nullable changes no id.
proof fn lemma_normalized_ids(columns: Seq<FieldView>, primary_key: Option<PrimaryKeyView>)
    ensures
        normalized(columns, primary_key) is Ok ==> {
            let out = normalized(columns, primary_key)->Ok_0;
            &&& field_ids::field_ids(out) == field_ids::field_ids(columns)
            &&& top_ids(out) == top_ids(columns)
            &&& no_id(out) == no_id(columns)
            &&& every_id(out) == every_id(columns)
            &&& field_names(out) == field_names(columns)
        },
{
    if let Some(key) = primary_key {
        lemma_key_columns(columns, key.column_names);
    }
}

proof fn lemma_key_columns(columns: Seq<FieldView>, key: Seq<Seq<char>>)
    ensures
        ({
            let out = as_key_columns(columns, key);
            &&& field_ids::field_ids(out) == field_ids::field_ids(columns)
            &&& top_ids(out) == top_ids(columns)
            &&& no_id(out) == no_id(columns)
            &&& every_id(out) == every_id(columns)
            &&& field_names(out) == field_names(columns)
        }),
    decreases columns.len(),
{
    let out = as_key_columns(columns, key);
    assert(top_ids(out) =~= top_ids(columns));
    assert(field_names(out) =~= field_names(columns));
    assert(forall|i: int|
        0 <= i < columns.len() ==> (#[trigger] out[i]).field_id == (#[trigger] columns[i]).field_id);
    assert(no_id(out) == no_id(columns)) by {
        if no_id(out) {
            assert forall|i: int| 0 <= i < columns.len() implies (#[trigger] columns[i]).field_id
                == UNKNOWN_COLUMN_ID by {
                assert(out[i].field_id == UNKNOWN_COLUMN_ID);
            }
        }
    }
    assert(every_id(out) == every_id(columns)) by {
        if every_id(out) {
            assert forall|i: int| 0 <= i < columns.len() implies (#[trigger] columns[i]).field_id
                != UNKNOWN_COLUMN_ID by {
                assert(out[i].field_id != UNKNOWN_COLUMN_ID);
            }
        }
    }
    if columns.len() > 0 {
        lemma_key_columns(columns.drop_last(), key);
        lemma_non_nullable(columns.last().data_type);
        assert(out.drop_last() =~= as_key_columns(columns.drop_last(), key));
        assert(out.last() == as_key_column(columns.last(), key));
    }
}

/// Columns whose ids are accepted get ids without a fault: all different, none
/// negative. Their names and the number of their ids stay.
proof fn lemma_with_ids(columns: Seq<FieldView>)
    requires
        id_error(columns) is None,
        numberable(columns),
    ensures
        field_ids::first_fault(field_ids::field_ids(with_ids(columns))) is None,
        with_ids(columns).len() == columns.len(),
        field_names(with_ids(columns)) == field_names(columns),
        forall|i: int|
            0 <= i < columns.len() ==> (#[trigger] with_ids(columns)[i]).data_type.nullable()
                == columns[i].data_type.nullable(),
        !every_id(columns) ==> field_ids::highest(field_ids::field_ids(with_ids(columns)))
            == field_ids::field_ids(columns).len() - 1,
{
    if !every_id(columns) {
        let out = field_ids::renumber_fields(columns, 0);
        field_ids::renumbered_field_ids(columns, 0);
        field_ids::renumber_fields_keeps_shape(columns, 0);
        let ids = field_ids::field_ids(out);
        field_ids::first_fault_is_first(ids);
        if let Some(p) = field_ids::first_fault(ids) {
            assert(ids[p] == p);
            let k = choose|k: int| 0 <= k < ids.take(p).len() && ids.take(p)[k] == ids[p];
            assert(ids[k] == k);
        }
        field_ids::highest_is_largest(ids);
        let i = choose|i: int| 0 <= i < columns.len() && (#[trigger] columns[i]).field_id
            == UNKNOWN_COLUMN_ID;
        lemma_more_ids_than_columns(columns);
        assert(ids[ids.len() - 1] == ids.len() - 1);
        assert(field_names(out) =~= field_names(columns));
        assert forall|i: int| 0 <= i < columns.len() implies (#[trigger] out[i]).data_type.nullable()
            == columns[i].data_type.nullable() by {
            lemma_shape_nullable(out[i].data_type);
            lemma_shape_nullable(columns[i].data_type);
        }
    }
}

proof fn lemma_more_ids_than_columns(columns: Seq<FieldView>)
    ensures
        field_ids::field_ids(columns).len() >= columns.len(),
    decreases columns.len(),
{
    if columns.len() > 0 {
        lemma_more_ids_than_columns(columns.drop_last());
    }
}

proof fn lemma_shape_nullable(t: TypeView)
    ensures
        field_ids::without_ids(t).nullable() == t.nullable(),
{
}

proof fn lemma_built_is_valid(b: SchemaBuilderView)
    requires
        b.auto_increment_col_names.len() <= 1,
        numberable(b.columns),
        built(b) is Ok,
    ensures
        built(b)->Ok_0.valid(),
{
    let columns = normalized(b.columns, b.primary_key)->Ok_0;
    let schema = built(b)->Ok_0;
    lemma_normalized_ids(b.columns, b.primary_key);
    lemma_with_ids(columns);
    name_list::repeated_iff(field_names(b.columns));
    name_list::first_absent_iff(b.auto_increment_col_names, field_names(schema.columns));
    field_ids::highest_is_largest(field_ids::field_ids(schema.columns));
    assert forall|i: int|
        0 <= i < schema.columns.len() && schema.key_names().contains(
            (#[trigger] schema.columns[i]).name,
        ) implies !schema.columns[i].data_type.nullable() by {
        assert(field_names(schema.columns)[i] == field_names(columns)[i]);
        lemma_non_nullable(b.columns[i].data_type);
    }
}

/// A builder that was given the columns of a schema, its key and its
/// auto-increment column.
pub open spec fn builder_of(s: SchemaView) -> SchemaBuilderView {
    SchemaBuilderView {
        columns: s.columns,
        primary_key: s.primary_key,
        auto_increment_col_names: s.auto_increment_col_names,
    }
}

/// Building again from what a built schema holds gives that schema: its columns
/// with their ids and types, its keys, its row type and its highest id.
pub proof fn built_again(b: SchemaBuilderView, s: SchemaView)
    requires
        b.auto_increment_col_names.len() <= 1,
        numberable(b.columns),
        built(b) == Ok::<SchemaView, ErrorView>(s),
    ensures
        s.valid(),
        numberable(builder_of(s).columns),
        built(builder_of(s)) == Ok::<SchemaView, ErrorView>(s),
{
    lemma_built_is_valid(b);
    valid_is_built(s);
}

/// A valid schema is what a builder makes of what it holds.
pub proof fn valid_is_built(s: SchemaView)
    requires
        s.valid(),
    ensures
        numberable(s.columns),
        built(builder_of(s)) == Ok::<SchemaView, ErrorView>(s),
{
    let ids = field_ids::field_ids(s.columns);
    field_ids::first_fault_is_first(ids);
    lemma_top_and_inner(s.columns);
    name_list::repeated_iff(s.column_names());
    name_list::first_absent_iff(s.auto_increment_col_names, s.column_names());
    assert(!ids.contains(UNKNOWN_COLUMN_ID));
    assert forall|i: int| 0 <= i < s.columns.len() implies (#[trigger] s.columns[i]).field_id
        != UNKNOWN_COLUMN_ID by {
        assert(top_ids(s.columns)[i] == s.columns[i].field_id);
        assert(top_ids(s.columns).contains(s.columns[i].field_id));
        assert(ids.contains(s.columns[i].field_id));
    }
    assert(no_id(s.columns) ==> s.columns.len() == 0);
    if let Some(key) = s.primary_key {
        assert forall|i: int| 0 <= i < s.columns.len() implies as_key_column(
            #[trigger] s.columns[i],
            key.column_names,
        ) == s.columns[i] by {
            lemma_non_nullable(s.columns[i].data_type);
        }
        assert(as_key_columns(s.columns, key.column_names) =~= s.columns);
    }
}

/// No two columns of a valid schema have the same id, and none is negative.
pub proof fn column_ids_differ(s: SchemaView)
    requires
        s.valid(),
    ensures
        forall|i: int, j: int|
            0 <= i < j < s.columns.len() ==> (#[trigger] s.columns[i]).field_id != (
            #[trigger] s.columns[j]).field_id,
        forall|i: int| 0 <= i < s.columns.len() ==> (#[trigger] s.columns[i]).field_id >= 0,
{
    let ids = field_ids::field_ids(s.columns);
    field_ids::first_fault_is_first(ids);
    assert forall|i: int, j: int| 0 <= i < j < s.columns.len() implies (
    #[trigger] s.columns[i]).field_id != (#[trigger] s.columns[j]).field_id by {
        lemma_column_ids(s.columns, i);
        lemma_column_ids(s.columns, j);
        let a = field_ids::field_ids(s.columns.take(i)).len() as int;
        let b = field_ids::field_ids(s.columns.take(j)).len() as int;
        field_ids::field_ids_of_prefix(s.columns.take(j), i + 1);
        assert(s.columns.take(j).take(i + 1) =~= s.columns.take(i + 1));
        assert(a < b);
        assert(ids[a] == s.columns[i].field_id);
        assert(ids[b] == s.columns[j].field_id);
    }
    assert forall|i: int| 0 <= i < s.columns.len() implies (#[trigger] s.columns[i]).field_id
        >= 0 by {
        lemma_column_ids(s.columns, i);
        let a = field_ids::field_ids(s.columns.take(i)).len() as int;
        assert(ids[a] == s.columns[i].field_id);
    }
}

/// Which schemas can be built: those whose column names are all different and hold
/// every name of the key and every auto-increment name, and whose columns have no
/// ids at all or, down to the nested fields, ids that are all different and not
/// negative.
pub proof fn schemas_that_can_be_built(b: SchemaBuilderView)
    ensures
        ({
            let ids = field_ids::field_ids(b.columns);
            let names = Seq::new(b.columns.len(), |i: int| b.columns[i].name);
            built(b) is Ok <==> {
                &&& names.no_duplicates()
                &&& b.primary_key matches Some(key) ==> key.column_names.to_set().subset_of(
                    names.to_set(),
                )
                &&& b.auto_increment_col_names.to_set().subset_of(names.to_set())
                &&& {
                    ||| forall|i: int|
                        0 <= i < b.columns.len() ==> (#[trigger] b.columns[i]).field_id == -1
                    ||| ids.no_duplicates() && forall|i: int|
                        0 <= i < ids.len() ==> #[trigger] ids[i] >= 0
                }
            }
        }),
{
    let names = field_names(b.columns);
    let ids = field_ids::field_ids(b.columns);
    assert(names =~= Seq::new(b.columns.len(), |i: int| b.columns[i].name));
    name_list::repeated_iff(names);
    if let Some(key) = b.primary_key {
        name_list::in_as_sets(key.column_names, names);
    }
    name_list::in_as_sets(b.auto_increment_col_names, names);
    if let Ok(columns) = normalized(b.columns, b.primary_key) {
        lemma_normalized_ids(b.columns, b.primary_key);
        field_ids::faultless_ids(ids);
        lemma_top_and_inner(b.columns);
        assert(no_id(b.columns) <==> forall|i: int|
            0 <= i < b.columns.len() ==> (#[trigger] b.columns[i]).field_id == -1);
        if field_ids::first_fault(ids) is None {
            assert forall|i: int| 0 <= i < b.columns.len() implies (
            #[trigger] b.columns[i]).field_id != UNKNOWN_COLUMN_ID by {
                assert(top_ids(b.columns)[i] == b.columns[i].field_id);
                assert(ids.contains(b.columns[i].field_id));
            }
            assert(every_id(b.columns));
        }
        if every_id(b.columns) && no_id(b.columns) {
            if b.columns.len() > 0 {
                assert(b.columns[0].field_id == UNKNOWN_COLUMN_ID);
            }
            assert(ids =~= Seq::<i32>::empty());
        }
        if id_error(columns) is None {
            field_ids::renumber_fields_keeps_shape(columns, 0);
            assert(field_names(with_ids(columns)) =~= names);
            name_list::first_absent_iff(b.auto_increment_col_names, names);
        }
    }
}

/// What a schema holds of what its builder was told. Names, comments, the key and
/// the auto-increment columns are as they were given. Columns are as they were
/// given, but that those of the key are not nullable; where they came without ids,
/// they and their nested fields are numbered from 0, in order, and otherwise keep
/// the ids that they had. The row type has the columns as its fields.
pub proof fn schemas_hold_what_they_were_told(b: SchemaBuilderView, i: int)
    requires
        numberable(b.columns),
        built(b) is Ok,
        0 <= i < b.columns.len(),
    ensures
        ({
            let s = built(b)->Ok_0;
            let told = b.columns[i];
            let is_key = b.primary_key is Some && b.primary_key->0.column_names.contains(told.name);
            let unnumbered = forall|j: int|
                0 <= j < b.columns.len() ==> (#[trigger] b.columns[j]).field_id == -1;
            &&& s.columns.len() == b.columns.len()
            &&& s.primary_key == b.primary_key
            &&& s.auto_increment_col_names == b.auto_increment_col_names
            &&& s.row_type.fields == s.columns
            &&& s.row_type.nullable
            &&& s.columns[i].name == told.name
            &&& s.columns[i].description == told.description
            &&& is_key ==> field_ids::without_ids(s.columns[i].data_type)
                == field_ids::without_ids(told.data_type.non_nullable())
            &&& !is_key ==> field_ids::without_ids(s.columns[i].data_type)
                == field_ids::without_ids(told.data_type)
            &&& !unnumbered ==> s.columns[i].field_id == told.field_id
            &&& !unnumbered ==> field_ids::field_ids(s.columns) == field_ids::field_ids(b.columns)
            &&& unnumbered ==> field_ids::field_ids(s.columns).len() == field_ids::field_ids(
                b.columns,
            ).len()
            &&& unnumbered ==> forall|k: int|
                0 <= k < field_ids::field_ids(s.columns).len() ==> #[trigger] field_ids::field_ids(
                    s.columns,
                )[k] == k
        }),
{
    let columns = normalized(b.columns, b.primary_key)->Ok_0;
    lemma_normalized_ids(b.columns, b.primary_key);
    assert(no_id(b.columns) <==> forall|j: int|
        0 <= j < b.columns.len() ==> (#[trigger] b.columns[j]).field_id == -1);
    if no_id(b.columns) {
        assert(b.columns[i].field_id == UNKNOWN_COLUMN_ID);
        field_ids::renumbered_field_ids(columns, 0);
        field_ids::renumber_fields_keeps_shape(columns, 0);
    }
}

/// The highest id of a schema is that of one of its fields, nested ones included,
/// and no other is higher; without fields it is -1.
pub proof fn highest_id_is_held(b: SchemaBuilderView)
    requires
        b.auto_increment_col_names.len() <= 1,
        numberable(b.columns),
        built(b) is Ok,
    ensures
        ({
            let s = built(b)->Ok_0;
            let ids = field_ids::field_ids(s.columns);
            &&& ids.len() == 0 ==> s.highest_field_id == -1
            &&& ids.len() > 0 ==> ids.contains(s.highest_field_id)
            &&& forall|k: int| 0 <= k < ids.len() ==> #[trigger] ids[k] <= s.highest_field_id
        }),
{
    lemma_built_is_valid(b);
    let ids = field_ids::field_ids(built(b)->Ok_0.columns);
    field_ids::highest_is_largest(ids);
    field_ids::first_fault_is_first(ids);
    if ids.len() > 0 {
        assert(ids[0] >= 0);
    }
}

/// Ids of columns by themselves are accepted where none has one, or all have one,
/// all different and not negative. Columns without ids are numbered from 0 in
/// order; others keep theirs.
pub proof fn column_ids_are_given(columns: Seq<FieldView>, i: int)
    requires
        0 <= i < columns.len() <= i32::MAX,
    ensures
        ({
            let unnumbered = forall|j: int|
                0 <= j < columns.len() ==> (#[trigger] columns[j]).field_id == -1;
            let given = with_column_ids(columns);
            &&& column_id_error(columns) is None <==> {
                ||| unnumbered
                ||| {
                    &&& forall|j: int|
                        0 <= j < columns.len() ==> (#[trigger] columns[j]).field_id >= 0
                    &&& forall|j: int, k: int|
                        0 <= j < k < columns.len() ==> (#[trigger] columns[j]).field_id != (
                        #[trigger] columns[k]).field_id
                }
            }
            &&& given.len() == columns.len()
            &&& given[i].name == columns[i].name
            &&& given[i].data_type == columns[i].data_type
            &&& given[i].description == columns[i].description
            &&& unnumbered ==> given[i].field_id == i
            &&& !unnumbered ==> given[i].field_id == columns[i].field_id
        }),
{
    let ids = top_ids(columns);
    field_ids::faultless_ids(ids);
    assert(forall|j: int| 0 <= j < columns.len() ==> #[trigger] columns[j].field_id == ids[j]);
    assert(no_id(columns) <==> forall|j: int|
        0 <= j < columns.len() ==> (#[trigger] columns[j]).field_id == -1);
    if field_ids::first_fault(ids) is None {
        assert forall|j: int| 0 <= j < columns.len() implies (#[trigger] columns[j]).field_id
            >= 0 by {
            assert(ids[j] >= 0);
        }
        assert forall|j: int, k: int| 0 <= j < k < columns.len() implies (
        #[trigger] columns[j]).field_id != (#[trigger] columns[k]).field_id by {
            assert(ids[j] != ids[k]);
        }
    }
    if forall|j: int, k: int|
        0 <= j < k < columns.len() ==> (#[trigger] columns[j]).field_id != (
        #[trigger] columns[k]).field_id {
        assert forall|j: int, k: int|
            0 <= j < ids.len() && 0 <= k < ids.len() && j != k implies ids[j] != ids[k] by {
            assert(columns[j].field_id == ids[j] && columns[k].field_id == ids[k]);
        }
    }
}

/// A column that is made of a field has its name and its type, and nothing else of
/// it.
pub proof fn columns_of_fields_are_fresh(f: FieldView)
    ensures
        fresh_column(f).name == f.name,
        fresh_column(f).data_type == f.data_type,
        fresh_column(f).description is None,
        fresh_column(f).field_id == -1,
{
}

/// Key columns lose their nulls and nothing else; other columns stay as they are.
pub proof fn only_key_columns_change(
    columns: Seq<FieldView>,
    primary_key: Option<PrimaryKeyView>,
    i: int,
)
    requires
        0 <= i < columns.len(),
    ensures
        normalized(columns, primary_key) matches Ok(out) ==> {
            let is_key = primary_key matches Some(key) && key.column_names.contains(
                columns[i].name,
            );
            &&& out.len() == columns.len()
            &&& out[i].name == columns[i].name
            &&& out[i].description == columns[i].description
            &&& out[i].field_id == columns[i].field_id
            &&& is_key ==> out[i].data_type == columns[i].data_type.non_nullable()
            &&& !is_key ==> out[i] == columns[i]
        },
        normalized(columns, primary_key) is Ok <==> {
            let names = Seq::new(columns.len(), |i: int| columns[i].name);
            &&& names.no_duplicates()
            &&& primary_key matches Some(key) ==> key.column_names.to_set().subset_of(
                names.to_set(),
            )
        },
        normalized(columns, primary_key) matches Err(e) ==> e is InvalidTable,
{
    let names = field_names(columns);
    assert(names =~= Seq::new(columns.len(), |i: int| columns[i].name));
    name_list::repeated_iff(names);
    if let Some(key) = primary_key {
        name_list::in_as_sets(key.column_names, names);
    }
}

} // verus!
