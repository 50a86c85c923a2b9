//! Stable ids of fields: which ids a type holds, in which order, and how they
//! are handed out.
//!
//! Ids are listed in preorder: a field comes before the fields inside its type.

use vstd::prelude::*;

use crate::metadata::datatype::{
    self, ArrayType, DataField, DataType, FieldView, MapType, RowType, RowView, TypeView,
    UNASSIGNED_FIELD_ID,
};
use crate::text;

verus! {

/// The ids of the fields inside a type.
pub open spec fn nested_ids(t: TypeView) -> Seq<i32>
    decreases t,
{
    match t {
        TypeView::Array(_, element) => nested_ids(*element),
        TypeView::Mapping(_, key, value) => nested_ids(*key) + nested_ids(*value),
        TypeView::Row(row) => field_ids(row.fields),
        _ => Seq::empty(),
    }
}

/// The ids of fields and of the fields inside them.
pub open spec fn field_ids(fields: Seq<FieldView>) -> Seq<i32>
    decreases fields,
{
    if fields.len() == 0 {
        Seq::empty()
    } else {
        field_ids(fields.drop_last()) + (seq![fields.last().field_id] + nested_ids(
            fields.last().data_type,
        ))
    }
}

/// A type with its fields numbered from `next` on.
pub open spec fn renumber(t: TypeView, next: int) -> TypeView
    decreases t,
{
    match t {
        TypeView::Array(nullable, element) => TypeView::Array(
            nullable,
            Box::new(renumber(*element, next)),
        ),
        TypeView::Mapping(nullable, key, value) => TypeView::Mapping(
            nullable,
            Box::new(renumber(*key, next)),
            Box::new(renumber(*value, next + nested_ids(*key).len())),
        ),
        TypeView::Row(row) => TypeView::Row(
            RowView { nullable: row.nullable, fields: renumber_fields(row.fields, next) },
        ),
        _ => t,
    }
}

/// Fields numbered from `next` on.
pub open spec fn renumber_fields(fields: Seq<FieldView>, next: int) -> Seq<FieldView>
    decreases fields,
{
    if fields.len() == 0 {
        Seq::empty()
    } else {
        renumber_fields(fields.drop_last(), next).push(
            renumber_field(fields.last(), next + field_ids(fields.drop_last()).len()),
        )
    }
}

/// A field with the id `id`, and the fields inside it numbered from the next id on.
pub open spec fn renumber_field(f: FieldView, id: int) -> FieldView
    decreases f,
{
    FieldView {
        name: f.name,
        data_type: renumber(f.data_type, id + 1),
        description: f.description,
        field_id: id as i32,
    }
}

/// The largest of some ids, or -1 where no id is larger.
pub open spec fn highest(ids: Seq<i32>) -> int
    decreases ids.len(),
{
    if ids.len() == 0 {
        -1
    } else {
        let before = highest(ids.drop_last());
        if ids.last() > before {
            ids.last() as int
        } else {
            before
        }
    }
}

pub proof fn highest_of_concatenation(a: Seq<i32>, b: Seq<i32>)
    ensures
        highest(a + b) == if highest(a) >= highest(b) {
            highest(a)
        } else {
            highest(b)
        },
        highest(a) >= -1,
    decreases b.len(),
{
    highest_is_largest(a);
    if b.len() == 0 {
        assert(a + b =~= a);
    } else {
        highest_of_concatenation(a, b.drop_last());
        assert((a + b).drop_last() =~= a + b.drop_last());
        assert((a + b).last() == b.last());
    }
}

/// The highest id is an upper bound, and is one of the ids unless it is -1.
pub proof fn highest_is_largest(ids: Seq<i32>)
    ensures
        -1 <= highest(ids) <= i32::MAX,
        forall|i: int| 0 <= i < ids.len() ==> #[trigger] ids[i] <= highest(ids),
        highest(ids) == -1 || ids.contains(highest(ids) as i32),
    decreases ids.len(),
{
    if ids.len() > 0 {
        highest_is_largest(ids.drop_last());
        assert forall|i: int| 0 <= i < ids.len() implies #[trigger] ids[i] <= highest(ids) by {
            if i < ids.len() - 1 {
                assert(ids.drop_last()[i] == ids[i]);
            }
        }
        if highest(ids) != -1 {
            if ids.last() > highest(ids.drop_last()) {
                assert(ids[ids.len() - 1] == highest(ids));
            } else {
                let h = highest(ids) as i32;
                let i = choose|i: int| 0 <= i < ids.drop_last().len() && ids.drop_last()[i] == h;
                assert(ids[i] == h);
            }
        }
    }
}

/// The ids of some first fields are the first ids of all of them.
pub proof fn field_ids_of_prefix(fields: Seq<FieldView>, n: int)
    requires
        0 <= n <= fields.len(),
    ensures
        field_ids(fields.take(n)).len() <= field_ids(fields).len(),
        field_ids(fields).take(field_ids(fields.take(n)).len() as int) == field_ids(fields.take(n)),
    decreases fields.len(),
{
    if n == fields.len() {
        assert(fields.take(n) =~= fields);
        assert(field_ids(fields).take(field_ids(fields).len() as int) =~= field_ids(fields));
    } else {
        field_ids_of_prefix(fields.drop_last(), n);
        assert(fields.drop_last().take(n) =~= fields.take(n));
        let k = field_ids(fields.take(n)).len() as int;
        assert(field_ids(fields).take(k) =~= field_ids(fields.drop_last()).take(k));
    }
}

/// The ids of fields up to and with the field at `n`.
pub proof fn field_ids_step(fields: Seq<FieldView>, n: int)
    requires
        0 <= n < fields.len(),
    ensures
        field_ids(fields.take(n + 1)) == field_ids(fields.take(n)) + (seq![fields[n].field_id]
            + nested_ids(fields[n].data_type)),
{
    assert(fields.take(n + 1).drop_last() =~= fields.take(n));
    assert(fields.take(n + 1).last() == fields[n]);
}

/// Numbering the fields of a type keeps everything but the ids, and hands out
/// consecutive ids.
pub proof fn renumbered_ids(t: TypeView, next: int)
    requires
        i32::MIN <= next,
        next + nested_ids(t).len() <= i32::MAX + 1,
    ensures
        nested_ids(renumber(t, next)).len() == nested_ids(t).len(),
        forall|i: int|
            0 <= i < nested_ids(t).len() ==> #[trigger] nested_ids(renumber(t, next))[i] == next
                + i,
    decreases t,
{
    match t {
        TypeView::Array(_, element) => {
            renumbered_ids(*element, next);
        },
        TypeView::Mapping(_, key, value) => {
            renumbered_ids(*key, next);
            renumbered_ids(*value, next + nested_ids(*key).len());
        },
        TypeView::Row(row) => {
            renumbered_field_ids(row.fields, next);
        },
        _ => {},
    }
}

/// Numbering fields hands out consecutive ids.
pub proof fn renumbered_field_ids(fields: Seq<FieldView>, next: int)
    requires
        i32::MIN <= next,
        next + field_ids(fields).len() <= i32::MAX + 1,
    ensures
        renumber_fields(fields, next).len() == fields.len(),
        field_ids(renumber_fields(fields, next)).len() == field_ids(fields).len(),
        forall|i: int|
            0 <= i < field_ids(fields).len() ==> #[trigger] field_ids(
                renumber_fields(fields, next),
            )[i] == next + i,
    decreases fields,
{
    if fields.len() > 0 {
        let before = fields.drop_last();
        let last = fields.last();
        let id = next + field_ids(before).len();
        renumbered_field_ids(before, next);
        renumbered_ids(last.data_type, id + 1);
        let out = renumber_fields(fields, next);
        assert(out.drop_last() =~= renumber_fields(before, next));
        assert(out.last() == renumber_field(last, id));
    }
}

/// A type with every id taken out.
pub open spec fn without_ids(t: TypeView) -> TypeView
    decreases t,
{
    match t {
        TypeView::Array(nullable, element) => TypeView::Array(
            nullable,
            Box::new(without_ids(*element)),
        ),
        TypeView::Mapping(nullable, key, value) => TypeView::Mapping(
            nullable,
            Box::new(without_ids(*key)),
            Box::new(without_ids(*value)),
        ),
        TypeView::Row(row) => TypeView::Row(
            RowView {
                nullable: row.nullable,
                fields: Seq::new(
                    row.fields.len(),
                    |i: int|
                        if 0 <= i < row.fields.len() {
                            FieldView {
                                name: row.fields[i].name,
                                data_type: without_ids(row.fields[i].data_type),
                                description: row.fields[i].description,
                                field_id: UNASSIGNED_FIELD_ID,
                            }
                        } else {
                            arbitrary()
                        },
                ),
            },
        ),
        _ => t,
    }
}

/// Numbering the fields of a type changes nothing but their ids.
pub proof fn renumber_keeps_shape(t: TypeView, next: int)
    ensures
        without_ids(renumber(t, next)) == without_ids(t),
    decreases t,
{
    match t {
        TypeView::Array(_, element) => {
            renumber_keeps_shape(*element, next);
        },
        TypeView::Mapping(_, key, value) => {
            renumber_keeps_shape(*key, next);
            renumber_keeps_shape(*value, next + nested_ids(*key).len());
        },
        TypeView::Row(row) => {
            renumber_fields_keeps_shape(row.fields, next);
            let out = renumber_fields(row.fields, next);
            assert(renumber(t, next) == TypeView::Row(
                RowView { nullable: row.nullable, fields: out },
            ));
            assert forall|i: int| 0 <= i < row.fields.len() implies without_ids(
                out[i].data_type,
            ) == without_ids(row.fields[i].data_type) by {}
            assert(without_ids(renumber(t, next))->Row_0.fields =~= without_ids(t)->Row_0.fields);
        },
        _ => {},
    }
}

/// Numbering fields changes nothing but their ids.
pub proof fn renumber_fields_keeps_shape(fields: Seq<FieldView>, next: int)
    ensures
        renumber_fields(fields, next).len() == fields.len(),
        forall|i: int|
            0 <= i < fields.len() ==> {
                let f = #[trigger] renumber_fields(fields, next)[i];
                &&& f.name == fields[i].name
                &&& f.description == fields[i].description
                &&& without_ids(f.data_type) == without_ids(fields[i].data_type)
            },
    decreases fields,
{
    if fields.len() > 0 {
        let before = fields.drop_last();
        let last = fields.last();
        renumber_fields_keeps_shape(before, next);
        renumber_keeps_shape(last.data_type, next + field_ids(before).len() + 1);
        let out = renumber_fields(fields, next);
        assert forall|i: int| 0 <= i < fields.len() implies {
            let f = #[trigger] out[i];
            &&& f.name == fields[i].name
            &&& f.description == fields[i].description
            &&& without_ids(f.data_type) == without_ids(fields[i].data_type)
        } by {
            if i < fields.len() - 1 {
                assert(out[i] == renumber_fields(before, next)[i]);
                assert(before[i] == fields[i]);
            } else {
                assert(out[i] == renumber_field(last, next + field_ids(before).len()));
            }
        }
    }
}

/// Numbers the fields of a type: `counter` holds the last id that was handed
/// out, before and after.
pub fn reassign_field_ids(data_type: &DataType, counter: &mut i32) -> (r: DataType)
    requires
        *old(counter) + nested_ids(data_type@).len() <= i32::MAX,
    ensures
        r@ == renumber(data_type@, *old(counter) + 1),
        *final(counter) == *old(counter) + nested_ids(data_type@).len(),
    decreases data_type,
{
    match data_type {
        DataType::Array(x) => {
            assert(decreases_to!(data_type => data_type->Array_0));
            DataType::Array(
                ArrayType {
                    nullable: x.nullable,
                    element_type: Box::new(reassign_field_ids(&x.element_type, counter)),
                },
            )
        },
        DataType::Mapping(x) => {
            assert(decreases_to!(data_type => data_type->Mapping_0));
            let key = reassign_field_ids(&x.key_type, counter);
            let value = reassign_field_ids(&x.value_type, counter);
            DataType::Mapping(
                MapType {
                    nullable: x.nullable,
                    key_type: Box::new(key),
                    value_type: Box::new(value),
                },
            )
        },
        DataType::Row(x) => {
            assert(decreases_to!(data_type => data_type->Row_0));
            proof {
                datatype::row_type_view(*x);
            }
            let fields = reassign_fields(&x.fields, counter);
            let row = RowType { nullable: x.nullable, fields };
            proof {
                datatype::row_type_view(row);
            }
            DataType::Row(row)
        },
        _ => data_type.clone(),
    }
}

/// Numbers fields, in order.
fn reassign_fields(fields: &Vec<DataField>, counter: &mut i32) -> (r: Vec<DataField>)
    requires
        *old(counter) + field_ids(datatype::field_views(fields@)).len() <= i32::MAX,
    ensures
        datatype::field_views(r@) == renumber_fields(
            datatype::field_views(fields@),
            *old(counter) + 1,
        ),
        *final(counter) == *old(counter) + field_ids(datatype::field_views(fields@)).len(),
    decreases fields,
{
    let ghost all = datatype::field_views(fields@);
    let mut out: Vec<DataField> = Vec::new();
    let mut i: usize = 0;
    let ghost start = *counter;
    assert(datatype::field_views(out@) =~= renumber_fields(all.take(0), start + 1));
    while i < fields.len()
        invariant
            i <= fields@.len(),
            all == datatype::field_views(fields@),
            start + field_ids(all).len() <= i32::MAX,
            *counter == start + field_ids(all.take(i as int)).len(),
            datatype::field_views(out@) == renumber_fields(all.take(i as int), start + 1),
        decreases fields@.len() - i,
    {
        let f = &fields[i];
        let ghost last_id = *counter;
        proof {
            field_ids_step(all, i as int);
            field_ids_of_prefix(all, i + 1);
            assert(all[i as int] == datatype::field_view(fields@[i as int]));
            assert(all.take(i + 1).drop_last() =~= all.take(i as int));
        }
        *counter = *counter + 1;
        let id: i32 = *counter;
        assert(decreases_to!(fields => fields@[i as int]));
        assert(decreases_to!(fields@[i as int] => fields@[i as int].data_type));
        let data_type = reassign_field_ids(&f.data_type, counter);
        let ghost before = out@;
        out.push(
            DataField {
                name: f.name.clone(),
                data_type,
                description: text::clone_opt(&f.description),
                field_id: id,
            },
        );
        assert(datatype::field_views(out@) =~= datatype::field_views(before).push(
            renumber_field(all[i as int], id as int),
        ));
        i = i + 1;
    }
    assert(all.take(i as int) =~= all);
    out
}

/// Takes note of the ids inside a type: the largest so far, and whether one
/// was not assigned.
pub fn collect_field_id_state(data_type: &DataType, max_id: &mut i32, has_unassigned: &mut bool)
    requires
        *old(max_id) >= -1,
    ensures
        *final(max_id) == if highest(nested_ids(data_type@)) > *old(max_id) {
            highest(nested_ids(data_type@))
        } else {
            *old(max_id) as int
        },
        *final(has_unassigned) == (*old(has_unassigned) || nested_ids(data_type@).contains(
            UNASSIGNED_FIELD_ID,
        )),
    decreases data_type,
{
    match data_type {
        DataType::Row(x) => {
            assert(decreases_to!(data_type => data_type->Row_0));
            assert(decreases_to!(data_type->Row_0 => data_type->Row_0.fields));
            let ghost all = datatype::field_views(x.fields@);
            let ghost start = *max_id;
            let ghost known = *has_unassigned;
            proof {
                datatype::row_type_view(*x);
                assert(nested_ids(data_type@) == field_ids(all));
                assert(field_ids(all.take(0)) =~= Seq::<i32>::empty());
            }
            let fields = &x.fields;
            let mut i: usize = 0;
            while i < fields.len()
                invariant
                    i <= fields@.len(),
                    fields == data_type->Row_0.fields,
                    data_type is Row,
                    all == datatype::field_views(fields@),
                    start >= -1,
                    *max_id >= -1,
                    *max_id == if highest(field_ids(all.take(i as int))) > start {
                        highest(field_ids(all.take(i as int)))
                    } else {
                        start as int
                    },
                    *has_unassigned == (known || field_ids(all.take(i as int)).contains(
                        UNASSIGNED_FIELD_ID,
                    )),
                decreases fields@.len() - i,
            {
                let f = &fields[i];
                let ghost first = field_ids(all.take(i as int));
                let ghost own = seq![f.field_id];
                let ghost inner = nested_ids(f.data_type@);
                proof {
                    field_ids_step(all, i as int);
                    assert(all[i as int] == datatype::field_view(fields@[i as int]));
                    highest_of_concatenation(first, own + inner);
                    highest_of_concatenation(own, inner);
                    highest_of_concatenation(inner, own);
                    assert(own.drop_last() =~= Seq::<i32>::empty());
                    assert(highest(own.drop_last()) == -1);
                    contains_of_concatenation(first, own + inner, UNASSIGNED_FIELD_ID);
                    contains_of_concatenation(own, inner, UNASSIGNED_FIELD_ID);
                    assert(own[0] == f.field_id);
                }
                if f.field_id == UNASSIGNED_FIELD_ID {
                    *has_unassigned = true;
                } else if f.field_id > *max_id {
                    *max_id = f.field_id;
                }
                assert(decreases_to!(data_type->Row_0.fields => fields@[i as int]));
                assert(decreases_to!(fields@[i as int] => fields@[i as int].data_type));
                collect_field_id_state(&f.data_type, max_id, has_unassigned);
                i = i + 1;
            }
            assert(all.take(i as int) =~= all);
        },
        DataType::Array(x) => {
            assert(decreases_to!(data_type => data_type->Array_0));
            collect_field_id_state(x.get_element_type(), max_id, has_unassigned);
        },
        DataType::Mapping(x) => {
            assert(decreases_to!(data_type => data_type->Mapping_0));
            collect_field_id_state(x.key_type(), max_id, has_unassigned);
            collect_field_id_state(x.value_type(), max_id, has_unassigned);
            proof {
                let a = nested_ids(type_of(x.key_type));
                let b = nested_ids(type_of(x.value_type));
                highest_of_concatenation(a, b);
                contains_of_concatenation(a, b, UNASSIGNED_FIELD_ID);
            }
        },
        _ => {
            assert(!nested_ids(data_type@).contains(UNASSIGNED_FIELD_ID));
        },
    }
}

spec fn type_of(t: Box<DataType>) -> TypeView {
    datatype::type_view(*t)
}

pub proof fn contains_of_concatenation(a: Seq<i32>, b: Seq<i32>, x: i32)
    ensures
        (a + b).contains(x) == (a.contains(x) || b.contains(x)),
{
    if a.contains(x) {
        let i = choose|i: int| 0 <= i < a.len() && a[i] == x;
        assert((a + b)[i] == x);
    }
    if b.contains(x) {
        let i = choose|i: int| 0 <= i < b.len() && b[i] == x;
        assert((a + b)[a.len() + i] == x);
    }
}

/// The ids that were assigned.
pub open spec fn assigned_ids(ids: Seq<i32>) -> Seq<i32> {
    ids.filter(|id: i32| id != UNASSIGNED_FIELD_ID)
}

/// Appends the assigned ids of the fields inside a type.
pub fn collect_nested_field_ids(data_type: &DataType, ids: &mut Vec<i32>)
    ensures
        final(ids)@ == old(ids)@ + assigned_ids(nested_ids(data_type@)),
    decreases data_type,
{
    let ghost keep = |id: i32| id != UNASSIGNED_FIELD_ID;
    let ghost start = ids@;
    match data_type {
        DataType::Row(x) => {
            assert(decreases_to!(data_type => data_type->Row_0));
            assert(decreases_to!(data_type->Row_0 => data_type->Row_0.fields));
            let ghost all = datatype::field_views(x.fields@);
            proof {
                datatype::row_type_view(*x);
                assert(nested_ids(data_type@) == field_ids(all));
                assert(field_ids(all.take(0)) =~= Seq::<i32>::empty());
                reveal(Seq::filter);
                assert(ids@ =~= start + assigned_ids(field_ids(all.take(0))));
            }
            let fields = &x.fields;
            let mut i: usize = 0;
            while i < fields.len()
                invariant
                    i <= fields@.len(),
                    fields == data_type->Row_0.fields,
                    data_type is Row,
                    all == datatype::field_views(fields@),
                    keep == (|id: i32| id != UNASSIGNED_FIELD_ID),
                    ids@ == start + assigned_ids(field_ids(all.take(i as int))),
                decreases fields@.len() - i,
            {
                let f = &fields[i];
                let ghost first = field_ids(all.take(i as int));
                let ghost own = seq![f.field_id];
                let ghost inner = nested_ids(f.data_type@);
                proof {
                    field_ids_step(all, i as int);
                    assert(all[i as int] == datatype::field_view(fields@[i as int]));
                    Seq::filter_distributes_over_add(first, own + inner, keep);
                    Seq::filter_distributes_over_add(own, inner, keep);
                    reveal(Seq::filter);
                    assert(own.drop_last() =~= Seq::<i32>::empty());
                    assert(own.drop_last().filter(keep) =~= Seq::<i32>::empty());
                    assert(own.filter(keep) =~= if f.field_id != UNASSIGNED_FIELD_ID {
                        own
                    } else {
                        Seq::empty()
                    });
                }
                let ghost before = ids@;
                if f.field_id != UNASSIGNED_FIELD_ID {
                    ids.push(f.field_id);
                }
                assert(ids@ =~= before + own.filter(keep));
                assert(decreases_to!(data_type->Row_0.fields => fields@[i as int]));
                assert(decreases_to!(fields@[i as int] => fields@[i as int].data_type));
                collect_nested_field_ids(&f.data_type, ids);
                assert(ids@ =~= before + (own + inner).filter(keep));
                assert(ids@ =~= start + (first + (own + inner)).filter(keep));
                i = i + 1;
            }
            assert(all.take(i as int) =~= all);
        },
        DataType::Array(x) => {
            assert(decreases_to!(data_type => data_type->Array_0));
            collect_nested_field_ids(x.get_element_type(), ids)
        },
        DataType::Mapping(x) => {
            assert(decreases_to!(data_type => data_type->Mapping_0));
            collect_nested_field_ids(x.key_type(), ids);
            collect_nested_field_ids(x.value_type(), ids);
            proof {
                Seq::filter_distributes_over_add(
                    nested_ids(type_of(x.key_type)),
                    nested_ids(type_of(x.value_type)),
                    keep,
                );
            }
            assert(ids@ =~= start + assigned_ids(nested_ids(data_type@)));
        },
        _ => {
            proof {
                reveal(Seq::filter);
            }
            assert(ids@ =~= start + assigned_ids(nested_ids(data_type@)));
        },
    }
}

/// Whether the id at `p` is negative or stands somewhere before.
pub open spec fn faulty(ids: Seq<i32>, p: int) -> bool {
    ids[p] < 0 || ids.take(p).contains(ids[p])
}

/// The place of the first id that is negative or stands somewhere before.
pub open spec fn first_fault(ids: Seq<i32>) -> Option<int>
    decreases ids.len(),
{
    if ids.len() == 0 {
        None
    } else {
        match first_fault(ids.drop_last()) {
            Some(p) => Some(p),
            None => if faulty(ids, ids.len() - 1) {
                Some(ids.len() - 1)
            } else {
                None
            },
        }
    }
}

/// Ids have no fault exactly where none is negative and none occurs twice; and
/// what is called the first fault is one, with none before it.
pub proof fn first_fault_is_first(ids: Seq<i32>)
    ensures
        match first_fault(ids) {
            Some(p) => {
                &&& 0 <= p < ids.len()
                &&& faulty(ids, p)
                &&& forall|q: int| 0 <= q < p ==> !faulty(ids, q)
            },
            None => {
                &&& forall|i: int| 0 <= i < ids.len() ==> #[trigger] ids[i] >= 0
                &&& ids.no_duplicates()
            },
        },
    decreases ids.len(),
{
    if ids.len() > 0 {
        let front = ids.drop_last();
        let n = ids.len() - 1;
        first_fault_is_first(front);
        assert(ids.take(n) =~= front);
        assert forall|q: int| 0 <= q < n implies faulty(ids, q) == #[trigger] faulty(front, q) by {
            assert(ids.take(q) =~= front.take(q));
        }
        match first_fault(front) {
            Some(p) => {
                assert(faulty(ids, p) == faulty(front, p));
                assert forall|q: int| 0 <= q < p implies !faulty(ids, q) by {
                    assert(faulty(ids, q) == faulty(front, q));
                }
            },
            None => {
                assert forall|q: int| 0 <= q < n implies !faulty(ids, q) by {
                    assert(front[q] >= 0);
                    if front.take(q).contains(front[q]) {
                        let k = choose|k: int|
                            0 <= k < front.take(q).len() && front.take(q)[k] == front[q];
                        assert(front[k] == front[q]);
                    }
                    assert(faulty(ids, q) == faulty(front, q));
                }
                if first_fault(ids) is None {
                    assert forall|i: int| 0 <= i < ids.len() implies #[trigger] ids[i] >= 0 by {
                        if i < n {
                            assert(front[i] == ids[i]);
                        }
                    }
                    assert forall|i: int, j: int| 0 <= i < j < ids.len() implies ids[i]
                        != ids[j] by {
                        assert(front[i] == ids[i]);
                        if j < n {
                            assert(front[j] == ids[j]);
                        } else {
                            assert(!front.contains(ids[n]));
                        }
                    }
                }
            },
        }
    }
}

/// A fault right behind ids without a fault is the first one.
pub proof fn first_fault_at(ids: Seq<i32>, p: int)
    requires
        0 <= p < ids.len(),
        first_fault(ids.take(p)) is None,
    ensures
        faulty(ids, p) ==> first_fault(ids) == Some(p),
        !faulty(ids, p) ==> first_fault(ids.take(p + 1)) is None,
    decreases ids.len(),
{
    let n = ids.len() - 1;
    assert(ids.take(p + 1).drop_last() =~= ids.take(p));
    assert(ids.take(p + 1).take(p) =~= ids.take(p));
    assert(faulty(ids, p) == faulty(ids.take(p + 1), p));
    if p == n {
        assert(ids.take(p) =~= ids.drop_last());
    } else {
        assert(ids.drop_last().take(p) =~= ids.take(p));
        first_fault_at(ids.drop_last(), p);
        assert(faulty(ids, p) == faulty(ids.drop_last(), p));
    }
}

/// Which of the fields the id at place `p` belongs to, itself or inside.
pub open spec fn owner(fields: Seq<FieldView>, p: int) -> int
    decreases fields.len(),
{
    if fields.len() == 0 || p >= field_ids(fields.drop_last()).len() {
        fields.len() - 1
    } else {
        owner(fields.drop_last(), p)
    }
}

pub proof fn owner_at(fields: Seq<FieldView>, n: int, p: int)
    requires
        0 <= n < fields.len(),
        field_ids(fields.take(n)).len() <= p < field_ids(fields.take(n + 1)).len(),
    ensures
        owner(fields, p) == n,
    decreases fields.len(),
{
    if n == fields.len() - 1 {
        assert(fields.take(n) =~= fields.drop_last());
    } else {
        assert(fields.drop_last().take(n) =~= fields.take(n));
        assert(fields.drop_last().take(n + 1) =~= fields.take(n + 1));
        field_ids_of_prefix(fields.drop_last(), n + 1);
        owner_at(fields.drop_last(), n, p);
    }
}

/// A fault among the first ids is the first fault of all of them.
pub proof fn first_fault_of_prefix(ids: Seq<i32>, n: int)
    requires
        0 <= n <= ids.len(),
        first_fault(ids.take(n)) is Some,
    ensures
        first_fault(ids) == first_fault(ids.take(n)),
    decreases ids.len(),
{
    if n == ids.len() {
        assert(ids.take(n) =~= ids);
    } else {
        assert(ids.drop_last().take(n) =~= ids.take(n));
        first_fault_of_prefix(ids.drop_last(), n);
    }
}

/// The ids of fields come in the order of the fields, and those inside a field
/// right behind its own. Inside a map, those of the key come first.
pub proof fn ids_come_in_order(
    first: Seq<FieldView>,
    second: Seq<FieldView>,
    f: FieldView,
    nullable: bool,
    key: TypeView,
    value: TypeView,
)
    ensures
        field_ids(first + second) == field_ids(first) + field_ids(second),
        field_ids(seq![f]) == seq![f.field_id] + nested_ids(f.data_type),
        nested_ids(TypeView::Array(nullable, Box::new(value))) == nested_ids(value),
        nested_ids(TypeView::Mapping(nullable, Box::new(key), Box::new(value))) == nested_ids(key)
            + nested_ids(value),
        nested_ids(TypeView::Row((RowView { nullable, fields: first }))) == field_ids(first),
        !(value is Array || value is Mapping || value is Row) ==> nested_ids(value).len() == 0,
    decreases second.len(),
{
    assert(seq![f].drop_last() =~= Seq::<FieldView>::empty());
    reveal_with_fuel(field_ids, 2);
    if second.len() > 0 {
        ids_come_in_order(first, second.drop_last(), f, nullable, key, value);
        assert((first + second).drop_last() =~= first + second.drop_last());
        assert((first + second).last() == second.last());
    } else {
        assert(first + second =~= first);
    }
}

/// Two types that are alike but for their ids and have the same ids are the same.
pub proof fn shape_and_ids_are_all(a: TypeView, b: TypeView)
    requires
        without_ids(a) == without_ids(b),
    ensures
        nested_ids(a).len() == nested_ids(b).len(),
        nested_ids(a) == nested_ids(b) ==> a == b,
    decreases a,
{
    match (a, b) {
        (TypeView::Array(_, x), TypeView::Array(_, y)) => {
            shape_and_ids_are_all(*x, *y);
        },
        (TypeView::Mapping(_, k, v), TypeView::Mapping(_, l, w)) => {
            shape_and_ids_are_all(*k, *l);
            shape_and_ids_are_all(*v, *w);
            if nested_ids(a) == nested_ids(b) {
                lemma_same_parts(nested_ids(*k), nested_ids(*v), nested_ids(*l), nested_ids(*w));
            }
        },
        (TypeView::Row(x), TypeView::Row(y)) => {
            let s = without_ids(a)->Row_0.fields;
            let t = without_ids(b)->Row_0.fields;
            assert(without_ids(TypeView::Row(x))->Row_0.fields.len() == x.fields.len());
            assert(without_ids(TypeView::Row(y))->Row_0.fields.len() == y.fields.len());
            assert(s == t);
            assert forall|i: int| 0 <= i < x.fields.len() implies alike(
                #[trigger] x.fields[i],
                y.fields[i],
            ) by {
                assert(s[i] == t[i]);
            }
            fields_alike_with_ids_are_all(x.fields, y.fields);
        },
        _ => {},
    }
}

/// Fields that are alike but for their ids.
pub open spec fn alike(a: FieldView, b: FieldView) -> bool {
    &&& a.name == b.name
    &&& a.description == b.description
    &&& without_ids(a.data_type) == without_ids(b.data_type)
}

proof fn lemma_same_parts(a: Seq<i32>, b: Seq<i32>, c: Seq<i32>, d: Seq<i32>)
    requires
        a.len() == c.len(),
        a + b == c + d,
    ensures
        a == c,
        b == d,
{
    assert(a =~= (a + b).take(a.len() as int));
    assert(c =~= (c + d).take(c.len() as int));
    assert(b =~= (a + b).skip(a.len() as int));
    assert(d =~= (c + d).skip(c.len() as int));
}

/// Fields that are alike but for their ids and have the same ids are the same.
pub proof fn fields_alike_with_ids_are_all(a: Seq<FieldView>, b: Seq<FieldView>)
    requires
        a.len() == b.len(),
        forall|i: int| 0 <= i < a.len() ==> alike(#[trigger] a[i], b[i]),
    ensures
        field_ids(a).len() == field_ids(b).len(),
        field_ids(a) == field_ids(b) ==> a == b,
    decreases a,
{
    if a.len() > 0 {
        let x = a.drop_last();
        let y = b.drop_last();
        assert forall|i: int| 0 <= i < x.len() implies alike(#[trigger] x[i], y[i]) by {
            assert(alike(a[i], b[i]));
        }
        fields_alike_with_ids_are_all(x, y);
        let f = a.last();
        let g = b.last();
        assert(alike(a[a.len() - 1], b[b.len() - 1]));
        shape_and_ids_are_all(f.data_type, g.data_type);
        if field_ids(a) == field_ids(b) {
            let own_f = seq![f.field_id] + nested_ids(f.data_type);
            let own_g = seq![g.field_id] + nested_ids(g.data_type);
            lemma_same_parts(field_ids(x), own_f, field_ids(y), own_g);
            lemma_same_parts(
                seq![f.field_id],
                nested_ids(f.data_type),
                seq![g.field_id],
                nested_ids(g.data_type),
            );
            assert(seq![f.field_id][0] == seq![g.field_id][0]);
            assert(f == g);
            assert(a =~= x.push(f));
            assert(b =~= y.push(g));
        }
    } else {
        assert(a =~= b);
    }
}

/// Ids are without fault exactly where none is negative and no two are the same.
pub proof fn faultless_ids(ids: Seq<i32>)
    ensures
        first_fault(ids) is None <==> ids.no_duplicates() && forall|i: int|
            0 <= i < ids.len() ==> #[trigger] ids[i] >= 0,
{
    first_fault_is_first(ids);
    if let Some(p) = first_fault(ids) {
        if ids[p] >= 0 {
            let k = choose|k: int| 0 <= k < ids.take(p).len() && ids.take(p)[k] == ids[p];
            assert(ids[k] == ids[p]);
        }
    }
}

} // verus!
