//! Which columns the rows of a table can be looked up by, short of its whole key.

use vstd::prelude::*;

use crate::error::{Error, ErrorView, Result};
use crate::metadata::table_info::{TableInfo, TableInfoView};
use crate::name_list::{self, exclude, has_prefix, is_concat, is_subset, same_list};
use crate::text::{self, print_list};

verus! {

/// How every error starts that refuses a prefix lookup on a table with a key.
pub open spec fn refusal(info: TableInfoView) -> Seq<char> {
    "Can not perform prefix lookup on table '"@ + info.table_path.text() + "', because "@
}

/// Why rows cannot be looked up by these columns as a prefix of the key, if they
/// cannot. The first reason that holds is given.
pub open spec fn prefix_lookup_error(info: TableInfoView, columns: Seq<Seq<char>>) -> Option<
    ErrorView,
> {
    if info.primary_keys.len() == 0 {
        Some(
            ErrorView::IllegalArgument(
                "Log table "@ + info.table_path.text() + " doesn't support prefix lookup"@,
            ),
        )
    } else if info.bucket_keys.len() == 0 {
        Some(ErrorView::IllegalArgument(refusal(info) + "it has no bucket keys."@))
    } else if !name_list::starts_with(info.physical_primary_keys, info.bucket_keys) {
        Some(
            ErrorView::IllegalArgument(
                refusal(info) + "the bucket keys "@ + text::list_text(info.bucket_keys)
                    + " is not a prefix subset of the physical primary keys "@ + text::list_text(
                    info.physical_primary_keys,
                ) + " (excluded partition fields if present)."@,
            ),
        )
    } else if !name_list::all_in(info.partition_keys, columns) {
        Some(
            ErrorView::IllegalArgument(
                refusal(info) + "the lookup columns "@ + text::list_text(columns)
                    + " must contain all partition fields "@ + text::list_text(info.partition_keys)
                    + "."@,
            ),
        )
    } else if name_list::without(columns, info.partition_keys) != info.bucket_keys {
        Some(
            ErrorView::IllegalArgument(
                refusal(info) + "the lookup columns "@ + text::list_text(columns)
                    + " must contain all bucket keys "@ + text::list_text(info.bucket_keys)
                    + " in order."@,
            ),
        )
    } else if info.bucket_keys == info.physical_primary_keys {
        Some(
            ErrorView::IllegalArgument(
                refusal(info) + "the lookup columns "@ + text::list_text(columns)
                    + " equals the physical primary keys "@ + text::list_text(
                    info.physical_primary_keys,
                )
                    + ". Please use primary key lookup (Lookuper without lookup_by) instead."@,
            ),
        )
    } else if columns != info.partition_keys + info.bucket_keys {
        Some(
            ErrorView::IllegalArgument(
                refusal(info) + "the lookup columns "@ + text::list_text(columns)
                    + " must list the partition fields "@ + text::list_text(info.partition_keys)
                    + " and then the bucket keys "@ + text::list_text(info.bucket_keys)
                    + ", in that order."@,
            ),
        )
    } else {
        None
    }
}

/// The columns of an accepted prefix lookup are the partition keys and then the
/// bucket keys, no column is both, and they are less than the whole key: the
/// bucket keys come first among the physical keys but are not all of them.
pub proof fn accepted_columns(info: TableInfoView, columns: Seq<Seq<char>>)
    requires
        prefix_lookup_error(info, columns) is None,
    ensures
        columns == info.partition_keys + info.bucket_keys,
        0 < info.bucket_keys.len() < info.physical_primary_keys.len(),
        info.physical_primary_keys.take(info.bucket_keys.len() as int) == info.bucket_keys,
        name_list::none_in(info.bucket_keys, info.partition_keys),
        !info.default_bucketed(),
{
    let keys = info.bucket_keys;
    let physical = info.physical_primary_keys;
    let keep = |n: Seq<char>| !info.partition_keys.contains(n);
    if keys.len() == physical.len() {
        assert(physical.take(keys.len() as int) =~= physical);
    }
    assert(columns.filter(keep) == keys);
    assert forall|i: int| 0 <= i < keys.len() implies !info.partition_keys.contains(
        #[trigger] keys[i],
    ) by {
        columns.lemma_filter_pred(keep, i);
    }
}

/// How every error starts that refuses a prefix lookup on a table with a key.
fn refuse(table_info: &TableInfo) -> (r: String)
    ensures
        r@ == refusal(table_info@),
{
    text::concat3(
        "Can not perform prefix lookup on table '",
        table_info.get_table_path().to_string().as_str(),
        "', because ",
    )
}

/// Checks that rows can be looked up by these columns as a prefix of the key.
pub fn validate_prefix_lookup(table_info: &TableInfo, lookup_columns: &[String]) -> (r: Result<()>)
    ensures
        match r {
            Ok(_) => prefix_lookup_error(table_info@, text::names(lookup_columns@)) is None,
            Err(e) => prefix_lookup_error(table_info@, text::names(lookup_columns@)) == Some(e@),
        },
{
    let ghost info = table_info@;
    let ghost columns = text::names(lookup_columns@);
    if !table_info.has_primary_key() {
        return Err(
            Error::illegal_argument(
                text::concat3(
                    "Log table ",
                    table_info.get_table_path().to_string().as_str(),
                    " doesn't support prefix lookup",
                ),
            ),
        );
    }
    let physical_primary_keys = table_info.get_physical_primary_keys();
    let bucket_keys = table_info.get_bucket_keys();
    if bucket_keys.len() == 0 {
        let mut message = refuse(table_info);
        message.append("it has no bucket keys.");
        return Err(Error::illegal_argument(message));
    }
    if !has_prefix(physical_primary_keys, bucket_keys) {
        let mut message = refuse(table_info);
        message.append("the bucket keys ");
        message.append(print_list(bucket_keys).as_str());
        message.append(" is not a prefix subset of the physical primary keys ");
        message.append(print_list(physical_primary_keys).as_str());
        message.append(" (excluded partition fields if present).");
        return Err(Error::illegal_argument(message));
    }
    let partition_keys: &[String] = table_info.get_partition_keys();
    if !is_subset(partition_keys, lookup_columns) {
        let mut message = refuse(table_info);
        message.append("the lookup columns ");
        message.append(print_list(lookup_columns).as_str());
        message.append(" must contain all partition fields ");
        message.append(print_list(partition_keys).as_str());
        message.append(".");
        return Err(Error::illegal_argument(message));
    }
    let physical_lookup_columns = exclude(lookup_columns, partition_keys);
    if !same_list(&physical_lookup_columns, bucket_keys) {
        let mut message = refuse(table_info);
        message.append("the lookup columns ");
        message.append(print_list(lookup_columns).as_str());
        message.append(" must contain all bucket keys ");
        message.append(print_list(bucket_keys).as_str());
        message.append(" in order.");
        return Err(Error::illegal_argument(message));
    }
    if same_list(bucket_keys, physical_primary_keys) {
        let mut message = refuse(table_info);
        message.append("the lookup columns ");
        message.append(print_list(lookup_columns).as_str());
        message.append(" equals the physical primary keys ");
        message.append(print_list(physical_primary_keys).as_str());
        message.append(". Please use primary key lookup (Lookuper without lookup_by) instead.");
        return Err(Error::illegal_argument(message));
    }
    if !is_concat(lookup_columns, partition_keys, bucket_keys) {
        let mut message = refuse(table_info);
        message.append("the lookup columns ");
        message.append(print_list(lookup_columns).as_str());
        message.append(" must list the partition fields ");
        message.append(print_list(partition_keys).as_str());
        message.append(" and then the bucket keys ");
        message.append(print_list(bucket_keys).as_str());
        message.append(", in that order.");
        return Err(Error::illegal_argument(message));
    }
    Ok(())
}

/// A prefix lookup is accepted exactly where the table has a primary key and the
/// columns are the partition keys followed by the bucket keys, and the bucket keys
/// are none of the partition keys and the first of the other key columns, but not
/// all of them.
pub proof fn prefix_lookups_accepted(info: TableInfoView, columns: Seq<Seq<char>>)
    ensures
        prefix_lookup_error(info, columns) is None <==> {
            &&& info.primary_keys.len() > 0
            &&& columns == info.partition_keys + info.bucket_keys
            &&& 0 < info.bucket_keys.len() < info.physical_primary_keys.len()
            &&& info.physical_primary_keys.take(info.bucket_keys.len() as int) == info.bucket_keys
            &&& forall|i: int|
                0 <= i < info.bucket_keys.len() ==> !info.partition_keys.contains(
                    #[trigger] info.bucket_keys[i],
                )
        },
        prefix_lookup_error(info, columns) matches Some(e) ==> e is IllegalArgument,
{
    let keys = info.bucket_keys;
    let parts = info.partition_keys;
    if prefix_lookup_error(info, columns) is None {
        accepted_columns(info, columns);
    }
    if columns == parts + keys && name_list::none_in(keys, parts) {
        name_list::without_goes_name_by_name(parts, keys, Seq::empty(), parts);
        name_list::without_goes_name_by_name(keys, keys, Seq::empty(), parts);
        assert(name_list::all_in(parts, parts));
        assert(name_list::without(parts, parts) + keys =~= keys);
        assert forall|i: int| 0 <= i < parts.len() implies columns.contains(#[trigger] parts[i]) by {
            assert(columns[i] == parts[i]);
        }
    }
}

} // verus!
