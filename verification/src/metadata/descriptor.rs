//! Descriptions of tables: their schema, partitions, buckets and properties.

use std::sync::Arc;

use vstd::prelude::*;

use crate::error::{self, Error, ErrorView, Result};
use crate::metadata::config;
use crate::metadata::formats::{KvFormat, LogFormat};
use crate::metadata::schema::{PrimaryKeyView, Schema, SchemaView};
use crate::name_list::{self, clone_list, share};
use crate::property_map::PropertyMap;
use crate::text::{self, concat5, i64_to_text, parse_i32, Text};

verus! {

/// distribution of table
#[derive(Debug, PartialEq)]
pub struct TableDistribution {
    bucket_count: Option<i32>,
    bucket_keys: Vec<String>,
}

/// A [`TableDistribution`] as a value.
pub struct DistributionView {
    pub bucket_count: Option<i32>,
    pub bucket_keys: Seq<Seq<char>>,
}

impl View for TableDistribution {
    type V = DistributionView;

    closed spec fn view(&self) -> DistributionView {
        DistributionView {
            bucket_count: self.bucket_count,
            bucket_keys: text::names(self.bucket_keys@),
        }
    }
}

impl Clone for TableDistribution {
    fn clone(&self) -> (r: Self)
        ensures
            r@ == self@,
    {
        TableDistribution {
            bucket_count: self.bucket_count,
            bucket_keys: clone_list(&self.bucket_keys),
        }
    }
}

impl TableDistribution {
    pub fn bucket_keys(&self) -> (r: &[String])
        ensures
            text::names(r@) == self@.bucket_keys,
    {
        self.bucket_keys.as_slice()
    }

    pub fn bucket_count(&self) -> (r: Option<i32>)
        ensures
            r == self@.bucket_count,
    {
        self.bucket_count
    }

    /// The number of buckets and the bucket keys.
    pub fn into_parts(self) -> (r: (Option<i32>, Vec<String>))
        ensures
            r.0 == self@.bucket_count,
            text::names(r.1@) == self@.bucket_keys,
    {
        (self.bucket_count, self.bucket_keys)
    }
}

/// The value of an optional distribution.
pub open spec fn opt_distribution(d: Option<TableDistribution>) -> Option<DistributionView> {
    match d {
        Some(d) => Some(d@),
        None => None,
    }
}

/// The value of an optional borrowed distribution.
pub open spec fn opt_distribution_ref(d: Option<&TableDistribution>) -> Option<DistributionView> {
    match d {
        Some(d) => Some(d@),
        None => None,
    }
}

/// The bucket key of a primary-key table that names none: the primary key
/// without the partition keys, which must leave something.
pub open spec fn default_bucket_key(
    primary_key: Seq<Seq<char>>,
    partition_keys: Seq<Seq<char>>,
) -> core::result::Result<Seq<Seq<char>>, ErrorView> {
    let keys = name_list::without(primary_key, partition_keys);
    if keys.len() == 0 {
        Err(
            ErrorView::InvalidTable(
                "Primary Key constraint "@ + text::list_text(primary_key)
                    + " should not be same with partition fields "@ + text::list_text(
                    partition_keys,
                ) + "."@,
            ),
        )
    } else {
        Ok(keys)
    }
}

/// A distribution over `bucket_count` buckets by the default bucket key.
pub open spec fn default_distribution(
    bucket_count: Option<i32>,
    primary_key: Seq<Seq<char>>,
    partition_keys: Seq<Seq<char>>,
) -> core::result::Result<Option<DistributionView>, ErrorView> {
    match default_bucket_key(primary_key, partition_keys) {
        Ok(bucket_keys) => Ok(Some(DistributionView { bucket_count, bucket_keys })),
        Err(e) => Err(e),
    }
}

/// The distribution that a table gets from the one that was asked for, or why
/// that is refused.
pub open spec fn distributed(
    primary_key: Option<PrimaryKeyView>,
    partition_keys: Seq<Seq<char>>,
    origin: Option<DistributionView>,
) -> core::result::Result<Option<DistributionView>, ErrorView> {
    match (origin, primary_key) {
        (Some(d), _) if !name_list::none_in(d.bucket_keys, partition_keys) => Err(
            ErrorView::InvalidTable(
                "Bucket key "@ + text::list_text(d.bucket_keys)
                    + " shouldn't include any column in partition keys "@ + text::list_text(
                    partition_keys,
                ) + "."@,
            ),
        ),
        (Some(d), Some(pk)) => if d.bucket_keys.len() == 0 {
            default_distribution(d.bucket_count, pk.column_names, partition_keys)
        } else if !name_list::all_in(d.bucket_keys, pk.column_names) {
            Err(
                ErrorView::InvalidTable(
                    "Bucket keys must be a subset of primary keys excluding partition keys for primary-key tables. The primary keys are "@
                        + text::list_text(pk.column_names) + ", the partition keys are "@
                        + text::list_text(partition_keys)
                        + ", but the user-defined bucket keys are "@ + text::list_text(
                        d.bucket_keys,
                    ) + "."@,
                ),
            )
        } else {
            Ok(Some(d))
        },
        (Some(d), None) => Ok(Some(d)),
        (None, Some(pk)) => default_distribution(None, pk.column_names, partition_keys),
        (None, None) => Ok(None),
    }
}

/// Bucket keys never hold a partition key; those of a primary-key table belong
/// to its primary key, and there is at least one.
pub proof fn distributed_keys(
    primary_key: Option<PrimaryKeyView>,
    partition_keys: Seq<Seq<char>>,
    origin: Option<DistributionView>,
)
    ensures
        distributed(primary_key, partition_keys, origin) matches Ok(d) ==> {
            &&& d is Some <==> (origin is Some || primary_key is Some)
            &&& d is Some ==> name_list::none_in(d->0.bucket_keys, partition_keys)
            &&& d is Some && primary_key is Some ==> {
                &&& name_list::all_in(d->0.bucket_keys, primary_key->0.column_names)
                &&& d->0.bucket_keys.len() > 0
            }
            &&& d is Some && origin is Some ==> d->0.bucket_count == origin->0.bucket_count
        },
{
    if let Some(pk) = primary_key {
        lemma_without(pk.column_names, partition_keys);
    }
}

/// A distribution that a table got is kept when it is asked for again.
pub proof fn distributed_again(
    primary_key: Option<PrimaryKeyView>,
    partition_keys: Seq<Seq<char>>,
    origin: Option<DistributionView>,
)
    ensures
        distributed(primary_key, partition_keys, origin) matches Ok(d) ==> distributed(
            primary_key,
            partition_keys,
            d,
        ) == Ok::<Option<DistributionView>, ErrorView>(d),
{
    distributed_keys(primary_key, partition_keys, origin);
}

proof fn lemma_without(list: Seq<Seq<char>>, excluded: Seq<Seq<char>>)
    ensures
        name_list::none_in(name_list::without(list, excluded), excluded),
        name_list::all_in(name_list::without(list, excluded), list),
    decreases list.len(),
{
    reveal(Seq::filter);
    if list.len() > 0 {
        let front = list.drop_last();
        let out = name_list::without(list, excluded);
        let before = name_list::without(front, excluded);
        lemma_without(front, excluded);
        assert forall|i: int| 0 <= i < out.len() implies list.contains(#[trigger] out[i])
            && !excluded.contains(out[i]) by {
            if i < before.len() {
                assert(out[i] == before[i]);
                assert(front.contains(before[i]));
                let k = choose|k: int| 0 <= k < front.len() && front[k] == before[i];
                assert(list[k] == out[i]);
            } else {
                assert(out[i] == list.last());
                assert(list[list.len() - 1] == out[i]);
            }
        }
    }
}

/// The replication factor that properties set, or why there is none.
pub open spec fn replication_factor(properties: Map<Seq<char>, Seq<char>>) -> core::result::Result<
    i32,
    ErrorView,
> {
    match config::property(properties, "table.replication.factor"@) {
        Some(v) => match text::parsed_i32(v) {
            Some(n) => Ok(n),
            None => Err(
                ErrorView::InvalidTable("Replication factor can't be converted to int"@),
            ),
        },
        None => Err(ErrorView::InvalidTable("Replication factor is not set"@)),
    }
}

/// What a builder of table descriptions holds.
#[derive(Debug)]
pub struct TableDescriptorBuilder {
    schema: Option<Schema>,
    properties: PropertyMap,
    custom_properties: PropertyMap,
    partition_keys: Arc<[String]>,
    comment: Option<String>,
    table_distribution: Option<TableDistribution>,
}

/// A [`TableDescriptorBuilder`] as a value.
pub struct TableDescriptorBuilderView {
    pub schema: Option<SchemaView>,
    pub properties: Map<Seq<char>, Seq<char>>,
    pub custom_properties: Map<Seq<char>, Seq<char>>,
    pub partition_keys: Seq<Seq<char>>,
    pub comment: Option<Seq<char>>,
    pub table_distribution: Option<DistributionView>,
}

impl View for TableDescriptorBuilder {
    type V = TableDescriptorBuilderView;

    closed spec fn view(&self) -> TableDescriptorBuilderView {
        TableDescriptorBuilderView {
            schema: match self.schema {
                Some(s) => Some(s@),
                None => None,
            },
            properties: self.properties@,
            custom_properties: self.custom_properties@,
            partition_keys: text::names(self.partition_keys@),
            comment: text::opt_text(self.comment),
            table_distribution: opt_distribution(self.table_distribution),
        }
    }
}

impl TableDescriptorBuilderView {
    /// A builder that nothing was told.
    pub open spec fn fresh() -> Self {
        TableDescriptorBuilderView {
            schema: None,
            properties: Map::empty(),
            custom_properties: Map::empty(),
            partition_keys: Seq::empty(),
            comment: None,
            table_distribution: None,
        }
    }

    /// The description that comes out, or why none does.
    pub open spec fn built(self) -> core::result::Result<TableDescriptorView, ErrorView> {
        match distributed(
            self.schema->0.primary_key,
            self.partition_keys,
            self.table_distribution,
        ) {
            Ok(table_distribution) => Ok(
                TableDescriptorView {
                    schema: self.schema->0,
                    comment: self.comment,
                    partition_keys: self.partition_keys,
                    table_distribution,
                    properties: self.properties,
                    custom_properties: self.custom_properties,
                },
            ),
            Err(e) => Err(e),
        }
    }
}

impl Default for TableDescriptorBuilder {
    fn default() -> (r: Self)
        ensures
            r@ == TableDescriptorBuilderView::fresh(),
    {
        let keys: Vec<String> = Vec::new();
        let r = TableDescriptorBuilder {
            schema: None,
            properties: PropertyMap::new(),
            custom_properties: PropertyMap::new(),
            partition_keys: share(keys),
            comment: None,
            table_distribution: None,
        };
        assert(text::names(r.partition_keys@) =~= Seq::<Seq<char>>::empty());
        r
    }
}

impl TableDescriptorBuilder {
    pub fn new() -> (r: Self)
        ensures
            r@ == TableDescriptorBuilderView::fresh(),
    {
        Self::default()
    }

    pub fn schema(self, schema: Schema) -> (r: Self)
        ensures
            r@ == (TableDescriptorBuilderView { schema: Some(schema@), ..self@ }),
    {
        let mut out = self;
        out.schema = Some(schema);
        out
    }

    pub fn log_format(self, log_format: LogFormat) -> (r: Self)
        ensures
            r@ == (TableDescriptorBuilderView {
                properties: self@.properties.insert("table.log.format"@, log_format.text()),
                ..self@
            }),
    {
        let mut out = self;
        out.properties.insert("table.log.format", log_format.to_string());
        out
    }

    pub fn kv_format(self, kv_format: KvFormat) -> (r: Self)
        ensures
            r@ == (TableDescriptorBuilderView {
                properties: self@.properties.insert("table.kv.format"@, kv_format.text()),
                ..self@
            }),
    {
        let mut out = self;
        out.properties.insert("table.kv.format", kv_format.to_string());
        out
    }

    pub fn property<K: Text, V: Text>(self, key: K, value: V) -> (r: Self)
        ensures
            r@ == (TableDescriptorBuilderView {
                properties: self@.properties.insert(key.text(), value.text()),
                ..self@
            }),
    {
        let mut out = self;
        out.properties.insert(key, value);
        out
    }

    pub fn properties(self, properties: PropertyMap) -> (r: Self)
        ensures
            r@ == (TableDescriptorBuilderView {
                properties: self@.properties.union_prefer_right(properties@),
                ..self@
            }),
    {
        let mut out = self;
        out.properties.insert_all(&properties);
        out
    }

    pub fn custom_property<K: Text, V: Text>(self, key: K, value: V) -> (r: Self)
        ensures
            r@ == (TableDescriptorBuilderView {
                custom_properties: self@.custom_properties.insert(key.text(), value.text()),
                ..self@
            }),
    {
        let mut out = self;
        out.custom_properties.insert(key, value);
        out
    }

    pub fn custom_properties(self, custom_properties: PropertyMap) -> (r: Self)
        ensures
            r@ == (TableDescriptorBuilderView {
                custom_properties: self@.custom_properties.union_prefer_right(custom_properties@),
                ..self@
            }),
    {
        let mut out = self;
        out.custom_properties.insert_all(&custom_properties);
        out
    }

    pub fn partitioned_by<P: Text>(self, partition_keys: Vec<P>) -> (r: Self)
        ensures
            r@ == (TableDescriptorBuilderView {
                partition_keys: text::texts(partition_keys@),
                ..self@
            }),
    {
        let mut out = self;
        out.partition_keys = share(name_list::own_list(partition_keys));
        out
    }

    pub fn distributed_by(self, bucket_count: Option<i32>, bucket_keys: Vec<String>) -> (r: Self)
        ensures
            r@ == (TableDescriptorBuilderView {
                table_distribution: Some(
                    DistributionView { bucket_count, bucket_keys: text::names(bucket_keys@) },
                ),
                ..self@
            }),
    {
        let mut out = self;
        out.table_distribution = Some(TableDistribution { bucket_count, bucket_keys });
        out
    }

    pub fn comment<S: Text>(self, comment: S) -> (r: Self)
        ensures
            r@ == (TableDescriptorBuilderView { comment: Some(comment.text()), ..self@ }),
    {
        let mut out = self;
        out.comment = Some(comment.into_text());
        out
    }

    /// Makes the description. The schema must have been given.
    pub fn build(self) -> (r: Result<TableDescriptor>)
        requires
            self@.schema is Some,
        ensures
            match r {
                Ok(d) => self@.built() == Ok::<TableDescriptorView, ErrorView>(d@),
                Err(e) => self@.built() == Err::<TableDescriptorView, ErrorView>(e@),
            },
    {
        let schema = self.schema.unwrap();
        let keys: &[String] = &self.partition_keys;
        let table_distribution = match TableDescriptor::normalize_distribution(
            &schema,
            keys,
            self.table_distribution,
        ) {
            Ok(d) => d,
            Err(e) => {
                return Err(e);
            },
        };
        Ok(
            TableDescriptor {
                schema,
                comment: self.comment,
                partition_keys: self.partition_keys,
                table_distribution,
                properties: self.properties,
                custom_properties: self.custom_properties,
            },
        )
    }
}

/// The description of a table.
#[derive(Debug, PartialEq)]
pub struct TableDescriptor {
    schema: Schema,
    comment: Option<String>,
    partition_keys: Arc<[String]>,
    table_distribution: Option<TableDistribution>,
    properties: PropertyMap,
    custom_properties: PropertyMap,
}

/// A [`TableDescriptor`] as a value.
pub struct TableDescriptorView {
    pub schema: SchemaView,
    pub comment: Option<Seq<char>>,
    pub partition_keys: Seq<Seq<char>>,
    pub table_distribution: Option<DistributionView>,
    pub properties: Map<Seq<char>, Seq<char>>,
    pub custom_properties: Map<Seq<char>, Seq<char>>,
}

impl View for TableDescriptor {
    type V = TableDescriptorView;

    closed spec fn view(&self) -> TableDescriptorView {
        TableDescriptorView {
            schema: self.schema@,
            comment: text::opt_text(self.comment),
            partition_keys: text::names(self.partition_keys@),
            table_distribution: opt_distribution(self.table_distribution),
            properties: self.properties@,
            custom_properties: self.custom_properties@,
        }
    }
}

impl TableDescriptorView {
    /// The bucket keys; none without a distribution.
    pub open spec fn bucket_keys(self) -> Seq<Seq<char>> {
        match self.table_distribution {
            Some(d) => d.bucket_keys,
            None => Seq::empty(),
        }
    }

    /// Whether the bucket keys are those that a table gets that names none.
    pub open spec fn default_bucketed(self) -> core::result::Result<bool, ErrorView> {
        match self.schema.primary_key {
            Some(pk) => match default_bucket_key(pk.column_names, self.partition_keys) {
                Ok(keys) => Ok(self.bucket_keys() == keys),
                Err(e) => Err(e),
            },
            None => Ok(self.bucket_keys().len() == 0),
        }
    }

    /// The description with another replication factor.
    pub open spec fn replicated(self, n: i32) -> TableDescriptorView {
        TableDescriptorView {
            properties: self.properties.insert(
                "table.replication.factor"@,
                text::int_text(n as int),
            ),
            ..self
        }
    }
}

/// A replication factor that was set is the one that is read.
pub proof fn replication_factor_reads_back(d: TableDescriptorView, n: i32)
    ensures
        replication_factor(d.replicated(n).properties) == Ok::<i32, ErrorView>(n),
{
    text::int_text_reads_back(n as int);
}

/// A table that leaves its bucket keys open is bucketed by the default.
pub proof fn open_keys_are_default(b: TableDescriptorBuilderView)
    requires
        b.schema is Some,
        b.table_distribution matches Some(d) ==> d.bucket_keys.len() == 0,
    ensures
        b.built() matches Ok(d) ==> d.default_bucketed() == Ok::<bool, ErrorView>(true),
{
}

impl Clone for TableDescriptor {
    fn clone(&self) -> (r: Self)
        ensures
            r@ == self@,
    {
        TableDescriptor {
            schema: self.schema.clone(),
            comment: text::clone_opt(&self.comment),
            partition_keys: self.partition_keys.clone(),
            table_distribution: match &self.table_distribution {
                Some(d) => Some(d.clone()),
                None => None,
            },
            properties: self.properties.clone(),
            custom_properties: self.custom_properties.clone(),
        }
    }
}

/// The parts of a [`TableDescriptor`].
pub struct TableDescriptorParts {
    pub schema: Schema,
    pub comment: Option<String>,
    pub partition_keys: Arc<[String]>,
    pub table_distribution: Option<TableDistribution>,
    pub properties: PropertyMap,
    pub custom_properties: PropertyMap,
}

impl TableDescriptor {
    pub fn builder() -> (r: TableDescriptorBuilder)
        ensures
            r@ == TableDescriptorBuilderView::fresh(),
    {
        TableDescriptorBuilder::new()
    }

    pub fn schema(&self) -> (r: &Schema)
        ensures
            r@ == self@.schema,
    {
        &self.schema
    }

    pub fn bucket_keys(&self) -> (r: Vec<&str>)
        ensures
            text::str_names(r@) == self@.bucket_keys(),
    {
        match &self.table_distribution {
            Some(d) => name_list::borrow_list(&d.bucket_keys),
            None => {
                let out: Vec<&str> = Vec::new();
                assert(text::str_names(out@) =~= Seq::<Seq<char>>::empty());
                out
            },
        }
    }

    pub fn is_default_bucket_key(&self) -> (r: Result<bool>)
        ensures
            error::err_view(r) == self@.default_bucketed(),
    {
        let none: Vec<String> = Vec::new();
        let bucket_keys: &[String] = match &self.table_distribution {
            Some(d) => d.bucket_keys.as_slice(),
            None => none.as_slice(),
        };
        assert(text::names(bucket_keys@) =~= self@.bucket_keys());
        if self.schema.primary_key().is_some() {
            let keys: &[String] = &self.partition_keys;
            match Self::default_bucket_key_of_primary_key_table(&self.schema, keys) {
                Ok(default_keys) => Ok(name_list::same_list(bucket_keys, &default_keys)),
                Err(e) => Err(e),
            }
        } else {
            Ok(bucket_keys.len() == 0)
        }
    }

    pub fn is_partitioned(&self) -> (r: bool)
        ensures
            r == (self@.partition_keys.len() > 0),
    {
        let keys: &[String] = &self.partition_keys;
        keys.len() > 0
    }

    pub fn has_primary_key(&self) -> (r: bool)
        ensures
            r == (self@.schema.primary_key is Some),
    {
        self.schema.primary_key().is_some()
    }

    pub fn partition_keys(&self) -> (r: &[String])
        ensures
            text::names(r@) == self@.partition_keys,
    {
        &self.partition_keys
    }

    pub fn table_distribution(&self) -> (r: Option<&TableDistribution>)
        ensures
            opt_distribution_ref(r) == self@.table_distribution,
    {
        match &self.table_distribution {
            Some(d) => Some(d),
            None => None,
        }
    }

    pub fn properties(&self) -> (r: &PropertyMap)
        ensures
            r@ == self@.properties,
    {
        &self.properties
    }

    pub fn custom_properties(&self) -> (r: &PropertyMap)
        ensures
            r@ == self@.custom_properties,
    {
        &self.custom_properties
    }

    pub fn replication_factor(&self) -> (r: Result<i32>)
        ensures
            error::err_view(r) == replication_factor(self@.properties),
    {
        match self.properties.get("table.replication.factor") {
            Some(v) => match parse_i32(v.as_str()) {
                Some(n) => Ok(n),
                None => Err(Error::invalid_table("Replication factor can't be converted to int")),
            },
            None => Err(Error::invalid_table("Replication factor is not set")),
        }
    }

    pub fn with_properties(&self, new_properties: PropertyMap) -> (r: Self)
        ensures
            r@ == (TableDescriptorView { properties: new_properties@, ..self@ }),
    {
        let mut out = self.clone();
        out.properties = new_properties;
        out
    }

    pub fn with_replication_factor(&self, new_replication_factor: i32) -> (r: Self)
        ensures
            r@ == self@.replicated(new_replication_factor),
    {
        let mut properties = self.properties.clone();
        properties.insert(
            "table.replication.factor",
            i64_to_text(new_replication_factor as i64),
        );
        self.with_properties(properties)
    }

    pub fn with_bucket_count(&self, new_bucket_count: i32) -> (r: Self)
        ensures
            r@ == (TableDescriptorView {
                table_distribution: Some(
                    DistributionView {
                        bucket_count: Some(new_bucket_count),
                        bucket_keys: self@.bucket_keys(),
                    },
                ),
                ..self@
            }),
    {
        let bucket_keys: Vec<String> = match &self.table_distribution {
            Some(d) => clone_list(&d.bucket_keys),
            None => Vec::new(),
        };
        assert(text::names(bucket_keys@) =~= self@.bucket_keys());
        let mut out = self.clone();
        out.table_distribution = Some(
            TableDistribution { bucket_count: Some(new_bucket_count), bucket_keys },
        );
        out
    }

    pub fn comment(&self) -> (r: Option<&str>)
        ensures
            text::opt_str(r) == self@.comment,
    {
        text::as_opt_str(&self.comment)
    }

    /// Takes the description apart.
    pub fn into_parts(self) -> (r: TableDescriptorParts)
        ensures
            r.schema@ == self@.schema,
            text::opt_text(r.comment) == self@.comment,
            text::names(r.partition_keys@) == self@.partition_keys,
            opt_distribution(r.table_distribution) == self@.table_distribution,
            r.properties@ == self@.properties,
            r.custom_properties@ == self@.custom_properties,
    {
        TableDescriptorParts {
            schema: self.schema,
            comment: self.comment,
            partition_keys: self.partition_keys,
            table_distribution: self.table_distribution,
            properties: self.properties,
            custom_properties: self.custom_properties,
        }
    }

    /// The primary key without the partition keys. The schema must have a key.
    pub fn default_bucket_key_of_primary_key_table(
        schema: &Schema,
        partition_keys: &[String],
    ) -> (r: Result<Vec<String>>)
        requires
            schema@.primary_key is Some,
        ensures
            match r {
                Ok(keys) => default_bucket_key(
                    schema@.key_names(),
                    text::names(partition_keys@),
                ) == Ok::<Seq<Seq<char>>, ErrorView>(text::names(keys@)),
                Err(e) => default_bucket_key(schema@.key_names(), text::names(partition_keys@))
                    == Err::<Seq<Seq<char>>, ErrorView>(e@),
            },
    {
        let primary_key = schema.primary_key().unwrap().column_names();
        let bucket_keys = name_list::exclude(primary_key, partition_keys);
        if bucket_keys.len() == 0 {
            return Err(
                Error::invalid_table(
                    concat5(
                        "Primary Key constraint ",
                        text::print_list(primary_key).as_str(),
                        " should not be same with partition fields ",
                        text::print_list(partition_keys).as_str(),
                        ".",
                    ),
                ),
            );
        }
        Ok(bucket_keys)
    }

    /// Checks the distribution that was asked for, and fills in what it leaves
    /// open.
    pub fn normalize_distribution(
        schema: &Schema,
        partition_keys: &[String],
        origin_distribution: Option<TableDistribution>,
    ) -> (r: Result<Option<TableDistribution>>)
        ensures
            match r {
                Ok(d) => distributed(
                    schema@.primary_key,
                    text::names(partition_keys@),
                    opt_distribution(origin_distribution),
                ) == Ok::<Option<DistributionView>, ErrorView>(opt_distribution(d)),
                Err(e) => distributed(
                    schema@.primary_key,
                    text::names(partition_keys@),
                    opt_distribution(origin_distribution),
                ) == Err::<Option<DistributionView>, ErrorView>(e@),
            },
    {
        match origin_distribution {
            Some(distribution) => {
                if !name_list::is_disjoint(&distribution.bucket_keys, partition_keys) {
                    return Err(
                        Error::invalid_table(
                            concat5(
                                "Bucket key ",
                                text::print_list(&distribution.bucket_keys).as_str(),
                                " shouldn't include any column in partition keys ",
                                text::print_list(partition_keys).as_str(),
                                ".",
                            ),
                        ),
                    );
                }
                match schema.primary_key() {
                    Some(pk) => {
                        if distribution.bucket_keys.len() == 0 {
                            match Self::default_bucket_key_of_primary_key_table(
                                schema,
                                partition_keys,
                            ) {
                                Ok(bucket_keys) => Ok(
                                    Some(
                                        TableDistribution {
                                            bucket_count: distribution.bucket_count,
                                            bucket_keys,
                                        },
                                    ),
                                ),
                                Err(e) => Err(e),
                            }
                        } else {
                            let pk_columns = pk.column_names();
                            if !name_list::is_subset(&distribution.bucket_keys, pk_columns) {
                                let mut message = concat5(
                                    "Bucket keys must be a subset of primary keys excluding partition keys for primary-key tables. The primary keys are ",
                                    text::print_list(pk_columns).as_str(),
                                    ", the partition keys are ",
                                    text::print_list(partition_keys).as_str(),
                                    ", but the user-defined bucket keys are ",
                                );
                                message.append(
                                    text::print_list(&distribution.bucket_keys).as_str(),
                                );
                                message.append(".");
                                return Err(Error::invalid_table(message));
                            }
                            Ok(Some(distribution))
                        }
                    },
                    None => Ok(Some(distribution)),
                }
            },
            None => {
                if schema.primary_key().is_some() {
                    match Self::default_bucket_key_of_primary_key_table(schema, partition_keys) {
                        Ok(bucket_keys) => Ok(
                            Some(TableDistribution { bucket_count: None, bucket_keys }),
                        ),
                        Err(e) => Err(e),
                    }
                } else {
                    Ok(None)
                }
            },
        }
    }
}

/// Which bucket keys a table gets: those that it asks for, in their order, with a
/// primary key and without; where it asks for none, the primary key columns that
/// are no partition keys, in their order. It gets as many buckets as it asks for.
/// It is refused exactly where a bucket key is a partition key or, in a table with
/// a primary key, no key column, and where the partition keys leave nothing of the
/// primary key that is needed.
pub proof fn asked_bucket_keys_are_given(
    primary_key: Option<PrimaryKeyView>,
    key: Seq<Seq<char>>,
    partition_keys: Seq<Seq<char>>,
    origin: Option<DistributionView>,
    asked: Seq<Seq<char>>,
)
    requires
        key == match primary_key {
            Some(k) => k.column_names,
            None => Seq::empty(),
        },
        asked == match origin {
            Some(d) => d.bucket_keys,
            None => Seq::empty(),
        },
    ensures
        ({
            let physical = key.filter(|name: Seq<char>| !partition_keys.contains(name));
            let clash = exists|i: int|
                0 <= i < asked.len() && partition_keys.contains(#[trigger] asked[i]);
            let foreign = primary_key is Some && exists|i: int|
                0 <= i < asked.len() && !key.contains(#[trigger] asked[i]);
            let none_left = primary_key is Some && asked.len() == 0 && physical.len() == 0;
            match distributed(primary_key, partition_keys, origin) {
                Ok(given) => {
                    &&& !clash && !foreign && !none_left
                    &&& given is None <==> origin is None && primary_key is None
                    &&& given matches Some(d) ==> {
                        &&& asked.len() > 0 ==> d.bucket_keys == asked
                        &&& asked.len() == 0 ==> d.bucket_keys == physical
                        &&& origin matches Some(o) ==> d.bucket_count == o.bucket_count
                        &&& origin is None ==> d.bucket_count is None
                    }
                },
                Err(e) => (clash || foreign || none_left) && e is InvalidTable,
            }
        }),
{
    let keeps = |name: Seq<char>| !partition_keys.contains(name);
    assert(Seq::<Seq<char>>::empty().filter(keeps).len() == 0) by {
        reveal(Seq::filter);
    }
    if let Some(d) = origin {
        if d.bucket_keys.len() == 0 {
            assert(d.bucket_keys =~= Seq::<Seq<char>>::empty().filter(keeps));
        }
    }
}

/// A description holds what its builder was told: the schema, the comment, the
/// partition keys, the properties; and the distribution that it asked for.
pub proof fn descriptions_hold_what_they_were_told(b: TableDescriptorBuilderView)
    requires
        b.schema is Some,
    ensures
        b.built() matches Ok(d) ==> {
            &&& d.schema == b.schema->0
            &&& d.comment == b.comment
            &&& d.partition_keys == b.partition_keys
            &&& d.properties == b.properties
            &&& d.custom_properties == b.custom_properties
            &&& b.table_distribution is Some && b.table_distribution->0.bucket_keys.len() > 0
                ==> d.bucket_keys() == b.table_distribution->0.bucket_keys
            &&& b.table_distribution is None && d.schema.primary_key is None ==> d.bucket_keys()
                == Seq::<Seq<char>>::empty()
            &&& d.table_distribution is Some && b.table_distribution is Some
                ==> d.table_distribution->0.bucket_count == b.table_distribution->0.bucket_count
        },
        b.built() is Err ==> b.built()->Err_0 is InvalidTable,
{
    let primary_key = b.schema->0.primary_key;
    asked_bucket_keys_are_given(
        primary_key,
        match primary_key {
            Some(k) => k.column_names,
            None => Seq::empty(),
        },
        b.partition_keys,
        b.table_distribution,
        match b.table_distribution {
            Some(d) => d.bucket_keys,
            None => Seq::empty(),
        },
    );
}

/// Bucket keys are the default ones exactly where they are the primary key columns
/// that are no partition keys, in the same order; without a primary key, where
/// there are none.
pub proof fn default_bucket_keys_are_the_physical_key(d: TableDescriptorView)
    ensures
        ({
            let physical = d.schema.key_names().filter(
                |name: Seq<char>| !d.partition_keys.contains(name),
            );
            let given = match d.table_distribution {
                Some(t) => t.bucket_keys,
                None => Seq::empty(),
            };
            match d.default_bucketed() {
                Ok(is_default) => {
                    &&& d.schema.primary_key is Some ==> physical.len() > 0 && is_default == (given
                        == physical)
                    &&& d.schema.primary_key is None ==> is_default == (given.len() == 0)
                },
                Err(_) => d.schema.primary_key is Some && physical.len() == 0,
            }
        }),
{
}

/// A replication factor is what its property says in decimal, and is there only if
/// the property says a number of 32 bits. Setting it sets no other property.
pub proof fn replication_factor_is_its_property(
    properties: Map<Seq<char>, Seq<char>>,
    d: TableDescriptorView,
    n: i32,
)
    ensures
        replication_factor(properties) matches Ok(n) ==> {
            &&& properties.contains_key("table.replication.factor"@)
            &&& text::parsed_i32(properties["table.replication.factor"@]) == Some(n)
        },
        properties.contains_key("table.replication.factor"@) && text::parsed_i32(
            properties["table.replication.factor"@],
        ) is Some ==> replication_factor(properties) is Ok,
        d.replicated(n).properties.remove("table.replication.factor"@) == d.properties.remove(
            "table.replication.factor"@,
        ),
        d.replicated(n).schema == d.schema,
        d.replicated(n).comment == d.comment,
        d.replicated(n).partition_keys == d.partition_keys,
        d.replicated(n).table_distribution == d.table_distribution,
        d.replicated(n).custom_properties == d.custom_properties,
{
    assert(d.replicated(n).properties.remove("table.replication.factor"@) =~= d.properties.remove(
        "table.replication.factor"@,
    ));
}

} // verus!
