//! What a client knows of a table.

use std::sync::Arc;

use vstd::prelude::*;

use crate::error::{ErrorView, Result};
use crate::metadata::bucket::TableId;
use crate::metadata::config::{self, TableConfig};
use crate::metadata::datatype::{RowType, RowView};
use crate::metadata::descriptor::{
    self, DistributionView, TableDescriptor, TableDescriptorBuilderView, TableDescriptorView,
};
use crate::metadata::path::{TablePath, TablePathView};
use crate::metadata::schema::{Schema, SchemaView};
use crate::name_list::{self, clone_list};
use crate::property_map::{self, PropertyMap};
use crate::text::{self, i64_to_text};

verus! {

#[derive(Debug)]
pub struct TableInfo {
    pub table_path: TablePath,
    pub table_id: TableId,
    pub schema_id: i32,
    pub schema: Schema,
    pub row_type: RowType,
    pub primary_keys: Vec<String>,
    pub physical_primary_keys: Vec<String>,
    pub bucket_keys: Vec<String>,
    pub partition_keys: Arc<[String]>,
    pub num_buckets: i32,
    pub properties: PropertyMap,
    pub table_config: TableConfig,
    pub custom_properties: PropertyMap,
    pub comment: Option<String>,
    pub created_time: i64,
    pub modified_time: i64,
}

/// A [`TableInfo`] as a value.
pub struct TableInfoView {
    pub table_path: TablePathView,
    pub table_id: TableId,
    pub schema_id: i32,
    pub schema: SchemaView,
    pub row_type: RowView,
    pub primary_keys: Seq<Seq<char>>,
    pub physical_primary_keys: Seq<Seq<char>>,
    pub bucket_keys: Seq<Seq<char>>,
    pub partition_keys: Seq<Seq<char>>,
    pub num_buckets: i32,
    pub properties: Map<Seq<char>, Seq<char>>,
    pub table_config: Map<Seq<char>, Seq<char>>,
    pub custom_properties: Map<Seq<char>, Seq<char>>,
    pub comment: Option<Seq<char>>,
    pub created_time: i64,
    pub modified_time: i64,
}

impl View for TableInfo {
    type V = TableInfoView;

    open spec fn view(&self) -> TableInfoView {
        TableInfoView {
            table_path: self.table_path@,
            table_id: self.table_id,
            schema_id: self.schema_id,
            schema: self.schema@,
            row_type: self.row_type@,
            primary_keys: text::names(self.primary_keys@),
            physical_primary_keys: text::names(self.physical_primary_keys@),
            bucket_keys: text::names(self.bucket_keys@),
            partition_keys: text::names(self.partition_keys@),
            num_buckets: self.num_buckets,
            properties: self.properties@,
            table_config: self.table_config.properties@,
            custom_properties: self.custom_properties@,
            comment: text::opt_text(self.comment),
            created_time: self.created_time,
            modified_time: self.modified_time,
        }
    }
}

impl TableInfoView {
    /// What holds of every table that was made from its schema and keys.
    pub open spec fn valid(self) -> bool {
        &&& self.schema.valid()
        &&& self.row_type == self.schema.row_type
        &&& self.primary_keys == self.schema.key_names()
        &&& self.physical_primary_keys == name_list::without(
            self.primary_keys,
            self.partition_keys,
        )
        &&& self.table_config == self.properties
    }

    /// What is known of the table that a description describes.
    pub open spec fn of(
        table_path: TablePathView,
        table_id: i64,
        schema_id: i32,
        d: TableDescriptorView,
        created_time: i64,
        modified_time: i64,
    ) -> TableInfoView {
        TableInfoView {
            table_path,
            table_id,
            schema_id,
            schema: d.schema,
            row_type: d.schema.row_type,
            primary_keys: d.schema.key_names(),
            physical_primary_keys: name_list::without(d.schema.key_names(), d.partition_keys),
            bucket_keys: d.bucket_keys(),
            partition_keys: d.partition_keys,
            num_buckets: d.table_distribution->0.bucket_count->0,
            properties: d.properties,
            table_config: d.properties,
            custom_properties: d.custom_properties,
            comment: d.comment,
            created_time,
            modified_time,
        }
    }

    /// What a description of the table is built from.
    pub open spec fn descriptor_builder(self) -> TableDescriptorBuilderView {
        TableDescriptorBuilderView {
            schema: Some(self.schema),
            properties: self.properties,
            custom_properties: self.custom_properties,
            partition_keys: self.partition_keys,
            comment: self.comment,
            table_distribution: Some(
                DistributionView {
                    bucket_count: Some(self.num_buckets),
                    bucket_keys: self.bucket_keys,
                },
            ),
        }
    }

    /// Whether the bucket keys are those that a table gets that names none.
    pub open spec fn default_bucketed(self) -> bool {
        if self.primary_keys.len() > 0 {
            self.bucket_keys == self.physical_primary_keys
        } else {
            self.bucket_keys.len() == 0
        }
    }

    /// The text of the table, with that of its schema given.
    pub open spec fn text(
        self,
        schema_text: Seq<char>,
        properties_text: Seq<char>,
        custom_text: Seq<char>,
    ) -> Seq<char> {
        "TableInfo{ table_path="@ + self.table_path.debug_text() + ", table_id="@ + text::int_text(
            self.table_id as int,
        ) + ", schema_id="@ + text::int_text(self.schema_id as int) + ", schema="@ + schema_text
            + ", physical_primary_keys="@ + text::list_text(self.physical_primary_keys)
            + ", bucket_keys="@ + text::list_text(self.bucket_keys) + ", partition_keys="@
            + text::list_text(self.partition_keys) + ", num_buckets="@ + text::int_text(
            self.num_buckets as int,
        ) + ", properties="@ + properties_text + ", custom_properties="@ + custom_text
            + ", comment="@ + text::opt_text_shown(self.comment) + ", created_time="@ + text::int_text(
            self.created_time as int,
        ) + ", modified_time="@ + text::int_text(self.modified_time as int) + " }"@
    }
}

/// Properties as diagnostics print them, in the order of `pairs`.
pub open spec fn pairs_text(pairs: Seq<(String, String)>) -> Seq<char> {
    "{"@ + text::joined(
        Seq::new(
            pairs.len(),
            |i: int| text::quoted(pairs[i].0@) + ": "@ + text::quoted(pairs[i].1@),
        ),
        ", "@,
    ) + "}"@
}

/// Whether a text lists the properties of a map, each once.
pub open spec fn lists_properties(t: Seq<char>, properties: Map<Seq<char>, Seq<char>>) -> bool {
    exists|pairs: Seq<(String, String)>|
        property_map::distinct_entries(pairs) && property_map::entries_map(pairs) == properties
            && t == pairs_text(pairs)
}

/// A description that a builder made comes back from what is known of its table.
pub proof fn descriptor_comes_back(
    b: TableDescriptorBuilderView,
    d: TableDescriptorView,
    table_path: TablePathView,
    table_id: i64,
    schema_id: i32,
    created_time: i64,
    modified_time: i64,
)
    requires
        b.schema is Some,
        b.built() == Ok::<TableDescriptorView, ErrorView>(d),
        d.table_distribution is Some,
        d.table_distribution->0.bucket_count is Some,
    ensures
        TableInfoView::of(
            table_path,
            table_id,
            schema_id,
            d,
            created_time,
            modified_time,
        ).descriptor_builder().built() == Ok::<TableDescriptorView, ErrorView>(d),
{
    descriptor::distributed_again(b.schema->0.primary_key, b.partition_keys, b.table_distribution);
}

/// A table knows its default bucket keys as its description does, where the
/// description can tell.
pub proof fn default_bucketing_agrees(
    d: TableDescriptorView,
    table_path: TablePathView,
    table_id: i64,
    schema_id: i32,
    created_time: i64,
    modified_time: i64,
)
    requires
        d.schema.primary_key matches Some(pk) ==> pk.column_names.len() > 0,
    ensures
        d.default_bucketed() matches Ok(default) ==> TableInfoView::of(
            table_path,
            table_id,
            schema_id,
            d,
            created_time,
            modified_time,
        ).default_bucketed() == default,
{
}

impl Clone for TableInfo {
    fn clone(&self) -> (r: Self)
        ensures
            r@ == self@,
    {
        TableInfo {
            table_path: self.table_path.clone(),
            table_id: self.table_id,
            schema_id: self.schema_id,
            schema: self.schema.clone(),
            row_type: self.row_type.clone(),
            primary_keys: clone_list(&self.primary_keys),
            physical_primary_keys: clone_list(&self.physical_primary_keys),
            bucket_keys: clone_list(&self.bucket_keys),
            partition_keys: self.partition_keys.clone(),
            num_buckets: self.num_buckets,
            properties: self.properties.clone(),
            table_config: self.table_config.clone(),
            custom_properties: self.custom_properties.clone(),
            comment: text::clone_opt(&self.comment),
            created_time: self.created_time,
            modified_time: self.modified_time,
        }
    }
}

fn print_properties(properties: &PropertyMap) -> (r: String)
    ensures
        lists_properties(r@, properties@),
{
    let pairs = properties.pairs();
    let mut parts: Vec<String> = Vec::new();
    let mut i: usize = 0;
    while i < pairs.len()
        invariant
            i <= pairs@.len(),
            parts@.len() == i,
            forall|j: int|
                0 <= j < i ==> (#[trigger] parts@[j])@ == text::quoted(pairs@[j].0@) + ": "@
                    + text::quoted(pairs@[j].1@),
        decreases pairs@.len() - i,
    {
        let pair = &pairs[i];
        parts.push(
            text::concat3(
                text::quote(pair.0.as_str()).as_str(),
                ": ",
                text::quote(pair.1.as_str()).as_str(),
            ),
        );
        i = i + 1;
    }
    let ghost all = Seq::new(
        pairs@.len(),
        |i: int| text::quoted(pairs@[i].0@) + ": "@ + text::quoted(pairs@[i].1@),
    );
    assert(text::names(parts@) =~= all);
    let r = text::concat3("{", text::join(&parts, ", ").as_str(), "}");
    assert(r@ == pairs_text(pairs@));
    r
}

impl TableInfo {
    pub fn row_type(&self) -> (r: &RowType)
        ensures
            r@ == self@.row_type,
    {
        &self.row_type
    }

    /// What is known of the table that a description describes. The description
    /// must say over how many buckets the table is distributed.
    pub fn of(
        table_path: TablePath,
        table_id: i64,
        schema_id: i32,
        table_descriptor: TableDescriptor,
        created_time: i64,
        modified_time: i64,
    ) -> (r: TableInfo)
        requires
            table_descriptor@.table_distribution is Some,
            table_descriptor@.table_distribution->0.bucket_count is Some,
        ensures
            r@ == TableInfoView::of(
                table_path@,
                table_id,
                schema_id,
                table_descriptor@,
                created_time,
                modified_time,
            ),
            table_descriptor@.schema.valid() ==> r@.valid(),
    {
        let parts = table_descriptor.into_parts();
        let (bucket_count, bucket_keys) = parts.table_distribution.unwrap().into_parts();
        TableInfo::new(
            table_path,
            table_id,
            schema_id,
            parts.schema,
            bucket_keys,
            parts.partition_keys,
            bucket_count.unwrap(),
            parts.properties,
            parts.custom_properties,
            parts.comment,
            created_time,
            modified_time,
        )
    }

    pub fn new(
        table_path: TablePath,
        table_id: TableId,
        schema_id: i32,
        schema: Schema,
        bucket_keys: Vec<String>,
        partition_keys: Arc<[String]>,
        num_buckets: i32,
        properties: PropertyMap,
        custom_properties: PropertyMap,
        comment: Option<String>,
        created_time: i64,
        modified_time: i64,
    ) -> (r: Self)
        ensures
            r@ == (TableInfoView {
                table_path: table_path@,
                table_id,
                schema_id,
                schema: schema@,
                row_type: schema@.row_type,
                primary_keys: schema@.key_names(),
                physical_primary_keys: name_list::without(
                    schema@.key_names(),
                    text::names(partition_keys@),
                ),
                bucket_keys: text::names(bucket_keys@),
                partition_keys: text::names(partition_keys@),
                num_buckets,
                properties: properties@,
                table_config: properties@,
                custom_properties: custom_properties@,
                comment: text::opt_text(comment),
                created_time,
                modified_time,
            }),
            schema@.valid() ==> r@.valid(),
    {
        let row_type = schema.row_type().clone();
        let primary_keys: Vec<String> = match schema.primary_key() {
            Some(key) => clone_list(key.column_names()),
            None => Vec::new(),
        };
        assert(text::names(primary_keys@) =~= schema@.key_names());
        let keys: &[String] = &partition_keys;
        let physical_primary_keys = Self::generate_physical_primary_key(&primary_keys, keys);
        let table_config = TableConfig::from_properties(properties.clone());
        TableInfo {
            table_path,
            table_id,
            schema_id,
            schema,
            row_type,
            primary_keys,
            physical_primary_keys,
            bucket_keys,
            partition_keys,
            num_buckets,
            properties,
            table_config,
            custom_properties,
            comment,
            created_time,
            modified_time,
        }
    }

    pub fn get_table_path(&self) -> (r: &TablePath)
        ensures
            *r == self.table_path,
    {
        &self.table_path
    }

    pub fn get_table_id(&self) -> (r: i64)
        ensures
            r == self.table_id,
    {
        self.table_id
    }

    pub fn get_schema_id(&self) -> (r: i32)
        ensures
            r == self.schema_id,
    {
        self.schema_id
    }

    pub fn get_schema(&self) -> (r: &Schema)
        ensures
            *r == self.schema,
    {
        &self.schema
    }

    pub fn get_row_type(&self) -> (r: &RowType)
        ensures
            *r == self.row_type,
    {
        &self.row_type
    }

    pub fn has_primary_key(&self) -> (r: bool)
        ensures
            r == (self@.primary_keys.len() > 0),
    {
        self.primary_keys.len() > 0
    }

    pub fn get_primary_keys(&self) -> (r: &Vec<String>)
        ensures
            *r == self.primary_keys,
    {
        &self.primary_keys
    }

    pub fn get_physical_primary_keys(&self) -> (r: &[String])
        ensures
            r@ == self.physical_primary_keys@,
    {
        self.physical_primary_keys.as_slice()
    }

    pub fn has_bucket_key(&self) -> (r: bool)
        ensures
            r == (self@.bucket_keys.len() > 0),
    {
        self.bucket_keys.len() > 0
    }

    pub fn is_default_bucket_key(&self) -> (r: bool)
        ensures
            r == self@.default_bucketed(),
    {
        if self.has_primary_key() {
            name_list::same_list(&self.bucket_keys, &self.physical_primary_keys)
        } else {
            self.bucket_keys.len() == 0
        }
    }

    pub fn get_bucket_keys(&self) -> (r: &[String])
        ensures
            r@ == self.bucket_keys@,
    {
        self.bucket_keys.as_slice()
    }

    pub fn is_partitioned(&self) -> (r: bool)
        ensures
            r == (self@.partition_keys.len() > 0),
    {
        let keys: &[String] = &self.partition_keys;
        keys.len() > 0
    }

    pub fn is_auto_partitioned(&self) -> (r: bool)
        ensures
            r == (self@.partition_keys.len() > 0 && config::property(
                self@.table_config,
                "table.auto-partition.enabled"@,
            ) == Some("true"@)),
    {
        self.is_partitioned()
            && self.table_config.get_auto_partition_strategy().is_auto_partition_enabled()
    }

    pub fn get_partition_keys(&self) -> (r: &Arc<[String]>)
        ensures
            r@ == self.partition_keys@,
    {
        &self.partition_keys
    }

    pub fn get_num_buckets(&self) -> (r: i32)
        ensures
            r == self.num_buckets,
    {
        self.num_buckets
    }

    pub fn get_properties(&self) -> (r: &PropertyMap)
        ensures
            *r == self.properties,
    {
        &self.properties
    }

    pub fn get_table_config(&self) -> (r: &TableConfig)
        ensures
            *r == self.table_config,
    {
        &self.table_config
    }

    pub fn get_custom_properties(&self) -> (r: &PropertyMap)
        ensures
            *r == self.custom_properties,
    {
        &self.custom_properties
    }

    pub fn get_comment(&self) -> (r: Option<&str>)
        ensures
            text::opt_str(r) == self@.comment,
    {
        text::as_opt_str(&self.comment)
    }

    pub fn get_created_time(&self) -> (r: i64)
        ensures
            r == self.created_time,
    {
        self.created_time
    }

    pub fn get_modified_time(&self) -> (r: i64)
        ensures
            r == self.modified_time,
    {
        self.modified_time
    }

    pub fn to_table_descriptor(&self) -> (r: Result<TableDescriptor>)
        ensures
            match r {
                Ok(d) => self@.descriptor_builder().built() == Ok::<
                    TableDescriptorView,
                    ErrorView,
                >(d@),
                Err(e) => self@.descriptor_builder().built() == Err::<
                    TableDescriptorView,
                    ErrorView,
                >(e@),
            },
    {
        let keys: &[String] = &self.partition_keys;
        let partition_keys = clone_list(keys);
        assert(text::texts(partition_keys@) =~= text::names(self.partition_keys@));
        let mut builder = TableDescriptor::builder()
            .schema(self.schema.clone())
            .partitioned_by(partition_keys)
            .distributed_by(Some(self.num_buckets), clone_list(&self.bucket_keys))
            .properties(self.properties.clone())
            .custom_properties(self.custom_properties.clone());
        if let Some(comment) = &self.comment {
            builder = builder.comment(comment);
        }
        assert(Map::<Seq<char>, Seq<char>>::empty().union_prefer_right(self.properties@)
            =~= self.properties@);
        assert(Map::<Seq<char>, Seq<char>>::empty().union_prefer_right(self.custom_properties@)
            =~= self.custom_properties@);
        assert(builder@ == self@.descriptor_builder());
        builder.build()
    }

    fn generate_physical_primary_key(
        primary_keys: &[String],
        partition_keys: &[String],
    ) -> (r: Vec<String>)
        ensures
            text::names(r@) == name_list::without(
                text::names(primary_keys@),
                text::names(partition_keys@),
            ),
    {
        name_list::exclude(primary_keys, partition_keys)
    }

    /// The table as diagnostics print it.
    pub fn to_string(&self) -> (r: String)
        ensures
            exists|properties_text: Seq<char>, custom_text: Seq<char>|
                {
                    &&& lists_properties(properties_text, self@.properties)
                    &&& lists_properties(custom_text, self@.custom_properties)
                    &&& r@ == #[trigger] self@.text(
                        self@.schema.text(),
                        properties_text,
                        custom_text,
                    )
                },
    {
        let schema_text = self.schema.to_debug_string();
        let properties_text = print_properties(&self.properties);
        let custom_text = print_properties(&self.custom_properties);
        self.describe(schema_text.as_str(), properties_text.as_str(), custom_text.as_str())
    }

    /// The table as diagnostics print it, with the text of its schema and of
    /// its properties given.
    pub fn describe(&self, schema_text: &str, properties_text: &str, custom_text: &str) -> (r:
        String)
        ensures
            r@ == self@.text(schema_text@, properties_text@, custom_text@),
    {
        let keys: &[String] = &self.partition_keys;
        let mut out = "TableInfo{ table_path=".to_owned();
        out.append(self.table_path.to_debug_string().as_str());
        out.append(", table_id=");
        out.append(i64_to_text(self.table_id).as_str());
        out.append(", schema_id=");
        out.append(i64_to_text(self.schema_id as i64).as_str());
        out.append(", schema=");
        out.append(schema_text);
        out.append(", physical_primary_keys=");
        out.append(text::print_list(&self.physical_primary_keys).as_str());
        out.append(", bucket_keys=");
        out.append(text::print_list(&self.bucket_keys).as_str());
        out.append(", partition_keys=");
        out.append(text::print_list(keys).as_str());
        out.append(", num_buckets=");
        out.append(i64_to_text(self.num_buckets as i64).as_str());
        out.append(", properties=");
        out.append(properties_text);
        out.append(", custom_properties=");
        out.append(custom_text);
        out.append(", comment=");
        out.append(text::print_opt(&self.comment).as_str());
        out.append(", created_time=");
        out.append(i64_to_text(self.created_time).as_str());
        out.append(", modified_time=");
        out.append(i64_to_text(self.modified_time).as_str());
        out.append(" }");
        out
    }
}

/// What is known of a table is what its description says, and where and since when
/// it is. Its physical keys are the key columns that are no partition keys.
pub proof fn tables_hold_their_description(
    table_path: TablePathView,
    table_id: i64,
    schema_id: i32,
    d: TableDescriptorView,
    created_time: i64,
    modified_time: i64,
)
    requires
        d.schema.valid(),
        d.table_distribution is Some,
        d.table_distribution->0.bucket_count is Some,
    ensures
        ({
            let info = TableInfoView::of(
                table_path,
                table_id,
                schema_id,
                d,
                created_time,
                modified_time,
            );
            &&& info.valid()
            &&& info.table_path == table_path
            &&& info.table_id == table_id
            &&& info.schema_id == schema_id
            &&& info.created_time == created_time
            &&& info.modified_time == modified_time
            &&& info.schema == d.schema
            &&& info.row_type.fields == d.schema.columns
            &&& d.schema.primary_key is None ==> info.primary_keys.len() == 0
            &&& d.schema.primary_key matches Some(key) ==> info.primary_keys == key.column_names
            &&& info.physical_primary_keys == info.primary_keys.filter(
                |name: Seq<char>| !d.partition_keys.contains(name),
            )
            &&& info.bucket_keys == d.table_distribution->0.bucket_keys
            &&& Some(info.num_buckets) == d.table_distribution->0.bucket_count
            &&& info.partition_keys == d.partition_keys
            &&& info.properties == d.properties
            &&& info.table_config == d.properties
            &&& info.custom_properties == d.custom_properties
            &&& info.comment == d.comment
            &&& info.primary_keys.len() > 0 ==> info.default_bucketed() == (info.bucket_keys
                == info.physical_primary_keys)
            &&& info.primary_keys.len() == 0 ==> info.default_bucketed() == (info.bucket_keys.len()
                == 0)
        }),
{
}

} // verus!
