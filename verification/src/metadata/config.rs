//! What the properties of a table configure.

use vstd::prelude::*;

use crate::compression::{self, ArrowCompressionInfo};
use crate::error::{self, ErrorView, Result};
use crate::metadata::formats::{self, DataLakeFormat, KvFormat, KvFormatVersion, LogFormat};
use crate::property_map::PropertyMap;
use crate::text::{self, parse_i32, same_text};

verus! {

/// How partitions of a table come and go by themselves.
#[derive(Debug, Clone, PartialEq, Eq)]
pub struct AutoPartitionStrategy {
    auto_partition_enabled: bool,
    auto_partition_key: Option<String>,
    auto_partition_time_unit: String,
    auto_partition_num_precreate: i32,
    auto_partition_num_retention: i32,
    auto_partition_timezone: String,
}

/// An [`AutoPartitionStrategy`] as a value.
pub struct AutoPartitionView {
    pub enabled: bool,
    pub key: Option<Seq<char>>,
    pub time_unit: Seq<char>,
    pub num_precreate: i32,
    pub num_retention: i32,
    pub timezone: Seq<char>,
}

impl View for AutoPartitionStrategy {
    type V = AutoPartitionView;

    closed spec fn view(&self) -> AutoPartitionView {
        AutoPartitionView {
            enabled: self.auto_partition_enabled,
            key: text::opt_text(self.auto_partition_key),
            time_unit: self.auto_partition_time_unit@,
            num_precreate: self.auto_partition_num_precreate,
            num_retention: self.auto_partition_num_retention,
            timezone: self.auto_partition_timezone@,
        }
    }
}

/// The value of a property.
pub open spec fn property(properties: Map<Seq<char>, Seq<char>>, key: Seq<char>) -> Option<
    Seq<char>,
> {
    if properties.dom().contains(key) {
        Some(properties[key])
    } else {
        None
    }
}

/// The value of a property, or else `default`.
pub open spec fn property_or(
    properties: Map<Seq<char>, Seq<char>>,
    key: Seq<char>,
    default: Seq<char>,
) -> Seq<char> {
    match property(properties, key) {
        Some(v) => v,
        None => default,
    }
}

/// The number in a property, or else `default`.
pub open spec fn number_or(
    properties: Map<Seq<char>, Seq<char>>,
    key: Seq<char>,
    default: i32,
) -> i32 {
    match property(properties, key) {
        Some(v) => match text::parsed_i32(v) {
            Some(n) => n,
            None => default,
        },
        None => default,
    }
}

/// The strategy that properties configure, where the machine's time zone has
/// the name `system_zone`, if it has one.
pub open spec fn auto_partition(
    properties: Map<Seq<char>, Seq<char>>,
    system_zone: Option<Seq<char>>,
) -> AutoPartitionView {
    AutoPartitionView {
        enabled: property(properties, "table.auto-partition.enabled"@) == Some("true"@),
        key: property(properties, "table.auto-partition.key"@),
        time_unit: property_or(properties, "table.auto-partition.time-unit"@, "DAY"@),
        num_precreate: number_or(properties, "table.auto-partition.num-precreate"@, 2),
        num_retention: number_or(properties, "table.auto-partition.num-retention"@, 7),
        timezone: property_or(
            properties,
            "table.auto-partition.time-zone"@,
            match system_zone {
                Some(zone) => zone,
                None => "UTC"@,
            },
        ),
    }
}

/// `jiff::tz::TimeZone::system` and `TimeZone::iana_name` of it: the name of the
/// time zone that the machine is set to, where it has one. It depends on the
/// machine, so nothing is claimed of it.
#[verifier::external_body]
pub(crate) fn system_zone_name() -> (r: Option<String>)
{
    jiff::tz::TimeZone::system().iana_name().map(|name| name.to_string())
}

fn text_or(properties: &PropertyMap, key: &str, default: &str) -> (r: String)
    ensures
        r@ == property_or(properties@, key@, default@),
{
    match properties.get(key) {
        Some(v) => v.clone(),
        None => default.to_owned(),
    }
}

fn i32_or(properties: &PropertyMap, key: &str, default: i32) -> (r: i32)
    ensures
        r == number_or(properties@, key@, default),
{
    match properties.get(key) {
        Some(v) => match parse_i32(v.as_str()) {
            Some(n) => n,
            None => default,
        },
        None => default,
    }
}

impl AutoPartitionStrategy {
    /// The strategy that properties configure. Where they name no time zone, it
    /// is that of the machine.
    pub fn from(properties: &PropertyMap) -> (r: Self)
        ensures
            exists|system_zone: Option<Seq<char>>| r@ == auto_partition(properties@, system_zone),
    {
        let system_zone = match properties.get("table.auto-partition.time-zone") {
            Some(_) => None,
            None => system_zone_name(),
        };
        let r = Self::from_with_zone(properties, &system_zone);
        assert(r@ == auto_partition(properties@, text::opt_text(system_zone)));
        r
    }

    /// The strategy that properties configure, where the machine's time zone
    /// has the name `system_zone`, if it has one.
    pub fn from_with_zone(properties: &PropertyMap, system_zone: &Option<String>) -> (r: Self)
        ensures
            r@ == auto_partition(properties@, text::opt_text(*system_zone)),
    {
        AutoPartitionStrategy {
            auto_partition_enabled: match properties.get("table.auto-partition.enabled") {
                Some(v) => same_text(v.as_str(), "true"),
                None => false,
            },
            auto_partition_key: match properties.get("table.auto-partition.key") {
                Some(v) => Some(v.clone()),
                None => None,
            },
            auto_partition_time_unit: text_or(
                properties,
                "table.auto-partition.time-unit",
                "DAY",
            ),
            auto_partition_num_precreate: i32_or(
                properties,
                "table.auto-partition.num-precreate",
                2,
            ),
            auto_partition_num_retention: i32_or(
                properties,
                "table.auto-partition.num-retention",
                7,
            ),
            auto_partition_timezone: text_or(
                properties,
                "table.auto-partition.time-zone",
                match system_zone {
                    Some(zone) => zone.as_str(),
                    None => "UTC",
                },
            ),
        }
    }

    pub fn is_auto_partition_enabled(&self) -> (r: bool)
        ensures
            r == self@.enabled,
    {
        self.auto_partition_enabled
    }

    pub fn key(&self) -> (r: Option<&str>)
        ensures
            text::opt_str(r) == self@.key,
    {
        text::as_opt_str(&self.auto_partition_key)
    }

    pub fn time_unit(&self) -> (r: &str)
        ensures
            r@ == self@.time_unit,
    {
        self.auto_partition_time_unit.as_str()
    }

    pub fn num_precreate(&self) -> (r: i32)
        ensures
            r == self@.num_precreate,
    {
        self.auto_partition_num_precreate
    }

    pub fn num_retention(&self) -> (r: i32)
        ensures
            r == self@.num_retention,
    {
        self.auto_partition_num_retention
    }

    pub fn timezone(&self) -> (r: &str)
        ensures
            r@ == self@.timezone,
    {
        self.auto_partition_timezone.as_str()
    }
}

/// The properties of a table, by what they configure.
#[derive(Debug, PartialEq, Eq)]
pub struct TableConfig {
    pub properties: PropertyMap,
}

impl Clone for TableConfig {
    fn clone(&self) -> (r: Self)
        ensures
            r.properties@ == self.properties@,
    {
        TableConfig { properties: self.properties.clone() }
    }
}

/// The data lake format that properties configure.
pub open spec fn configured_lake(properties: Map<Seq<char>, Seq<char>>) -> core::result::Result<
    Option<DataLakeFormat>,
    ErrorView,
> {
    match property(properties, "table.datalake.format"@) {
        Some(name) => match formats::data_lake_format(name) {
            Ok(f) => Ok(Some(f)),
            Err(e) => Err(e),
        },
        None => Ok(None),
    }
}

impl TableConfig {
    pub fn from_properties(properties: PropertyMap) -> (r: Self)
        ensures
            r.properties == properties,
    {
        TableConfig { properties }
    }

    pub fn get_arrow_compression_info(&self) -> (r: Result<ArrowCompressionInfo>)
        ensures
            error::err_view(r) == compression::compression(self.properties@),
    {
        ArrowCompressionInfo::from_conf(&self.properties)
    }

    /// Returns the data lake format if configured, or None if not set.
    pub fn get_datalake_format(&self) -> (r: Result<Option<DataLakeFormat>>)
        ensures
            error::err_view(r) == configured_lake(self.properties@),
    {
        match self.properties.get("table.datalake.format") {
            Some(name) => match DataLakeFormat::from_name(name.as_str()) {
                Ok(f) => Ok(Some(f)),
                Err(e) => Err(e),
            },
            None => Ok(None),
        }
    }

    pub fn get_kv_format(&self) -> (r: Result<KvFormat>)
        ensures
            error::err_view(r) == formats::kv_format_named(
                property_or(self.properties@, "table.kv.format"@, "COMPACTED"@),
            ),
            property(self.properties@, "table.kv.format"@) is None ==> error::err_view(r) == Ok::<
                KvFormat,
                ErrorView,
            >(KvFormat::COMPACTED),
    {
        proof {
            formats::kv_format_reads_back(KvFormat::COMPACTED);
        }
        match self.properties.get("table.kv.format") {
            Some(name) => KvFormat::from_name(name.as_str()),
            None => KvFormat::from_name("COMPACTED"),
        }
    }

    /// KV layout version from `table.kv.format-version`.
    ///
    /// When unset or invalid, returns [`KvFormatVersion::V1`].
    pub fn get_kv_format_version(&self) -> (r: KvFormatVersion)
        ensures
            r == formats::kv_format_version(
                property(self.properties@, "table.kv.format-version"@),
            ),
    {
        match self.properties.get("table.kv.format-version") {
            Some(v) => KvFormatVersion::parse_property(Some(v.as_str())),
            None => KvFormatVersion::parse_property(None),
        }
    }

    pub fn get_log_format(&self) -> (r: Result<LogFormat>)
        ensures
            ({
                let name = property_or(self.properties@, "table.log.format"@, "ARROW"@);
                &&& error::err_view(r) == formats::log_format(text::uppercase(name), name)
                &&& vstd::utf8::is_ascii_chars(name) ==> error::err_view(r)
                    == formats::log_format(text::ascii_uppercase(name), name)
            }),
            property(self.properties@, "table.log.format"@) is None ==> error::err_view(r) == Ok::<
                LogFormat,
                ErrorView,
            >(LogFormat::ARROW),
    {
        proof {
            formats::names_are_upper_case(LogFormat::ARROW, KvFormat::COMPACTED);
            formats::log_format_reads_back(LogFormat::ARROW);
        }
        match self.properties.get("table.log.format") {
            Some(name) => LogFormat::parse(name.as_str()),
            None => LogFormat::parse("ARROW"),
        }
    }

    pub fn get_auto_partition_strategy(&self) -> (r: AutoPartitionStrategy)
        ensures
            exists|system_zone: Option<Seq<char>>|
                r@ == auto_partition(self.properties@, system_zone),
    {
        AutoPartitionStrategy::from(&self.properties)
    }
}

/// How partitions come and go is read from six properties, each for itself: a
/// property that is there counts, else its default does.
pub proof fn auto_partition_goes_by_six_properties(
    properties: Map<Seq<char>, Seq<char>>,
    system_zone: Option<Seq<char>>,
)
    ensures
        ({
            let strategy = auto_partition(properties, system_zone);
            let enabled = "table.auto-partition.enabled"@;
            let key = "table.auto-partition.key"@;
            let unit = "table.auto-partition.time-unit"@;
            let zone = "table.auto-partition.time-zone"@;
            &&& strategy.enabled <==> properties.contains_key(enabled) && properties[enabled]
                == "true"@
            &&& strategy.key is Some <==> properties.contains_key(key)
            &&& properties.contains_key(key) ==> strategy.key == Some(properties[key])
            &&& properties.contains_key(unit) ==> strategy.time_unit == properties[unit]
            &&& !properties.contains_key(unit) ==> strategy.time_unit == "DAY"@
            &&& properties.contains_key(zone) ==> strategy.timezone == properties[zone]
            &&& !properties.contains_key(zone) && system_zone is Some ==> strategy.timezone
                == system_zone->0
            &&& !properties.contains_key(zone) && system_zone is None ==> strategy.timezone
                == "UTC"@
        }),
{
}

/// How many partitions are made in advance and how many are kept are the numbers
/// that the properties say, whatever number of 32 bits it is; without such a
/// number they are 2 and 7.
pub proof fn partition_counts_are_read(
    properties: Map<Seq<char>, Seq<char>>,
    system_zone: Option<Seq<char>>,
    n: i32,
)
    ensures
        ({
            let precreate = "table.auto-partition.num-precreate"@;
            let retention = "table.auto-partition.num-retention"@;
            let said = text::int_text(n as int);
            let plain = auto_partition(properties, system_zone);
            let more = auto_partition(properties.insert(precreate, said), system_zone);
            let longer = auto_partition(properties.insert(retention, said), system_zone);
            &&& more.num_precreate == n
            &&& more.num_retention == plain.num_retention
            &&& longer.num_retention == n
            &&& longer.num_precreate == plain.num_precreate
            &&& (!properties.contains_key(precreate) || text::parsed_i32(properties[precreate])
                is None) ==> plain.num_precreate == 2
            &&& (!properties.contains_key(retention) || text::parsed_i32(properties[retention])
                is None) ==> plain.num_retention == 7
        }),
{
    text::small_numbers_are_read(text::int_text(n as int), n);
    reveal_strlit("table.auto-partition.num-precreate");
    reveal_strlit("table.auto-partition.num-retention");
    assert("table.auto-partition.num-precreate"@[25] == 'p');
    assert("table.auto-partition.num-retention"@[25] == 'r');
}

/// A table has a data lake exactly where the property names one.
pub proof fn lake_goes_by_its_property(properties: Map<Seq<char>, Seq<char>>)
    ensures
        !properties.contains_key("table.datalake.format"@) ==> configured_lake(properties) == Ok::<
            Option<DataLakeFormat>,
            ErrorView,
        >(None),
        properties.contains_key("table.datalake.format"@) ==> {
            let named = formats::data_lake_format(properties["table.datalake.format"@]);
            &&& named matches Ok(f) ==> configured_lake(properties) == Ok::<
                Option<DataLakeFormat>,
                ErrorView,
            >(Some(f))
            &&& named matches Err(e) ==> configured_lake(properties) == Err::<
                Option<DataLakeFormat>,
                ErrorView,
            >(e)
        },
{
}

} // verus!
