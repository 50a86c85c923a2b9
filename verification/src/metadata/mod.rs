//! Tables and what describes them.

pub mod datatype;
pub mod type_text;
pub mod field_ids;
pub mod schema;
pub mod formats;
pub mod bucket;
pub mod path;
pub mod config;
pub mod descriptor;
pub mod table_info;

pub use bucket::{BucketId, BucketMap, LakeSnapshot, PartitionId, TableBucket, TableId};
pub use config::{AutoPartitionStrategy, TableConfig};
pub use datatype::{
    ArrayType, BigIntType, BinaryType, BooleanType, BytesType, CharType, DataField, DataType,
    DataTypes, DateType, DecimalType, DoubleType, FloatType, IntType, MapType, RowType,
    SmallIntType, StringType, TimeType, TimestampLTzType, TimestampType, TinyIntType,
};
pub use descriptor::{TableDescriptor, TableDescriptorBuilder, TableDistribution};
pub use formats::{DataLakeFormat, KvFormat, KvFormatVersion, LogFormat};
pub use path::{PhysicalTablePath, TablePath, MAX_NAME_LENGTH};
pub use schema::{Column, PrimaryKey, Schema, SchemaBuilder, SchemaInfo};
pub use table_info::TableInfo;
