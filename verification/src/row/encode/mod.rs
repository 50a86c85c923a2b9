//! Encoding keys and rows.

pub mod compacted_key_encoder;
pub mod compacted_row_encoder;
pub mod iceberg_key_encoder;

use bytes::Bytes;
use vstd::prelude::*;

use crate::byte_buffer;
use crate::error::{self, Error, ErrorView, Result};
use crate::metadata::config::{self, TableConfig};
use crate::metadata::datatype::{RowType, RowView};
use crate::metadata::formats::{self, DataLakeFormat, KvFormat, KvFormatVersion};
use crate::row::datum::{Datum, DatumView};
use crate::row::datum_text;
use crate::row::encode::compacted_key_encoder::CompactedKeyEncoder;
use crate::row::encode::compacted_row_encoder::CompactedRowEncoder;
use crate::row::encode::iceberg_key_encoder::IcebergKeyEncoder;
use crate::row::compacted::compacted_row;
use crate::row::field_kind::{self, ValueWriter};
use crate::row::internal_row::InternalRow;
use crate::text;

verus! {

/// Whether a buffer that grows to twice its size has room for a key.
pub open spec fn key_fits(key: Option<Seq<u8>>) -> bool {
    key matches Some(key) ==> 2 * key.len() <= byte_buffer::buffer_limit()
}

/// An interface for encoding key of row into bytes.
pub trait KeyEncoder: Send + Sync {
    /// Whether the encoder is in order.
    spec fn valid(&self) -> bool;

    /// The key of a row, where it has one.
    spec fn key_of(&self, row: Seq<DatumView>) -> Option<Seq<u8>>;

    /// Whether an error says why a row has no key.
    spec fn refuses(&self, e: ErrorView, row: Seq<DatumView>) -> bool;

    /// Whether the machine has room for the key of a row.
    spec fn fits(&self, row: Seq<DatumView>) -> bool;

    fn encode_key(&mut self, row: &dyn InternalRow) -> (r: Result<Bytes>)
        requires
            old(self).valid(),
            old(self).fits(row.row()),
        ensures
            final(self).valid(),
            forall|x: Seq<DatumView>| #[trigger] final(self).key_of(x) == old(self).key_of(x),
            forall|x: Seq<DatumView>| #[trigger] final(self).fits(x) == old(self).fits(x),
            forall|e: ErrorView, x: Seq<DatumView>| #[trigger]
                final(self).refuses(e, x) == old(self).refuses(e, x),
            match r {
                Ok(bytes) => old(self).key_of(row.row()) == Some(byte_buffer::contents(bytes)),
                Err(e) => old(self).key_of(row.row()) is None && old(self).refuses(e@, row.row()),
            },
    ;
}

/// A format of keys.
#[derive(Debug, Clone, Copy, PartialEq, Eq, Structural)]
pub enum KeyFormat {
    Iceberg,
    Compacted,
    Unsupported,
}

/// The format of keys in a data lake.
pub open spec fn key_format(data_lake_format: Option<DataLakeFormat>) -> KeyFormat {
    match data_lake_format {
        Some(DataLakeFormat::Paimon) => KeyFormat::Unsupported,
        Some(DataLakeFormat::Iceberg) => KeyFormat::Iceberg,
        Some(DataLakeFormat::Lance) | None => KeyFormat::Compacted,
    }
}

/// The format of primary keys. A key that is not the bucket key of a version 2
/// table is always compacted, so that its prefixes can be looked up.
pub open spec fn primary_key_format(
    version: KvFormatVersion,
    is_default_bucket_key: bool,
    data_lake_format: Option<DataLakeFormat>,
) -> KeyFormat {
    if version == KvFormatVersion::V2 && !is_default_bucket_key {
        KeyFormat::Compacted
    } else {
        key_format(data_lake_format)
    }
}

/// Whether the columns `keys` of a row type have an encoder in a format.
pub open spec fn has_encoder(format: KeyFormat, row_type: RowView, keys: Seq<Seq<char>>) -> bool {
    match format {
        KeyFormat::Iceberg => iceberg_key_encoder::key_field(row_type, keys) is Some,
        KeyFormat::Compacted => compacted_key_encoder::key_fields(row_type, keys) is Some,
        KeyFormat::Unsupported => false,
    }
}

/// The key that the columns `keys` of a row make up in a format.
pub open spec fn format_key(
    format: KeyFormat,
    row_type: RowView,
    keys: Seq<Seq<char>>,
    row: Seq<DatumView>,
) -> Option<Seq<u8>> {
    match format {
        KeyFormat::Iceberg => iceberg_key_encoder::row_key(
            iceberg_key_encoder::key_field(row_type, keys)->0,
            row,
        ),
        KeyFormat::Compacted => compacted_key_encoder::row_key(
            compacted_key_encoder::key_fields(row_type, keys)->0,
            row,
        ),
        KeyFormat::Unsupported => None,
    }
}

/// Whether an error says why the columns `keys` of a row make up no key in a
/// format.
pub open spec fn format_refuses(
    format: KeyFormat,
    row_type: RowView,
    keys: Seq<Seq<char>>,
    e: ErrorView,
    row: Seq<DatumView>,
) -> bool {
    match format {
        KeyFormat::Iceberg => iceberg_key_encoder::refuses_row(
            e,
            iceberg_key_encoder::key_field(row_type, keys)->0,
            row,
        ),
        KeyFormat::Compacted => compacted_key_encoder::refuses_row(
            e,
            compacted_key_encoder::key_fields(row_type, keys)->0,
            row,
        ),
        KeyFormat::Unsupported => false,
    }
}

/// Whether the machine has room for the key that the columns `keys` of a row make
/// up in a format. The buffer of a compacted key grows as it needs to.
pub open spec fn format_fits(
    format: KeyFormat,
    row_type: RowView,
    keys: Seq<Seq<char>>,
    row: Seq<DatumView>,
) -> bool {
    format == KeyFormat::Iceberg ==> key_fits(format_key(format, row_type, keys, row))
}

/// Whether an encoder encodes the columns `keys` of a row type in a format.
pub open spec fn encodes<E: KeyEncoder + ?Sized>(
    encoder: &E,
    format: KeyFormat,
    row_type: RowView,
    keys: Seq<Seq<char>>,
) -> bool {
    &&& encoder.valid()
    &&& has_encoder(format, row_type, keys)
    &&& forall|row: Seq<DatumView>| #[trigger]
        encoder.key_of(row) == format_key(format, row_type, keys, row)
    &&& forall|e: ErrorView, row: Seq<DatumView>| #[trigger]
        encoder.refuses(e, row) == format_refuses(format, row_type, keys, e, row)
    &&& forall|row: Seq<DatumView>| #[trigger]
        encoder.fits(row) == format_fits(format, row_type, keys, row)
}

/// Whether an error says why the columns `keys` of a row type have no encoder in
/// a format.
pub open spec fn has_no_encoder(
    e: ErrorView,
    format: KeyFormat,
    row_type: RowView,
    keys: Seq<Seq<char>>,
) -> bool {
    &&& !has_encoder(format, row_type, keys)
    &&& match format {
        KeyFormat::Iceberg => iceberg_key_encoder::refuses_key(e, row_type, keys),
        KeyFormat::Compacted => compacted_key_encoder::refuses_keys(e, row_type, keys),
        KeyFormat::Unsupported => e == ErrorView::UnsupportedOperation(
            "KeyEncoder for Paimon format is not yet implemented"@,
        ),
    }
}

/// An encoder in one of the formats of keys.
pub enum FormatKeyEncoder {
    Iceberg(IcebergKeyEncoder),
    Compacted(CompactedKeyEncoder),
}

impl FormatKeyEncoder {
    /// An encoder of the columns `keys` of a row type in a format.
    pub fn create(format: KeyFormat, row_type: &RowType, keys: &[String]) -> (r: Result<Self>)
        ensures
            match r {
                Ok(encoder) => encodes(&encoder, format, row_type@, text::names(keys@)),
                Err(e) => has_no_encoder(e@, format, row_type@, text::names(keys@)),
            },
    {
        match format {
            KeyFormat::Iceberg => match IcebergKeyEncoder::create_key_encoder(row_type, keys) {
                Ok(encoder) => Ok(FormatKeyEncoder::Iceberg(encoder)),
                Err(e) => Err(e),
            },
            KeyFormat::Compacted => match CompactedKeyEncoder::create_key_encoder(row_type, keys) {
                Ok(encoder) => Ok(FormatKeyEncoder::Compacted(encoder)),
                Err(e) => Err(e),
            },
            KeyFormat::Unsupported => Err(
                Error::unsupported("KeyEncoder for Paimon format is not yet implemented"),
            ),
        }
    }

    /// The key of a row.
    pub fn encode_row<R: InternalRow + ?Sized>(&mut self, row: &R) -> (r: Result<Bytes>)
        requires
            old(self).valid(),
            old(self).fits(row.row()),
        ensures
            final(self).valid(),
            forall|x: Seq<DatumView>| #[trigger] final(self).key_of(x) == old(self).key_of(x),
            forall|x: Seq<DatumView>| #[trigger] final(self).fits(x) == old(self).fits(x),
            forall|e: ErrorView, x: Seq<DatumView>| #[trigger]
                final(self).refuses(e, x) == old(self).refuses(e, x),
            match r {
                Ok(bytes) => old(self).key_of(row.row()) == Some(byte_buffer::contents(bytes)),
                Err(e) => old(self).key_of(row.row()) is None && old(self).refuses(e@, row.row()),
            },
    {
        match self {
            FormatKeyEncoder::Iceberg(encoder) => encoder.encode_row(row),
            FormatKeyEncoder::Compacted(encoder) => encoder.encode_row(row),
        }
    }
}

impl KeyEncoder for FormatKeyEncoder {
    open spec fn valid(&self) -> bool {
        match self {
            FormatKeyEncoder::Iceberg(encoder) => encoder.valid(),
            FormatKeyEncoder::Compacted(encoder) => encoder.valid(),
        }
    }

    open spec fn key_of(&self, row: Seq<DatumView>) -> Option<Seq<u8>> {
        match self {
            FormatKeyEncoder::Iceberg(encoder) => encoder.key_of(row),
            FormatKeyEncoder::Compacted(encoder) => encoder.key_of(row),
        }
    }

    open spec fn refuses(&self, e: ErrorView, row: Seq<DatumView>) -> bool {
        match self {
            FormatKeyEncoder::Iceberg(encoder) => encoder.refuses(e, row),
            FormatKeyEncoder::Compacted(encoder) => encoder.refuses(e, row),
        }
    }

    open spec fn fits(&self, row: Seq<DatumView>) -> bool {
        match self {
            FormatKeyEncoder::Iceberg(encoder) => encoder.fits(row),
            FormatKeyEncoder::Compacted(encoder) => encoder.fits(row),
        }
    }

    fn encode_key(&mut self, row: &dyn InternalRow) -> (r: Result<Bytes>) {
        self.encode_row(row)
    }
}

pub struct KeyEncoderFactory;

impl KeyEncoderFactory {
    /// Lake-aware key encoding (used for **bucket** keys).
    ///
    /// For **primary key** bytes on tables with `table.kv.format-version` = 2, use
    /// [`Self::of_primary_key`] instead.
    pub fn of(
        row_type: &RowType,
        key_fields: &[String],
        data_lake_format: &Option<DataLakeFormat>,
    ) -> (r: Result<Box<dyn KeyEncoder + 'static>>)
        ensures
            match r {
                Ok(encoder) => encodes(
                    &*encoder,
                    key_format(*data_lake_format),
                    row_type@,
                    text::names(key_fields@),
                ),
                Err(e) => has_no_encoder(
                    e@,
                    key_format(*data_lake_format),
                    row_type@,
                    text::names(key_fields@),
                ),
            },
    {
        match FormatKeyEncoder::create(Self::format_of(data_lake_format), row_type, key_fields) {
            Ok(encoder) => Ok(Box::new(encoder)),
            Err(e) => Err(e),
        }
    }

    /// The format of keys in a data lake.
    pub fn format_of(data_lake_format: &Option<DataLakeFormat>) -> (r: KeyFormat)
        ensures
            r == key_format(*data_lake_format),
    {
        match data_lake_format {
            Some(DataLakeFormat::Paimon) => KeyFormat::Unsupported,
            Some(DataLakeFormat::Lance) => KeyFormat::Compacted,
            Some(DataLakeFormat::Iceberg) => KeyFormat::Iceberg,
            None => KeyFormat::Compacted,
        }
    }

    /// The format of the primary keys of a table.
    pub fn format_of_primary_key(table_config: &TableConfig, is_default_bucket_key: bool) -> (r:
        Result<KeyFormat>)
        ensures
            error::err_view(r) == match config::configured_lake(table_config.properties@) {
                Err(e) => Err(e),
                Ok(lake) => Ok(
                    primary_key_format(
                        formats::kv_format_version(
                            config::property(
                                table_config.properties@,
                                "table.kv.format-version"@,
                            ),
                        ),
                        is_default_bucket_key,
                        lake,
                    ),
                ),
            },
    {
        let kv_version = table_config.get_kv_format_version();
        let data_lake_format = match table_config.get_datalake_format() {
            Ok(f) => f,
            Err(e) => {
                return Err(e);
            },
        };
        match (kv_version, is_default_bucket_key) {
            (KvFormatVersion::V1, _) | (KvFormatVersion::V2, true) => Ok(
                Self::format_of(&data_lake_format),
            ),
            (KvFormatVersion::V2, false) => Ok(KeyFormat::Compacted),
        }
    }

    /// Primary key encoder.
    ///
    /// When `table.kv.format-version` is **2** and the table uses a **custom** bucket key
    /// (`is_default_bucket_key == false`), the primary key is encoded with
    /// [`CompactedKeyEncoder`] so prefix lookups work, even for Iceberg-tiered tables.
    /// Otherwise encoding follows [`Self::of`] (v1 tables, or v2 with default bucket key).
    pub fn of_primary_key(
        row_type: &RowType,
        key_fields: &[String],
        table_config: &TableConfig,
        is_default_bucket_key: bool,
    ) -> (r: Result<Box<dyn KeyEncoder + 'static>>)
        ensures
            ({
                let properties = table_config.properties@;
                let version = formats::kv_format_version(
                    config::property(properties, "table.kv.format-version"@),
                );
                match config::configured_lake(properties) {
                    Err(e) => r is Err && r->Err_0@ == e,
                    Ok(lake) => match r {
                        Ok(encoder) => encodes(
                            &*encoder,
                            primary_key_format(version, is_default_bucket_key, lake),
                            row_type@,
                            text::names(key_fields@),
                        ),
                        Err(e) => has_no_encoder(
                            e@,
                            primary_key_format(version, is_default_bucket_key, lake),
                            row_type@,
                            text::names(key_fields@),
                        ),
                    },
                }
            }),
    {
        match Self::format_of_primary_key(table_config, is_default_bucket_key) {
            Ok(format) => match FormatKeyEncoder::create(format, row_type, key_fields) {
                Ok(encoder) => Ok(Box::new(encoder)),
                Err(e) => Err(e),
            },
            Err(e) => Err(e),
        }
    }
}

/// An encoder to write binary row data. It's used to write rows
/// one by one. When writing a new row:
///
/// 1. call method [`RowEncoder::start_new_row()`] to start the writing.
/// 2. call method [`RowEncoder::encode_field()`] to write the row's field.
/// 3. call method [`RowEncoder::finish_row()`] to finish the writing and get the written row.
pub trait RowEncoder: Send + Sync {
    /// Whether the encoder is in order.
    spec fn valid(&self) -> bool;

    /// What is written of each field.
    spec fn fields(&self) -> Seq<ValueWriter>;

    /// The bytes of the row so far.
    spec fn pending(&self) -> Seq<u8>;

    /// Start to write a new row.
    fn start_new_row(&mut self) -> (r: Result<()>)
        requires
            old(self).valid(),
        ensures
            r is Ok,
            final(self).valid(),
            final(self).fields() == old(self).fields(),
            final(self).pending() == compacted_row::written_fields(
                old(self).fields(),
                Seq::empty(),
                0,
            ),
    ;

    /// Write the row's field in given pos with given value.
    fn encode_field(&mut self, pos: usize, value: Datum) -> (r: Result<()>)
        requires
            old(self).valid(),
        ensures
            final(self).valid(),
            final(self).fields() == old(self).fields(),
            if pos >= old(self).fields().len() {
                &&& r is Err
                &&& r->Err_0@ == no_field(pos as int, value@)
                &&& final(self).pending() == old(self).pending()
            } else if takes_value(old(self).fields()[pos as int], value@) {
                &&& r is Ok
                &&& final(self).pending() == compacted_row::write_field(
                    old(self).fields()[pos as int],
                    old(self).pending(),
                    pos as int,
                    value@,
                )
            } else {
                &&& r is Err
                &&& r->Err_0@ == field_kind::misused(
                    old(self).fields()[pos as int].kind,
                    value@,
                )
                &&& final(self).pending() == old(self).pending()
            },
    ;

    /// Finish write the row, returns the written row.
    fn finish_row(&mut self) -> (r: Result<Bytes>)
        requires
            old(self).valid(),
        ensures
            final(self).valid(),
            final(self).fields() == old(self).fields(),
            final(self).pending() == old(self).pending(),
            r is Ok,
            byte_buffer::contents(r->Ok_0) == old(self).pending(),
    ;

    /// Closes the row encoder
    fn close(&mut self) -> (r: Result<()>)
        requires
            old(self).valid(),
        ensures
            final(self).valid(),
            final(self).fields() == old(self).fields(),
            final(self).pending() == old(self).pending(),
            r is Ok,
    ;
}

/// Whether a field can hold a value.
pub open spec fn takes_value(field: ValueWriter, value: DatumView) -> bool {
    field.nullable && value is Null || field.kind.item(value) is Some
}

/// The error for a value for a position without a field.
pub open spec fn no_field(pos: int, value: DatumView) -> ErrorView {
    ErrorView::IllegalArgument(
        "invalid position "@ + text::nat_text(pos as nat)
            + " when attempting to encode value "@ + datum_text::datum_text(value),
    )
}

pub struct RowEncoderFactory {}

impl RowEncoderFactory {
    pub fn create(kv_format: KvFormat, row_type: RowType) -> (r: Result<CompactedRowEncoder>)
        requires
            kv_format == KvFormat::COMPACTED,
        ensures
            compacted_row_encoder::is_encoder_for(r, row_type@),
    {
        Self::create_for_field_types(kv_format, row_type)
    }

    /// An encoder for rows of a type. Only the compacted format has one.
    pub fn create_for_field_types(kv_format: KvFormat, row_type: RowType) -> (r: Result<
        CompactedRowEncoder,
    >)
        requires
            kv_format == KvFormat::COMPACTED,
        ensures
            compacted_row_encoder::is_encoder_for(r, row_type@),
    {
        CompactedRowEncoder::new(row_type)
    }
}

/// Keys are as Iceberg writes them exactly where the data lake is Iceberg; those
/// of a Lance table are the same bytes as those of a table without a data lake,
/// which are compacted. Only Paimon has none.
pub proof fn data_lake_decides_keys(
    lake: Option<DataLakeFormat>,
    row_type: RowView,
    keys: Seq<Seq<char>>,
    row: Seq<DatumView>,
)
    ensures
        lake == Some(DataLakeFormat::Iceberg) ==> {
            &&& has_encoder(key_format(lake), row_type, keys) == (iceberg_key_encoder::key_field(
                row_type,
                keys,
            ) is Some)
            &&& format_key(key_format(lake), row_type, keys, row) == iceberg_key_encoder::row_key(
                iceberg_key_encoder::key_field(row_type, keys)->0,
                row,
            )
        },
        lake == None::<DataLakeFormat> || lake == Some(DataLakeFormat::Lance) ==> {
            &&& has_encoder(key_format(lake), row_type, keys)
                == (compacted_key_encoder::key_fields(row_type, keys) is Some)
            &&& format_key(key_format(lake), row_type, keys, row)
                == compacted_key_encoder::row_key(
                compacted_key_encoder::key_fields(row_type, keys)->0,
                row,
            )
        },
        lake == Some(DataLakeFormat::Paimon) ==> !has_encoder(key_format(lake), row_type, keys),
        format_key(key_format(Some(DataLakeFormat::Lance)), row_type, keys, row) == format_key(
            key_format(None),
            row_type,
            keys,
            row,
        ),
        has_encoder(key_format(Some(DataLakeFormat::Lance)), row_type, keys) == has_encoder(
            key_format(None),
            row_type,
            keys,
        ),
        key_format(lake) == KeyFormat::Iceberg <==> lake == Some(DataLakeFormat::Iceberg),
{
}

/// Primary keys are written as bucket keys are, whatever the version, where the
/// bucket key is the default, and in version 1 always. Where a version 2 table has
/// bucket keys of its own, they are compacted in every data lake.
pub proof fn version_decides_primary_keys(
    version: KvFormatVersion,
    is_default: bool,
    lake: Option<DataLakeFormat>,
    other: Option<DataLakeFormat>,
)
    ensures
        is_default || version == KvFormatVersion::V1 ==> primary_key_format(
            version,
            is_default,
            lake,
        ) == key_format(lake),
        !is_default && version == KvFormatVersion::V2 ==> {
            &&& primary_key_format(version, is_default, lake) == key_format(None)
            &&& primary_key_format(version, is_default, lake) == primary_key_format(
                version,
                is_default,
                other,
            )
        },
{
}

/// A row is refused for one reason, which is the argument, or that of the value
/// that could not be read.
pub proof fn rows_are_refused_for_one_reason(
    format: KeyFormat,
    row_type: RowView,
    keys: Seq<Seq<char>>,
    row: Seq<DatumView>,
    e: ErrorView,
    f: ErrorView,
)
    requires
        format_refuses(format, row_type, keys, e, row),
        format_refuses(format, row_type, keys, f, row),
    ensures
        format_key(format, row_type, keys, row) is None,
        e == f,
        e is IllegalArgument || row.contains(DatumView::Unreadable(e)),
{
    match format {
        KeyFormat::Iceberg => {},
        KeyFormat::Compacted => {
            let fields = compacted_key_encoder::key_fields(row_type, keys)->0;
            let i = choose|i: int|
                {
                    &&& 0 <= i < fields.len()
                    &&& !compacted_key_encoder::has_value(#[trigger] fields[i], row)
                    &&& compacted_key_encoder::refuses_value(e, fields[i], i, row)
                    &&& forall|j: int|
                        0 <= j < i ==> compacted_key_encoder::has_value(#[trigger] fields[j], row)
                };
            let k = choose|i: int|
                {
                    &&& 0 <= i < fields.len()
                    &&& !compacted_key_encoder::has_value(#[trigger] fields[i], row)
                    &&& compacted_key_encoder::refuses_value(f, fields[i], i, row)
                    &&& forall|j: int|
                        0 <= j < i ==> compacted_key_encoder::has_value(#[trigger] fields[j], row)
                };
            assert(!compacted_key_encoder::has_value(fields[i], row));
            assert(!compacted_key_encoder::has_value(fields[k], row));
            if i < k {
                assert(compacted_key_encoder::has_value(fields[i], row));
            }
            if k < i {
                assert(compacted_key_encoder::has_value(fields[k], row));
            }
        },
        KeyFormat::Unsupported => {},
    }
}

/// Columns are refused as a key for one reason: that there is no such encoder or
/// no such type in it, or the argument.
pub proof fn keys_are_refused_for_one_reason(
    format: KeyFormat,
    row_type: RowView,
    keys: Seq<Seq<char>>,
    e: ErrorView,
    f: ErrorView,
)
    requires
        has_no_encoder(e, format, row_type, keys),
        has_no_encoder(f, format, row_type, keys),
    ensures
        e == f,
        e is IllegalArgument || e is UnsupportedOperation,
        format == KeyFormat::Unsupported ==> e is UnsupportedOperation,
        format == KeyFormat::Iceberg && keys.len() != 1 ==> e is IllegalArgument,
        format != KeyFormat::Unsupported && keys.len() == 1 && !row_type.names().contains(keys[0])
            ==> e is IllegalArgument,
{
    if keys.len() == 1 {
        crate::name_list::position_is_first(row_type.names(), keys[0]);
        crate::name_list::first_absent_iff(keys, row_type.names());
    }
    if format == KeyFormat::Compacted && crate::name_list::first_absent(keys, row_type.names())
        is None {
        let i = choose|i: int|
            {
                &&& 0 <= i < keys.len()
                &&& compacted_key_encoder::unsupported_column(row_type, #[trigger] keys[i])
                &&& e == field_kind::unsupported(
                    "Unsupported type for value writer: "@,
                    row_type.fields[crate::name_list::position(
                        row_type.names(),
                        keys[i],
                    )->0].data_type,
                )
                &&& forall|j: int|
                    0 <= j < i ==> !compacted_key_encoder::unsupported_column(
                        row_type,
                        #[trigger] keys[j],
                    )
            };
        let k = choose|i: int|
            {
                &&& 0 <= i < keys.len()
                &&& compacted_key_encoder::unsupported_column(row_type, #[trigger] keys[i])
                &&& f == field_kind::unsupported(
                    "Unsupported type for value writer: "@,
                    row_type.fields[crate::name_list::position(
                        row_type.names(),
                        keys[i],
                    )->0].data_type,
                )
                &&& forall|j: int|
                    0 <= j < i ==> !compacted_key_encoder::unsupported_column(
                        row_type,
                        #[trigger] keys[j],
                    )
            };
        assert(compacted_key_encoder::unsupported_column(row_type, keys[i]));
        assert(compacted_key_encoder::unsupported_column(row_type, keys[k]));
        if i < k {
            assert(!compacted_key_encoder::unsupported_column(row_type, keys[i]));
        }
        if k < i {
            assert(!compacted_key_encoder::unsupported_column(row_type, keys[k]));
        }
    }
}

/// A field takes a value of its kind, and a null where it is nullable.
pub proof fn fields_take_their_values(field: ValueWriter, value: DatumView)
    ensures
        value is Null ==> (takes_value(field, value) <==> field.nullable),
        !(value is Null) ==> (takes_value(field, value) <==> field.kind.read(value) == Some(
            value,
        )),
{
    field_kind::values_are_read_as_they_are(field.kind, value);
}

} // verus!
