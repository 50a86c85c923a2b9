//! Compression of Arrow log batches.

use vstd::prelude::*;

use crate::error::{Error, ErrorView, Result};
use crate::property_map::PropertyMap;
use crate::text::{self, concat3, i64_to_text, parse_i32, same_text};

verus! {

/// The level of compressions that have no level.
pub const DEFAULT_NON_ZSTD_COMPRESSION_LEVEL: i32 = -1;

/// The level of ZSTD where none is configured.
pub const DEFAULT_ZSTD_COMPRESSION_LEVEL: i32 = 3;

#[derive(Debug, Clone, Copy, PartialEq, Eq, Structural)]
pub enum ArrowCompressionType {
    Uncompressed,
    Lz4Frame,
    Zstd,
}

#[derive(Debug, Clone, Copy, PartialEq, Eq, Structural)]
pub struct ArrowCompressionInfo {
    pub compression_type: ArrowCompressionType,
    pub compression_level: i32,
}

/// The compression that properties configure, or why they are refused.
pub open spec fn compression(properties: Map<Seq<char>, Seq<char>>) -> core::result::Result<
    ArrowCompressionInfo,
    ErrorView,
> {
    let kind = "table.log.arrow.compression.type"@;
    let zstd = !properties.dom().contains(kind) || properties[kind] == "ZSTD"@;
    if zstd {
        zstd_compression(properties)
    } else if properties[kind] == "NONE"@ {
        Ok(
            ArrowCompressionInfo {
                compression_type: ArrowCompressionType::Uncompressed,
                compression_level: DEFAULT_NON_ZSTD_COMPRESSION_LEVEL,
            },
        )
    } else if properties[kind] == "LZ4_FRAME"@ {
        Ok(
            ArrowCompressionInfo {
                compression_type: ArrowCompressionType::Lz4Frame,
                compression_level: DEFAULT_NON_ZSTD_COMPRESSION_LEVEL,
            },
        )
    } else {
        Err(ErrorView::IllegalArgument("Unsupported compression type: "@ + properties[kind]))
    }
}

/// ZSTD at the level that properties configure.
pub open spec fn zstd_compression(properties: Map<Seq<char>, Seq<char>>) -> core::result::Result<
    ArrowCompressionInfo,
    ErrorView,
> {
    let level = "table.log.arrow.compression.zstd.level"@;
    if !properties.dom().contains(level) {
        Ok(
            ArrowCompressionInfo {
                compression_type: ArrowCompressionType::Zstd,
                compression_level: DEFAULT_ZSTD_COMPRESSION_LEVEL,
            },
        )
    } else {
        match text::parsed_i32(properties[level]) {
            Some(n) => if 1 <= n <= 22 {
                Ok(
                    ArrowCompressionInfo {
                        compression_type: ArrowCompressionType::Zstd,
                        compression_level: n,
                    },
                )
            } else {
                Err(
                    ErrorView::IllegalArgument(
                        "Invalid ZSTD compression level: "@ + text::int_text(n as int)
                            + ". Expected a value between 1 and 22."@,
                    ),
                )
            },
            None => Err(
                ErrorView::IllegalArgument(
                    "Invalid ZSTD compression level. Expected a value between 1 and 22."@,
                ),
            ),
        }
    }
}

impl ArrowCompressionInfo {
    pub fn from_conf(properties: &PropertyMap) -> (r: Result<Self>)
        ensures
            crate::error::err_view(r) == compression(properties@),
    {
        match properties.get("table.log.arrow.compression.type") {
            Some(kind) => {
                if same_text(kind.as_str(), "ZSTD") {
                    Self::zstd_from_conf(properties)
                } else if same_text(kind.as_str(), "NONE") {
                    Ok(
                        ArrowCompressionInfo {
                            compression_type: ArrowCompressionType::Uncompressed,
                            compression_level: DEFAULT_NON_ZSTD_COMPRESSION_LEVEL,
                        },
                    )
                } else if same_text(kind.as_str(), "LZ4_FRAME") {
                    Ok(
                        ArrowCompressionInfo {
                            compression_type: ArrowCompressionType::Lz4Frame,
                            compression_level: DEFAULT_NON_ZSTD_COMPRESSION_LEVEL,
                        },
                    )
                } else {
                    let mut message = "Unsupported compression type: ".to_owned();
                    message.append(kind.as_str());
                    Err(Error::illegal_argument(message))
                }
            },
            None => Self::zstd_from_conf(properties),
        }
    }

    fn zstd_from_conf(properties: &PropertyMap) -> (r: Result<Self>)
        ensures
            crate::error::err_view(r) == zstd_compression(properties@),
    {
        let level: i32 = match properties.get("table.log.arrow.compression.zstd.level") {
            Some(level) => match parse_i32(level.as_str()) {
                Some(level) => {
                    if level < 1 || level > 22 {
                        return Err(
                            Error::illegal_argument(
                                concat3(
                                    "Invalid ZSTD compression level: ",
                                    i64_to_text(level as i64).as_str(),
                                    ". Expected a value between 1 and 22.",
                                ),
                            ),
                        );
                    }
                    level
                },
                None => {
                    return Err(
                        Error::illegal_argument(
                            "Invalid ZSTD compression level. Expected a value between 1 and 22.",
                        ),
                    );
                },
            },
            None => DEFAULT_ZSTD_COMPRESSION_LEVEL,
        };
        Ok(
            ArrowCompressionInfo {
                compression_type: ArrowCompressionType::Zstd,
                compression_level: level,
            },
        )
    }
}

/// Which compression is asked for: `NONE` and `LZ4_FRAME` by name, Zstandard by
/// name or by saying nothing, and nothing else.
pub proof fn compression_goes_by_name(properties: Map<Seq<char>, Seq<char>>)
    ensures
        ({
            let kind = "table.log.arrow.compression.type"@;
            let said = properties.contains_key(kind);
            let asked = compression(properties);
            &&& asked matches Ok(info) ==> {
                &&& info.compression_type == ArrowCompressionType::Uncompressed <==> said
                    && properties[kind] == "NONE"@
                &&& info.compression_type == ArrowCompressionType::Lz4Frame <==> said
                    && properties[kind] == "LZ4_FRAME"@
                &&& info.compression_type == ArrowCompressionType::Zstd <==> !said
                    || properties[kind] == "ZSTD"@
                &&& info.compression_type != ArrowCompressionType::Zstd ==> info.compression_level
                    == -1
            }
            &&& said && (properties[kind] == "NONE"@ || properties[kind] == "LZ4_FRAME"@)
                ==> asked is Ok
            &&& said && properties[kind] != "NONE"@ && properties[kind] != "LZ4_FRAME"@
                && properties[kind] != "ZSTD"@ ==> asked is Err
            &&& asked matches Err(e) ==> e is IllegalArgument
        }),
{
    reveal_strlit("NONE");
    reveal_strlit("LZ4_FRAME");
    reveal_strlit("ZSTD");
    assert("NONE"@[0] == 'N' && "LZ4_FRAME"@[0] == 'L' && "ZSTD"@[0] == 'Z');
}

/// Zstandard has the level that the property says where it is one of 1 to 22, is
/// refused where it says anything else, and has level 3 where it says nothing.
pub proof fn levels_of_zstandard(properties: Map<Seq<char>, Seq<char>>, n: i32)
    requires
        !properties.contains_key("table.log.arrow.compression.type"@)
            || properties["table.log.arrow.compression.type"@] == "ZSTD"@,
    ensures
        ({
            let level = "table.log.arrow.compression.zstd.level"@;
            let asked = compression(properties);
            let at = compression(properties.insert(level, text::int_text(n as int)));
            &&& at is Ok <==> 1 <= n <= 22
            &&& at matches Ok(info) ==> info.compression_type == ArrowCompressionType::Zstd
                && info.compression_level == n
            &&& !properties.contains_key(level) ==> (asked matches Ok(info)
                && info.compression_type == ArrowCompressionType::Zstd && info.compression_level
                == 3)
            &&& properties.contains_key(level) && text::parsed_i32(properties[level]) is None
                ==> asked is Err
        }),
{
    text::small_numbers_are_read(text::int_text(n as int), n);
    reveal_strlit("table.log.arrow.compression.type");
    reveal_strlit("table.log.arrow.compression.zstd.level");
    assert("table.log.arrow.compression.type"@.len() != "table.log.arrow.compression.zstd.level"@.len());
}

} // verus!
