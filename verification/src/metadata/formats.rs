//! Formats of logs, key-value data and data lakes.

use vstd::prelude::*;

use crate::error::{Error, ErrorView, Result};
use crate::text::{self, parse_i32_chars, same_ignoring_ascii_case, same_text, to_upper, trim_chars};

verus! {

/// How the log of a table is written.
#[derive(Debug, Clone, Copy, PartialEq, Eq, Structural)]
pub enum LogFormat {
    ARROW,
    INDEXED,
}

/// The log format with a name in upper case; `raw` is the name as it was given.
pub open spec fn log_format(upper: Seq<char>, raw: Seq<char>) -> core::result::Result<
    LogFormat,
    ErrorView,
> {
    if upper == "ARROW"@ {
        Ok(LogFormat::ARROW)
    } else if upper == "INDEXED"@ {
        Ok(LogFormat::INDEXED)
    } else {
        Err(ErrorView::InvalidTable("Unknown log format: "@ + raw))
    }
}

impl LogFormat {
    pub open spec fn text(self) -> Seq<char> {
        match self {
            LogFormat::ARROW => "ARROW"@,
            LogFormat::INDEXED => "INDEXED"@,
        }
    }

    pub fn to_string(&self) -> (r: String)
        ensures
            r@ == self.text(),
    {
        match self {
            LogFormat::ARROW => "ARROW".to_owned(),
            LogFormat::INDEXED => "INDEXED".to_owned(),
        }
    }

    /// Reads a name of a format, in upper or lower case.
    pub fn parse(s: &str) -> (r: Result<Self>)
        ensures
            crate::error::err_view(r) == log_format(text::uppercase(s@), s@),
            vstd::utf8::is_ascii_chars(s@) ==> crate::error::err_view(r) == log_format(
                text::ascii_uppercase(s@),
                s@,
            ),
    {
        Self::from_upper(to_upper(s).as_str(), s)
    }

    /// Reads a name of a format that was brought to upper case from `raw`.
    pub fn from_upper(upper: &str, raw: &str) -> (r: Result<Self>)
        ensures
            crate::error::err_view(r) == log_format(upper@, raw@),
    {
        if same_text(upper, "ARROW") {
            Ok(LogFormat::ARROW)
        } else if same_text(upper, "INDEXED") {
            Ok(LogFormat::INDEXED)
        } else {
            let mut message = "Unknown log format: ".to_owned();
            message.append(raw);
            Err(Error::invalid_table(message))
        }
    }
}

/// How the rows of a primary-key table are written.
#[derive(Debug, Clone, Copy, PartialEq, Eq, Structural)]
pub enum KvFormat {
    INDEXED,
    COMPACTED,
}

/// The key-value format with a name in upper case; `raw` is the name as it was
/// given.
pub open spec fn kv_format(upper: Seq<char>, raw: Seq<char>) -> core::result::Result<
    KvFormat,
    ErrorView,
> {
    if upper == "INDEXED"@ {
        Ok(KvFormat::INDEXED)
    } else if upper == "COMPACTED"@ {
        Ok(KvFormat::COMPACTED)
    } else {
        Err(ErrorView::InvalidTable("Unknown kv format: "@ + raw))
    }
}

/// The key-value format with exactly this name.
pub open spec fn kv_format_named(name: Seq<char>) -> core::result::Result<KvFormat, ErrorView> {
    if name == "INDEXED"@ {
        Ok(KvFormat::INDEXED)
    } else if name == "COMPACTED"@ {
        Ok(KvFormat::COMPACTED)
    } else {
        Err(ErrorView::IllegalArgument("Matching variant not found"@))
    }
}

impl KvFormat {
    pub open spec fn text(self) -> Seq<char> {
        match self {
            KvFormat::INDEXED => "INDEXED"@,
            KvFormat::COMPACTED => "COMPACTED"@,
        }
    }

    pub fn to_string(&self) -> (r: String)
        ensures
            r@ == self.text(),
    {
        match self {
            KvFormat::INDEXED => "INDEXED".to_owned(),
            KvFormat::COMPACTED => "COMPACTED".to_owned(),
        }
    }

    /// Reads a name of a format, in upper or lower case.
    pub fn parse(s: &str) -> (r: Result<Self>)
        ensures
            crate::error::err_view(r) == kv_format(text::uppercase(s@), s@),
            vstd::utf8::is_ascii_chars(s@) ==> crate::error::err_view(r) == kv_format(
                text::ascii_uppercase(s@),
                s@,
            ),
    {
        Self::from_upper(to_upper(s).as_str(), s)
    }

    /// Reads a name of a format that was brought to upper case from `raw`.
    pub fn from_upper(upper: &str, raw: &str) -> (r: Result<Self>)
        ensures
            crate::error::err_view(r) == kv_format(upper@, raw@),
    {
        if same_text(upper, "INDEXED") {
            Ok(KvFormat::INDEXED)
        } else if same_text(upper, "COMPACTED") {
            Ok(KvFormat::COMPACTED)
        } else {
            let mut message = "Unknown kv format: ".to_owned();
            message.append(raw);
            Err(Error::invalid_table(message))
        }
    }

    /// Reads a name of a format exactly as it is written.
    pub fn from_name(name: &str) -> (r: Result<Self>)
        ensures
            crate::error::err_view(r) == kv_format_named(name@),
    {
        if same_text(name, "INDEXED") {
            Ok(KvFormat::INDEXED)
        } else if same_text(name, "COMPACTED") {
            Ok(KvFormat::COMPACTED)
        } else {
            Err(Error::illegal_argument("Matching variant not found"))
        }
    }
}

/// A printed log format reads back as itself.
pub proof fn log_format_reads_back(format: LogFormat)
    ensures
        log_format(format.text(), format.text()) == Ok::<LogFormat, ErrorView>(format),
{
    reveal_strlit("ARROW");
    reveal_strlit("INDEXED");
    assert("ARROW"@.len() != "INDEXED"@.len());
}

/// A printed key-value format reads back as itself, by its exact name too.
pub proof fn kv_format_reads_back(format: KvFormat)
    ensures
        kv_format(format.text(), format.text()) == Ok::<KvFormat, ErrorView>(format),
        kv_format_named(format.text()) == Ok::<KvFormat, ErrorView>(format),
{
    reveal_strlit("INDEXED");
    reveal_strlit("COMPACTED");
    assert("COMPACTED"@.len() != "INDEXED"@.len());
}

/// The names of formats are in upper case already.
pub proof fn names_are_upper_case(log: LogFormat, kv: KvFormat)
    ensures
        vstd::utf8::is_ascii_chars(log.text()),
        text::ascii_uppercase(log.text()) == log.text(),
        vstd::utf8::is_ascii_chars(kv.text()),
        text::ascii_uppercase(kv.text()) == kv.text(),
{
    reveal_strlit("ARROW");
    reveal_strlit("INDEXED");
    reveal_strlit("COMPACTED");
    assert(text::ascii_uppercase(log.text()) =~= log.text());
    assert(text::ascii_uppercase(kv.text()) =~= kv.text());
}

/// KV layout version from `table.kv.format-version`.
///
/// Unset or unparseable values resolve to [`KvFormatVersion::V1`].
#[derive(Debug, Clone, Copy, PartialEq, Eq, Hash, Structural)]
pub enum KvFormatVersion {
    V1,
    V2,
}

impl Default for KvFormatVersion {
    fn default() -> (r: Self)
        ensures
            r == KvFormatVersion::V1,
    {
        KvFormatVersion::V1
    }
}

/// The version that a property value gives.
pub open spec fn kv_format_version(raw: Option<Seq<char>>) -> KvFormatVersion {
    match raw {
        Some(s) => if text::parsed_i32(text::trimmed(s)) == Some(2i32) {
            KvFormatVersion::V2
        } else {
            KvFormatVersion::V1
        },
        None => KvFormatVersion::V1,
    }
}

impl KvFormatVersion {
    /// Parse the `table.kv.format-version` property value.
    ///
    /// Whitespace-only and non-numeric garbage fall back to [`Default::default`] ([`V1`](Self::V1)).
    /// Only `1` and `2` are recognized as explicit versions; other integers also fall back to `V1`.
    pub fn parse_property(raw: Option<&str>) -> (r: Self)
        ensures
            r == kv_format_version(text::opt_str(raw)),
    {
        match raw {
            Some(s) => {
                let trimmed = trim_chars(s);
                match parse_i32_chars(&trimmed) {
                    Some(1) => KvFormatVersion::V1,
                    Some(2) => KvFormatVersion::V2,
                    _ => Self::default(),
                }
            },
            None => Self::default(),
        }
    }
}

/// Where a table is tiered to.
#[derive(Debug, Clone, Copy, PartialEq, Eq, Hash, Structural)]
pub enum DataLakeFormat {
    Paimon,
    Lance,
    Iceberg,
}

/// The data lake format with this name, in upper or lower case.
pub open spec fn data_lake_format(name: Seq<char>) -> core::result::Result<
    DataLakeFormat,
    ErrorView,
> {
    if text::equal_ignoring_ascii_case(name, "paimon"@) {
        Ok(DataLakeFormat::Paimon)
    } else if text::equal_ignoring_ascii_case(name, "lance"@) {
        Ok(DataLakeFormat::Lance)
    } else if text::equal_ignoring_ascii_case(name, "iceberg"@) {
        Ok(DataLakeFormat::Iceberg)
    } else {
        Err(ErrorView::IllegalArgument("Matching variant not found"@))
    }
}

impl DataLakeFormat {
    pub fn from_name(name: &str) -> (r: Result<Self>)
        ensures
            crate::error::err_view(r) == data_lake_format(name@),
    {
        if same_ignoring_ascii_case(name, "paimon") {
            Ok(DataLakeFormat::Paimon)
        } else if same_ignoring_ascii_case(name, "lance") {
            Ok(DataLakeFormat::Lance)
        } else if same_ignoring_ascii_case(name, "iceberg") {
            Ok(DataLakeFormat::Iceberg)
        } else {
            Err(Error::illegal_argument("Matching variant not found"))
        }
    }
}

/// The exact names of key-value formats, and no others, name them.
pub proof fn kv_names_decide(name: Seq<char>)
    ensures
        kv_format_named(name) == Ok::<KvFormat, ErrorView>(KvFormat::COMPACTED) <==> name
            == "COMPACTED"@,
        kv_format_named(name) == Ok::<KvFormat, ErrorView>(KvFormat::INDEXED) <==> name
            == "INDEXED"@,
        kv_format_named(name) is Ok <==> name == "COMPACTED"@ || name == "INDEXED"@,
        kv_format(name, name) is Ok <==> kv_format_named(name) is Ok,
        kv_format(name, name) matches Ok(f) ==> kv_format_named(name) == Ok::<
            KvFormat,
            ErrorView,
        >(f) && f.text() == name,
{
    reveal_strlit("INDEXED");
    reveal_strlit("COMPACTED");
    assert("COMPACTED"@.len() != "INDEXED"@.len());
}

/// What a text names as a format does not depend on how it was written before it
/// was brought to upper case; only the error names it as it was.
pub proof fn upper_names_decide(upper: Seq<char>, raw: Seq<char>, other: Seq<char>)
    ensures
        log_format(upper, raw) == Ok::<LogFormat, ErrorView>(LogFormat::ARROW) <==> upper
            == "ARROW"@,
        log_format(upper, raw) == Ok::<LogFormat, ErrorView>(LogFormat::INDEXED) <==> upper
            == "INDEXED"@,
        kv_format(upper, raw) == Ok::<KvFormat, ErrorView>(KvFormat::COMPACTED) <==> upper
            == "COMPACTED"@,
        kv_format(upper, raw) == Ok::<KvFormat, ErrorView>(KvFormat::INDEXED) <==> upper
            == "INDEXED"@,
        log_format(upper, raw) is Ok ==> log_format(upper, raw) == log_format(upper, other),
        kv_format(upper, raw) is Ok ==> kv_format(upper, raw) == kv_format(upper, other),
        log_format(upper, raw) is Err ==> log_format(upper, raw)->Err_0 is InvalidTable,
        kv_format(upper, raw) is Err ==> kv_format(upper, raw)->Err_0 is InvalidTable,
{
    reveal_strlit("ARROW");
    reveal_strlit("INDEXED");
    reveal_strlit("COMPACTED");
    assert("ARROW"@.len() == 5 && "INDEXED"@.len() == 7 && "COMPACTED"@.len() == 9);
}

/// Only the number 2, with whatever white space around it, asks for the second
/// version; every other number, what is no number, and nothing at all ask for the
/// first.
pub proof fn only_two_is_version_two(n: i32, before: Seq<char>, after: Seq<char>, raw: Seq<char>)
    requires
        forall|i: int| 0 <= i < before.len() ==> text::white_space(#[trigger] before[i]),
        forall|i: int| 0 <= i < after.len() ==> text::white_space(#[trigger] after[i]),
    ensures
        kv_format_version(Some(before + text::int_text(n as int) + after)) == KvFormatVersion::V2
            <==> n == 2,
        kv_format_version(None) == KvFormatVersion::V1,
        text::parsed_i32(text::trimmed(raw)) is None ==> kv_format_version(Some(raw))
            == KvFormatVersion::V1,
{
    let shown = text::int_text(n as int);
    text::numbers_have_no_white_space(n as int);
    text::padding_does_not_count(before, shown, after);
    text::small_numbers_are_read(shown, n);
}

/// The three data lakes go by their names in any mix of cases, and by nothing
/// else.
pub proof fn data_lakes_go_by_name(name: Seq<char>, lower: Seq<char>)
    requires
        lower.len() == name.len(),
        forall|i: int| 0 <= i < name.len() ==> #[trigger] lower[i] == text::ascii_lower(name[i]),
    ensures
        data_lake_format(name) == Ok::<DataLakeFormat, ErrorView>(DataLakeFormat::Paimon) <==> lower
            == "paimon"@,
        data_lake_format(name) == Ok::<DataLakeFormat, ErrorView>(DataLakeFormat::Lance) <==> lower
            == "lance"@,
        data_lake_format(name) == Ok::<DataLakeFormat, ErrorView>(DataLakeFormat::Iceberg) <==> lower
            == "iceberg"@,
        data_lake_format(name) is Err ==> data_lake_format(name)->Err_0 is IllegalArgument,
{
    assert(name.map_values(|c: char| text::ascii_lower(c)) =~= lower);
    reveal_strlit("paimon");
    reveal_strlit("lance");
    reveal_strlit("iceberg");
    assert("paimon"@.len() == 6 && "lance"@.len() == 5 && "iceberg"@.len() == 7);
}

} // verus!
