//! Names of databases, tables and partitions.

use std::sync::Arc;

use vstd::prelude::*;

use crate::text::{self, concat3, same_text, Text};

verus! {

/// The largest number of bytes in a name.
pub const MAX_NAME_LENGTH: usize = 200;

/// A database and a table in it.
#[derive(Debug, PartialEq, Eq, Hash)]
pub struct TablePath {
    database: String,
    table: String,
}

/// A [`TablePath`] as a value.
pub struct TablePathView {
    pub database: Seq<char>,
    pub table: Seq<char>,
}

impl View for TablePath {
    type V = TablePathView;

    closed spec fn view(&self) -> TablePathView {
        TablePathView { database: self.database@, table: self.table@ }
    }
}

impl TablePathView {
    /// The database and the table with a dot between.
    pub open spec fn text(self) -> Seq<char> {
        self.database + "."@ + self.table
    }

    /// The path as diagnostics print it, field by field.
    pub open spec fn debug_text(self) -> Seq<char> {
        "TablePath { database: "@ + text::quoted(self.database) + ", table: "@ + text::quoted(
            self.table,
        ) + " }"@
    }
}

impl Clone for TablePath {
    fn clone(&self) -> (r: Self)
        ensures
            r@ == self@,
    {
        TablePath { database: self.database.clone(), table: self.table.clone() }
    }
}

/// Whether a character may stand in a name: an ASCII letter or digit, '_' or '-'.
pub open spec fn name_char(c: char) -> bool {
    ||| '0' <= c && c <= '9'
    ||| 'a' <= c && c <= 'z'
    ||| 'A' <= c && c <= 'Z'
    ||| c == '_'
    ||| c == '-'
}

/// Whether some character may not stand in a name.
pub open spec fn has_invalid_char(name: Seq<char>) -> bool {
    exists|i: int| 0 <= i < name.len() && !name_char(#[trigger] name[i])
}

/// Why a name is not allowed, if it is not.
pub open spec fn invalid_name(name: Seq<char>) -> Option<Seq<char>> {
    if name.len() == 0 {
        Some("the empty string is not allowed"@)
    } else if name == "."@ {
        Some("'.' is not allowed"@)
    } else if name == ".."@ {
        Some("'..' is not allowed"@)
    } else if vstd::utf8::encode_utf8(name).len() > MAX_NAME_LENGTH {
        Some(
            "the length of '"@ + name + "' is longer than the max allowed length "@
                + text::nat_text(MAX_NAME_LENGTH as nat),
        )
    } else if has_invalid_char(name) {
        Some(
            "'"@ + name
                + "' contains one or more characters other than ASCII alphanumerics, '_' and '-'"@,
        )
    } else {
        None
    }
}

/// Why the start of a name is not allowed, if it is not.
pub open spec fn invalid_prefix(name: Seq<char>) -> Option<Seq<char>> {
    if name.len() >= 2 && name[0] == '_' && name[1] == '_' {
        Some(
            "'__' is not allowed as prefix, since it is reserved for internal databases/internal tables/internal partitions in Fluss server"@,
        )
    } else {
        None
    }
}

impl TablePath {
    pub fn new<D: Text, T: Text>(db: D, tbl: T) -> (r: Self)
        ensures
            r@ == (TablePathView { database: db.text(), table: tbl.text() }),
    {
        TablePath { database: db.into_text(), table: tbl.into_text() }
    }

    #[inline]
    pub fn database(&self) -> (r: &str)
        ensures
            r@ == self@.database,
    {
        self.database.as_str()
    }

    #[inline]
    pub fn table(&self) -> (r: &str)
        ensures
            r@ == self@.table,
    {
        self.table.as_str()
    }

    pub fn to_string(&self) -> (r: String)
        ensures
            r@ == self@.text(),
    {
        concat3(self.database.as_str(), ".", self.table.as_str())
    }

    /// The path as diagnostics print it.
    pub fn to_debug_string(&self) -> (r: String)
        ensures
            r@ == self@.debug_text(),
    {
        text::concat5(
            "TablePath { database: ",
            text::quote(self.database.as_str()).as_str(),
            ", table: ",
            text::quote(self.table.as_str()).as_str(),
            " }",
        )
    }

    /// Says why a name is not allowed, if it is not.
    pub fn detect_invalid_name(identifier: &str) -> (r: Option<String>)
        ensures
            text::opt_text(r) == invalid_name(identifier@),
    {
        proof {
            reveal_strlit(".");
            reveal_strlit("..");
            reveal_strlit("");
        }
        if same_text(identifier, "") {
            return Some("the empty string is not allowed".to_owned());
        }
        assert(identifier@.len() > 0) by {
            if identifier@.len() == 0 {
                assert(identifier@ =~= ""@);
            }
        }
        if same_text(identifier, ".") {
            return Some("'.' is not allowed".to_owned());
        }
        if same_text(identifier, "..") {
            return Some("'..' is not allowed".to_owned());
        }
        if identifier.as_bytes().len() > MAX_NAME_LENGTH {
            let mut message = concat3(
                "the length of '",
                identifier,
                "' is longer than the max allowed length ",
            );
            message.append(text::u64_to_text(MAX_NAME_LENGTH as u64).as_str());
            return Some(message);
        }
        if Self::contains_invalid_pattern(identifier) {
            return Some(
                concat3(
                    "'",
                    identifier,
                    "' contains one or more characters other than ASCII alphanumerics, '_' and '-'",
                ),
            );
        }
        None
    }

    /// Says why the start of a name is not allowed, if it is not.
    pub fn validate_prefix(identifier: &str) -> (r: Option<String>)
        ensures
            text::opt_text(r) == invalid_prefix(identifier@),
    {
        let c = text::chars_of(identifier);
        if c.len() >= 2 && c[0] == '_' && c[1] == '_' {
            return Some(
                "'__' is not allowed as prefix, since it is reserved for internal databases/internal tables/internal partitions in Fluss server".to_owned(),
            );
        }
        None
    }

    /// Valid characters for Fluss table names are the ASCII alphanumerics, '_' and '-'.
    fn contains_invalid_pattern(identifier: &str) -> (r: bool)
        ensures
            r == has_invalid_char(identifier@),
    {
        let chars = text::chars_of(identifier);
        let mut i: usize = 0;
        while i < chars.len()
            invariant
                i <= chars@.len(),
                chars@ == identifier@,
                forall|j: int| 0 <= j < i ==> name_char(#[trigger] chars@[j]),
            decreases chars@.len() - i,
        {
            let c = chars[i];
            let valid_char = (c >= '0' && c <= '9') || (c >= 'a' && c <= 'z') || (c >= 'A' && c
                <= 'Z') || c == '_' || c == '-';
            if !valid_char {
                assert(!name_char(identifier@[i as int]));
                return true;
            }
            i = i + 1;
        }
        false
    }
}

/// A database name, table name and partition name combo. It's used to represent the physical path of
/// a bucket. If the bucket belongs to a partition (i.e., the table is a partitioned table),
/// `partition_name` will be `Some(...)`; otherwise, it will be `None`.
#[derive(Debug, PartialEq, Eq, Hash)]
pub struct PhysicalTablePath {
    table_path: Arc<TablePath>,
    partition_name: Option<String>,
}

/// A [`PhysicalTablePath`] as a value.
pub struct PhysicalTablePathView {
    pub table_path: TablePathView,
    pub partition_name: Option<Seq<char>>,
}

impl View for PhysicalTablePath {
    type V = PhysicalTablePathView;

    closed spec fn view(&self) -> PhysicalTablePathView {
        PhysicalTablePathView {
            table_path: (*self.table_path)@,
            partition_name: text::opt_text(self.partition_name),
        }
    }
}

impl PhysicalTablePathView {
    pub open spec fn text(self) -> Seq<char> {
        match self.partition_name {
            Some(partition) => self.table_path.text() + "(p="@ + partition + ")"@,
            None => self.table_path.text(),
        }
    }
}

impl Clone for PhysicalTablePath {
    fn clone(&self) -> (r: Self)
        ensures
            r@ == self@,
    {
        PhysicalTablePath {
            table_path: self.table_path.clone(),
            partition_name: text::clone_opt(&self.partition_name),
        }
    }
}

impl PhysicalTablePath {
    pub fn of(table_path: Arc<TablePath>) -> (r: Self)
        ensures
            r@ == (PhysicalTablePathView { table_path: (*table_path)@, partition_name: None }),
    {
        PhysicalTablePath { table_path, partition_name: None }
    }

    pub fn of_partitioned(table_path: Arc<TablePath>, partition_name: Option<String>) -> (r: Self)
        ensures
            r@ == (PhysicalTablePathView {
                table_path: (*table_path)@,
                partition_name: text::opt_text(partition_name),
            }),
    {
        PhysicalTablePath { table_path, partition_name }
    }

    pub fn of_with_names<D: Text, T: Text, P: Text>(
        database_name: D,
        table_name: T,
        partition_name: Option<P>,
    ) -> (r: Self)
        ensures
            r@ == (PhysicalTablePathView {
                table_path: TablePathView {
                    database: database_name.text(),
                    table: table_name.text(),
                },
                partition_name: match partition_name {
                    Some(p) => Some(p.text()),
                    None => None,
                },
            }),
    {
        PhysicalTablePath {
            table_path: Arc::new(TablePath::new(database_name, table_name)),
            partition_name: match partition_name {
                Some(p) => Some(p.into_text()),
                None => None,
            },
        }
    }

    pub fn get_table_path(&self) -> (r: &TablePath)
        ensures
            r@ == self@.table_path,
    {
        &self.table_path
    }

    pub fn get_database_name(&self) -> (r: &str)
        ensures
            r@ == self@.table_path.database,
    {
        self.table_path.database()
    }

    pub fn get_table_name(&self) -> (r: &str)
        ensures
            r@ == self@.table_path.table,
    {
        self.table_path.table()
    }

    pub fn get_partition_name(&self) -> (r: Option<&String>)
        ensures
            match r {
                Some(name) => self@.partition_name == Some(name@),
                None => self@.partition_name is None,
            },
    {
        match &self.partition_name {
            Some(name) => Some(name),
            None => None,
        }
    }

    pub fn to_string(&self) -> (r: String)
        ensures
            r@ == self@.text(),
    {
        let path = self.table_path.to_string();
        match &self.partition_name {
            Some(partition) => {
                let mut out = concat3(path.as_str(), "(p=", partition.as_str());
                out.append(")");
                out
            },
            None => path,
        }
    }
}

/// The names that databases and tables can have: one to 200 letters, digits,
/// underscores and hyphens.
pub proof fn valid_names(name: Seq<char>)
    ensures
        invalid_name(name) is None <==> {
            &&& 0 < name.len() <= 200
            &&& forall|i: int|
                0 <= i < name.len() ==> ('a' <= #[trigger] name[i] <= 'z' || 'A' <= name[i] <= 'Z'
                    || '0' <= name[i] <= '9' || name[i] == '_' || name[i] == '-')
        },
        invalid_prefix(name) is Some <==> name.len() >= 2 && name[0] == '_' && name[1] == '_',
{
    reveal_strlit(".");
    reveal_strlit("..");
    if !has_invalid_char(name) {
        assert forall|i: int| 0 <= i < name.len() implies name_char(#[trigger] name[i]) by {}
        lemma_names_are_single_bytes(name);
        if name == "."@ || name == ".."@ {
            assert(name[0] == '.');
            assert(name_char(name[0]));
        }
    }
}

proof fn lemma_names_are_single_bytes(name: Seq<char>)
    requires
        forall|i: int| 0 <= i < name.len() ==> name_char(#[trigger] name[i]),
    ensures
        vstd::utf8::encode_utf8(name).len() == name.len(),
{
    assert(vstd::utf8::is_ascii_chars(name));
    vstd::utf8::is_ascii_chars_encode_utf8(name);
}

/// Two tables whose database names hold no dot are shown alike only if they are
/// the same.
pub proof fn paths_are_told_apart(a: TablePathView, b: TablePathView)
    requires
        forall|i: int| 0 <= i < a.database.len() ==> #[trigger] a.database[i] != '.',
        forall|i: int| 0 <= i < b.database.len() ==> #[trigger] b.database[i] != '.',
        a.text() == b.text(),
    ensures
        a.database == b.database,
        a.table == b.table,
        a.text().take(a.database.len() as int) == a.database,
        a.text()[a.database.len() as int] == '.',
        a.text().skip(1 + a.database.len() as int) == a.table,
{
    reveal_strlit(".");
    let t = a.text();
    assert(t[a.database.len() as int] == '.');
    assert(t[b.database.len() as int] == '.');
    if a.database.len() < b.database.len() {
        assert(t[a.database.len() as int] == b.database[a.database.len() as int]);
    }
    if b.database.len() < a.database.len() {
        assert(t[b.database.len() as int] == a.database[b.database.len() as int]);
    }
    assert(t.take(a.database.len() as int) =~= a.database);
    assert(t.take(a.database.len() as int) =~= b.database);
    assert(t.skip(1 + a.database.len() as int) =~= a.table);
    assert(t.skip(1 + a.database.len() as int) =~= b.table);
}

/// A table with a partition is shown as the table with the partition behind it.
pub proof fn partitions_are_shown_behind(path: TablePathView, partition: Seq<char>)
    ensures
        ({
            let whole = (PhysicalTablePathView { table_path: path, partition_name: None });
            let part = (PhysicalTablePathView {
                table_path: path,
                partition_name: Some(partition),
            });
            &&& whole.text() == path.text()
            &&& part.text() == path.text() + seq!['(', 'p', '='] + partition + seq![')']
        }),
{
    reveal_strlit("(p=");
    reveal_strlit(")");
    assert("(p="@ =~= seq!['(', 'p', '=']);
    assert(")"@ =~= seq![')']);
}

} // verus!
