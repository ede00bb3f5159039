//! The SQL that stores records, and the decisions around the database:
//! which file and table, and how often a failed write is tried again.

use vstd::prelude::*;

use crate::arguments::{Options as Arguments, Value};
use crate::error::{Error, Result};
use crate::options::Options;
use crate::support::string_views;
use crate::text;

verus! {

/// The database file of the command `area` when none is given.
pub const DEFAULT_FILE: &'static str = "bullet.sqlite3";

/// The table used when none is given.
pub const DEFAULT_TABLE: &'static str = "bullet";

/// How many times a write is tried before it is given up.
pub const FAIL_ATTEMPTS: usize = 10;

/// How long to wait after a failed write, in milliseconds.
pub const FAIL_SLEEP_MS: u32 = 50;

/// The type of a column.
#[derive(Clone, Copy, Debug, PartialEq, Eq, Structural)]
pub enum Type {
    Binary,
    Float,
    Integer,
    String,
}

/// The SQL name of a column type.
pub open spec fn sql_type_name(t: Type) -> Seq<char> {
    match t {
        Type::Binary => "BLOB"@,
        Type::Float => "REAL"@,
        Type::Integer => "INTEGER"@,
        Type::String => "TEXT"@,
    }
}

/// The parts joined with `sep` between each two of them.
pub open spec fn join(parts: Seq<Seq<char>>, sep: Seq<char>) -> Seq<char>
    decreases parts.len(),
{
    if parts.len() == 0 {
        Seq::empty()
    } else if parts.len() == 1 {
        parts[0]
    } else {
        join(parts.drop_last(), sep) + sep + parts.last()
    }
}

/// The content of a list of columns with types.
pub open spec fn columns_view(columns: Seq<(&str, Type)>) -> Seq<(Seq<char>, Type)> {
    columns.map_values(|c: (&str, Type)| (c.0@, c.1))
}

/// The content of a list of column names.
pub open spec fn names_view(columns: Seq<&str>) -> Seq<Seq<char>> {
    columns.map_values(|c: &str| c@)
}

/// The definition of a column: its quoted name and its type.
pub open spec fn column_definition(c: (Seq<char>, Type)) -> Seq<char> {
    "`"@ + c.0 + "` "@ + sql_type_name(c.1)
}

/// A name in back quotes.
pub open spec fn quoted(name: Seq<char>) -> Seq<char> {
    "`"@ + name + "`"@
}

/// The statement that creates the table `name` with the columns, unless it
/// exists: `CREATE TABLE IF NOT EXISTS `name` (`a` REAL, `b` TEXT)`.
pub open spec fn spec_create_table(name: Seq<char>, columns: Seq<(Seq<char>, Type)>) -> Seq<char> {
    "CREATE TABLE IF NOT EXISTS "@ + quoted(name) + " ("@ + join(
        columns.map_values(|c: (Seq<char>, Type)| column_definition(c)),
        ", "@,
    ) + ")"@
}

/// The statement that inserts one row into the columns of `table`:
/// `INSERT INTO `table` (`a`, `b`) VALUES (?, ?)`.
pub open spec fn spec_insert_into(table: Seq<char>, columns: Seq<Seq<char>>) -> Seq<char> {
    "INSERT INTO "@ + quoted(table) + " ("@ + join(
        columns.map_values(|c: Seq<char>| quoted(c)),
        ", "@,
    ) + ") VALUES ("@ + join(Seq::new(columns.len(), |i: int| "?"@), ", "@) + ")"@
}

/// The `CREATE TABLE ... IF NOT EXISTS` statement that the `sql` crate
/// compiles for the table and columns; the crate refuses a table without
/// columns. The contract states the text that the crate's statement builder
/// joins together (a `Column` is its quoted name and its type).
#[verifier::external_body]
fn compile_create_table(name: &str, columns: &[(&str, Type)]) -> (res: Option<String>)
    ensures
        res is Some <==> columns@.len() > 0,
        res matches Some(s) ==> s@ == spec_create_table(name@, columns_view(columns@)),
{
    let mut statement = sql::language::create_table(name).if_not_exists();
    for &(column_name, kind) in columns {
        statement = statement.column(sql::language::column(column_name).kind(match kind {
            Type::Binary => sql::Type::Binary,
            Type::Float => sql::Type::Float,
            Type::Integer => sql::Type::Integer,
            Type::String => sql::Type::String,
        }));
    }
    sql::grammar::Statement::compile(&statement).ok()
}

/// The `INSERT INTO` statement that the `sql` crate compiles for one row
/// of the columns of `table`; the crate refuses a statement without
/// columns. The contract states the text that the crate's statement builder
/// joins together.
#[verifier::external_body]
fn compile_insert_into(table: &str, columns: &[&str]) -> (res: Option<String>)
    ensures
        res is Some <==> columns@.len() > 0,
        res matches Some(s) ==> s@ == spec_insert_into(table@, names_view(columns@)),
{
    let statement = sql::language::insert_into(table).columns(columns);
    sql::grammar::Statement::compile(&statement).ok()
}

/// The statement that creates the table for the columns, unless it exists;
/// `None` where there are no columns.
pub fn create_table_statement(table: &str, columns: &[(&str, Type)]) -> (res: Option<String>)
    ensures
        res is Some <==> columns@.len() > 0,
        res matches Some(s) ==> s@ == spec_create_table(table@, columns_view(columns@)),
{
    compile_create_table(table, columns)
}

/// The statement that inserts a row of the columns; `None` where there are
/// no columns.
pub fn insert_statement(table: &str, columns: &[(&str, Type)]) -> (res: Option<String>)
    ensures
        res is Some <==> columns@.len() > 0,
        res matches Some(s) ==> s@ == spec_insert_into(
            table@,
            columns_view(columns@).map_values(|c: (Seq<char>, Type)| c.0),
        ),
{
    let mut names: Vec<&str> = Vec::new();
    let mut i: usize = 0;
    while i < columns.len()
        invariant
            i <= columns@.len(),
            names_view(names@) =~= columns_view(columns@).take(i as int).map_values(
                |c: (Seq<char>, Type)| c.0,
            ),
        decreases columns.len() - i,
    {
        let ghost prev = names@;
        names.push(columns[i].0);
        proof {
            assert(names_view(names@) =~= names_view(prev).push(columns@[i as int].0@));
            let cv = columns_view(columns@);
            assert(cv.take(i + 1) =~= cv.take(i as int).push(cv[i as int]));
            assert(cv.take(i + 1).map_values(|c: (Seq<char>, Type)| c.0) =~= cv.take(
                i as int,
            ).map_values(|c: (Seq<char>, Type)| c.0).push(cv[i as int].0));
        }
        i = i + 1;
    }
    assert(columns_view(columns@).take(columns.len() as int) =~= columns_view(columns@));
    compile_insert_into(table, names.as_slice())
}

/// The table that `--table` names: it is required.
pub fn table_name(arguments: &Arguments) -> (res: Result<String>)
    ensures
        match res {
            Ok(t) => arguments@.contains_key("table"@) && arguments@["table"@] == Value::Text(t@),
            Err(e) => e == Error::TableRequired && !(arguments@.contains_key("table"@)
                && arguments@["table"@] is Text),
        },
{
    match arguments.get::<String>("table") {
        Some(t) => Ok(t),
        None => Err(Error::TableRequired),
    }
}

/// The database file that `--database` names: it is required.
pub fn database_path(arguments: &Arguments) -> (res: Result<String>)
    ensures
        match res {
            Ok(d) => arguments@.contains_key("database"@) && arguments@["database"@] == Value::Text(
                d@,
            ),
            Err(e) => e == Error::DatabaseRequired && !(arguments@.contains_key("database"@)
                && arguments@["database"@] is Text),
        },
{
    match arguments.get::<String>("database") {
        Some(d) => Ok(d),
        None => Err(Error::DatabaseRequired),
    }
}

/// The table of the command `area`: the one that `--table` names, else the
/// default one.
pub fn table_or_default(arguments: &Arguments) -> (res: String)
    ensures
        res@ == if arguments@.contains_key("table"@) && arguments@["table"@] is Text {
            arguments@["table"@]->Text_0
        } else {
            DEFAULT_TABLE@
        },
{
    match arguments.get::<String>("table") {
        Some(t) => t,
        None => DEFAULT_TABLE.to_string(),
    }
}

/// The database file of the command `area`: the one that `--database`
/// names, else the default one.
pub fn database_or_default(arguments: &Arguments) -> (res: String)
    ensures
        res@ == if arguments@.contains_key("database"@) && arguments@["database"@] is Text {
            arguments@["database"@]->Text_0
        } else {
            DEFAULT_FILE@
        },
{
    match arguments.get::<String>("database") {
        Some(d) => d,
        None => DEFAULT_FILE.to_string(),
    }
}

/// The database file of a session: it is required.
pub fn database_file(options: &Options) -> (res: Result<String>)
    ensures
        match res {
            Ok(d) => options@.database == Some(d@),
            Err(e) => options@.database is None && e == Error::DatabaseFileRequired,
        },
{
    match &options.database {
        Some(d) => Ok(d.clone()),
        None => Err(Error::DatabaseFileRequired),
    }
}

/// The field list `, a REAL, b REAL` of the columns.
pub open spec fn real_fields(names: Seq<Seq<char>>) -> Seq<char>
    decreases names.len(),
{
    if names.len() == 0 {
        Seq::empty()
    } else {
        real_fields(names.drop_last()) + ", "@ + names.last() + " REAL"@
    }
}

/// The field list `, a, b` of the columns.
pub open spec fn plain_fields(names: Seq<Seq<char>>) -> Seq<char>
    decreases names.len(),
{
    if names.len() == 0 {
        Seq::empty()
    } else {
        plain_fields(names.drop_last()) + ", "@ + names.last()
    }
}

/// The list `, ?, ?` of `n` placeholders.
pub open spec fn placeholders(n: nat) -> Seq<char>
    decreases n,
{
    if n == 0 {
        Seq::empty()
    } else {
        placeholders((n - 1) as nat) + ", ?"@
    }
}

/// The statements that prepare `table` for records of a time and the
/// columns: the table, unless it exists, and an index on the time.
pub open spec fn spec_prepare_sql(table: Seq<char>, names: Seq<Seq<char>>) -> Seq<char> {
    "\nCREATE TABLE IF NOT EXISTS "@ + table
        + " (id INTEGER PRIMARY KEY AUTOINCREMENT, time INTEGER"@ + real_fields(names)
        + ");\nCREATE INDEX IF NOT EXISTS "@ + table + "_time_index ON "@ + table
        + " (time);\n        "@
}

/// The statement that inserts a record of a time and the columns into
/// `table`.
pub open spec fn spec_statement_sql(table: Seq<char>, names: Seq<Seq<char>>) -> Seq<char> {
    "\nINSERT INTO "@ + table + " (time"@ + plain_fields(names) + ") VALUES (?"@ + placeholders(
        names.len(),
    ) + ");\n        "@
}

/// The statements that prepare a table create that very table, with an
/// integer key, an integer time and one real column for each name in turn,
/// and index that table by time; the statement that inserts records
/// inserts into the same table, into the time and those columns.
pub proof fn law_prepared_table(table: Seq<char>, names: Seq<Seq<char>>)
    ensures
        spec_prepare_sql(table, names) == "\nCREATE TABLE IF NOT EXISTS "@ + table
            + " (id INTEGER PRIMARY KEY AUTOINCREMENT, time INTEGER"@ + real_fields(names)
            + ");\nCREATE INDEX IF NOT EXISTS "@ + table + "_time_index ON "@ + table
            + " (time);\n        "@,
        spec_statement_sql(table, names) == "\nINSERT INTO "@ + table + " (time"@ + plain_fields(
            names,
        ) + ") VALUES (?"@ + placeholders(names.len()) + ");\n        "@,
        real_fields(Seq::empty()) == Seq::<char>::empty(),
        plain_fields(Seq::empty()) == Seq::<char>::empty(),
        placeholders(0) == Seq::<char>::empty(),
{
}

/// The prepared statements create the table they are given, and the
/// insertion goes into that same table: both begin with the given name.
pub proof fn law_creates_given_table(table: Seq<char>, names: Seq<Seq<char>>)
    ensures
        text::has_prefix(
            spec_prepare_sql(table, names),
            "\nCREATE TABLE IF NOT EXISTS "@ + table + " ("@,
        ),
        text::has_prefix(spec_statement_sql(table, names), "\nINSERT INTO "@ + table + " ("@),
{
    reveal_strlit(" (");
    reveal_strlit(" (id INTEGER PRIMARY KEY AUTOINCREMENT, time INTEGER");
    reveal_strlit(" (time");
    let p = "\nCREATE TABLE IF NOT EXISTS "@ + table + " ("@;
    let full = spec_prepare_sql(table, names);
    assert(full.take(p.len() as int) =~= p) by {
        assert forall|i: int| 0 <= i < p.len() implies full[i] == p[i] by {
            let q = "\nCREATE TABLE IF NOT EXISTS "@ + table;
            if i >= q.len() {
                assert(full[i] == (" (id INTEGER PRIMARY KEY AUTOINCREMENT, time INTEGER"@)[i - q.len()]);
            }
        }
    }
    let p2 = "\nINSERT INTO "@ + table + " ("@;
    let full2 = spec_statement_sql(table, names);
    assert(full2.take(p2.len() as int) =~= p2) by {
        assert forall|i: int| 0 <= i < p2.len() implies full2[i] == p2[i] by {
            let q = "\nINSERT INTO "@ + table;
            if i >= q.len() {
                assert(full2[i] == (" (time"@)[i - q.len()]);
            }
        }
    }
}

/// Each further column adds `, name REAL` to the columns of the table, and
/// `, name` and one placeholder `, ?` to the insertion.
pub proof fn law_further_column(names: Seq<Seq<char>>, name: Seq<char>)
    ensures
        real_fields(names.push(name)) == real_fields(names) + ", "@ + name + " REAL"@,
        plain_fields(names.push(name)) == plain_fields(names) + ", "@ + name,
        placeholders((names.len() + 1) as nat) == placeholders(names.len()) + ", ?"@,
{
    assert(names.push(name).drop_last() =~= names);
}

/// The statements that prepare `table` for records of the columns.
pub fn prepare_sql(table: &str, columns: &Vec<String>) -> (res: String)
    ensures
        res@ == spec_prepare_sql(table@, string_views(columns@)),
{
    let mut fields = String::new();
    let mut i: usize = 0;
    while i < columns.len()
        invariant
            i <= columns@.len(),
            fields@ == real_fields(string_views(columns@).take(i as int)),
        decreases columns.len() - i,
    {
        proof {
            let v = string_views(columns@).take(i + 1);
            assert(v.drop_last() =~= string_views(columns@).take(i as int));
        }
        fields.append(", ");
        fields.append(columns[i].as_str());
        fields.append(" REAL");
        i = i + 1;
    }
    assert(string_views(columns@).take(columns.len() as int) =~= string_views(columns@));
    let mut res = String::new();
    res.append("\nCREATE TABLE IF NOT EXISTS ");
    res.append(table);
    res.append(" (id INTEGER PRIMARY KEY AUTOINCREMENT, time INTEGER");
    res.append(fields.as_str());
    res.append(");\nCREATE INDEX IF NOT EXISTS ");
    res.append(table);
    res.append("_time_index ON ");
    res.append(table);
    res.append(" (time);\n        ");
    res
}

/// The statement that inserts a record of the columns into `table`.
pub fn statement_sql(table: &str, columns: &[String]) -> (res: String)
    ensures
        res@ == spec_statement_sql(table@, string_views(columns@)),
{
    let mut fields = String::new();
    let mut values = String::new();
    let mut i: usize = 0;
    while i < columns.len()
        invariant
            i <= columns@.len(),
            fields@ == plain_fields(string_views(columns@).take(i as int)),
            values@ == placeholders(i as nat),
        decreases columns.len() - i,
    {
        proof {
            let v = string_views(columns@).take(i + 1);
            assert(v.drop_last() =~= string_views(columns@).take(i as int));
        }
        fields.append(", ");
        fields.append(columns[i].as_str());
        values.append(", ?");
        i = i + 1;
    }
    assert(string_views(columns@).take(columns.len() as int) =~= string_views(columns@));
    let mut res = String::new();
    res.append("\nINSERT INTO ");
    res.append(table);
    res.append(" (time");
    res.append(fields.as_str());
    res.append(") VALUES (?");
    res.append(values.as_str());
    res.append(");\n        ");
    res
}

/// How many times `c` occurs in `s`.
pub open spec fn occurrences(s: Seq<char>, c: char) -> nat
    decreases s.len(),
{
    if s.len() == 0 {
        0
    } else {
        occurrences(s.drop_last(), c) + if s.last() == c {
            1nat
        } else {
            0nat
        }
    }
}

proof fn lemma_occurrences_concat(a: Seq<char>, b: Seq<char>, c: char)
    ensures
        occurrences(a + b, c) == occurrences(a, c) + occurrences(b, c),
    decreases b.len(),
{
    if b.len() > 0 {
        assert((a + b).drop_last() =~= a + b.drop_last());
        lemma_occurrences_concat(a, b.drop_last(), c);
    } else {
        assert(a + b =~= a);
    }
}

proof fn lemma_occurrences_none(s: Seq<char>, c: char)
    requires
        !s.contains(c),
    ensures
        occurrences(s, c) == 0,
    decreases s.len(),
{
    if s.len() > 0 {
        assert(!s.drop_last().contains(c)) by {
            if s.drop_last().contains(c) {
                let i = choose|i: int| 0 <= i < s.drop_last().len() && s.drop_last()[i] == c;
                assert(s[i] == c);
            }
        }
        lemma_occurrences_none(s.drop_last(), c);
        assert(s[s.len() - 1] != c);
    }
}

proof fn lemma_fields_without_placeholders(names: Seq<Seq<char>>)
    requires
        forall|i: int| 0 <= i < names.len() ==> !(#[trigger] names[i]).contains('?'),
    ensures
        occurrences(plain_fields(names), '?') == 0,
    decreases names.len(),
{
    if names.len() > 0 {
        reveal_strlit(", ");
        assert(!", "@.contains('?')) by {
            if ", "@.contains('?') {
                let i = choose|i: int| 0 <= i < ", "@.len() && ", "@[i] == '?';
            }
        }
        assert forall|i: int| 0 <= i < names.drop_last().len() implies !(
        #[trigger] names.drop_last()[i]).contains('?') by {
            assert(names.drop_last()[i] == names[i]);
        }
        lemma_fields_without_placeholders(names.drop_last());
        assert(!names.last().contains('?'));
        lemma_occurrences_concat(plain_fields(names.drop_last()), ", "@, '?');
        lemma_occurrences_concat(plain_fields(names.drop_last()) + ", "@, names.last(), '?');
        lemma_occurrences_none(", "@, '?');
        lemma_occurrences_none(names.last(), '?');
    }
}

proof fn lemma_placeholders(n: nat)
    ensures
        occurrences(placeholders(n), '?') == n,
    decreases n,
{
    if n > 0 {
        reveal_strlit(", ?");
        lemma_placeholders((n - 1) as nat);
        lemma_occurrences_concat(placeholders((n - 1) as nat), ", ?"@, '?');
        reveal_with_fuel(occurrences, 4);
        assert(", ?"@.drop_last() =~= seq![',', ' ']);
        assert(seq![',', ' '].drop_last() =~= seq![',']);
        assert(seq![','].drop_last() =~= Seq::<char>::empty());
    }
}

/// The statement that inserts a record has one placeholder for the time
/// and one for each column, so that a record binds exactly one value more
/// than there are columns; this holds where neither the table nor a column
/// name holds a `?`.
pub proof fn law_statement_placeholders(table: Seq<char>, names: Seq<Seq<char>>)
    requires
        !table.contains('?'),
        forall|i: int| 0 <= i < names.len() ==> !(#[trigger] names[i]).contains('?'),
    ensures
        occurrences(spec_statement_sql(table, names), '?') == names.len() + 1,
{
    reveal_strlit("\nINSERT INTO ");
    reveal_strlit(" (time");
    reveal_strlit(") VALUES (?");
    reveal_strlit(");\n        ");
    let a = "\nINSERT INTO "@;
    let b = " (time"@;
    let c = ") VALUES (?"@;
    let d = ");\n        "@;
    let f = plain_fields(names);
    let p = placeholders(names.len());
    assert(!a.contains('?')) by {
        if a.contains('?') {
            let i = choose|i: int| 0 <= i < a.len() && a[i] == '?';
        }
    }
    assert(!b.contains('?')) by {
        if b.contains('?') {
            let i = choose|i: int| 0 <= i < b.len() && b[i] == '?';
        }
    }
    assert(!d.contains('?')) by {
        if d.contains('?') {
            let i = choose|i: int| 0 <= i < d.len() && d[i] == '?';
        }
    }
    assert(c =~= ") VALUES ("@ + seq!['?']) by {
        reveal_strlit(") VALUES (");
    }
    assert(!") VALUES ("@.contains('?')) by {
        reveal_strlit(") VALUES (");
        if ") VALUES ("@.contains('?') {
            let i = choose|i: int| 0 <= i < ") VALUES ("@.len() && ") VALUES ("@[i] == '?';
        }
    }
    lemma_occurrences_none(a, '?');
    lemma_occurrences_none(b, '?');
    lemma_occurrences_none(d, '?');
    lemma_occurrences_none(table, '?');
    lemma_occurrences_none(") VALUES ("@, '?');
    lemma_occurrences_concat(") VALUES ("@, seq!['?'], '?');
    assert(seq!['?'].drop_last() =~= Seq::<char>::empty());
    lemma_fields_without_placeholders(names);
    lemma_placeholders(names.len());
    lemma_occurrences_concat(a, table, '?');
    lemma_occurrences_concat(a + table, b, '?');
    lemma_occurrences_concat(a + table + b, f, '?');
    lemma_occurrences_concat(a + table + b + f, c, '?');
    lemma_occurrences_concat(a + table + b + f + c, p, '?');
    lemma_occurrences_concat(a + table + b + f + c + p, d, '?');
    assert(occurrences(seq!['?'], '?') == 1) by {
        assert(seq!['?'].last() == '?');
        assert(occurrences(seq!['?'], '?') == occurrences(seq!['?'].drop_last(), '?') + 1);
        assert(occurrences(Seq::<char>::empty(), '?') == 0);
    }
    assert(spec_statement_sql(table, names) =~= a + table + b + f + c + p + d);
}

/// Checks that a row of `values` values fits a table of `columns` value
/// columns.
pub fn check_row(columns: usize, values: usize) -> (res: Result<()>)
    ensures
        res is Ok <==> columns == values,
        res is Err ==> res == Err::<(), Error>(Error::RowMismatch),
{
    if columns != values {
        return Err(Error::RowMismatch);
    }
    Ok(())
}

/// Counts the failed tries of a write.
pub struct Retry {
    failures: usize,
}

impl Retry {
    /// How many tries have failed.
    pub closed spec fn failures(&self) -> nat {
        self.failures as nat
    }

    /// No try has failed yet.
    pub fn new() -> (res: Retry)
        ensures
            res.failures() == 0,
    {
        Retry { failures: 0 }
    }

    /// Takes note of a failed try. The write is tried again, after a pause
    /// of `FAIL_SLEEP_MS`, until `FAIL_ATTEMPTS` tries have failed; then it
    /// is given up with `WriteFailed`.
    pub fn failed(&mut self) -> (res: Result<()>)
        requires
            old(self).failures() < FAIL_ATTEMPTS,
        ensures
            final(self).failures() == old(self).failures() + 1,
            res is Ok <==> final(self).failures() < FAIL_ATTEMPTS,
            res is Err ==> res == Err::<(), Error>(Error::WriteFailed),
    {
        self.failures = self.failures + 1;
        if self.failures < FAIL_ATTEMPTS {
            Ok(())
        } else {
            Err(Error::WriteFailed)
        }
    }
}

} // verus!
