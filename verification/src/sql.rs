//! The text of the statements that load the records into a database.

use vstd::prelude::*;
use crate::decimal::{decimal_digits, format_u64};
use crate::text::{chars_of, joined, string_of};

verus! {

/// The statement that makes an index on `column` of `table`, unless it
/// exists: `CREATE INDEX IF NOT EXISTS idx_<table>_<column> ON
/// <table>(<column>)`.
pub open spec fn index_statement_text(table: Seq<char>, column: Seq<char>) -> Seq<char> {
    "CREATE INDEX IF NOT EXISTS idx_"@ + table + "_"@ + column + " ON "@ + table + "("@ + column
        + ")"@
}

/// The statement that makes an index on `column` of `table`.
pub fn index_statement(table: &str, column: &str) -> (sql: String)
    ensures
        sql@ == index_statement_text(table@, column@),
{
    let t = chars_of(table);
    let c = chars_of(column);
    let mut sql = chars_of("CREATE INDEX IF NOT EXISTS idx_");
    sql = joined(&sql, &t);
    sql = joined(&sql, &chars_of("_"));
    sql = joined(&sql, &c);
    sql = joined(&sql, &chars_of(" ON "));
    sql = joined(&sql, &t);
    sql = joined(&sql, &chars_of("("));
    sql = joined(&sql, &c);
    sql = joined(&sql, &chars_of(")"));
    string_of(&sql)
}

/// The statement that puts one entry into the code table `table`, in
/// place of an entry with the same code.
pub open spec fn code_entry_statement_text(table: Seq<char>) -> Seq<char> {
    "INSERT OR REPLACE INTO "@ + table + " (codigo, descricao) VALUES (?1, ?2)"@
}

/// The statement that puts one entry into the code table `table`.
pub fn code_entry_statement(table: &str) -> (sql: String)
    ensures
        sql@ == code_entry_statement_text(table@),
{
    let mut sql = chars_of("INSERT OR REPLACE INTO ");
    sql = joined(&sql, &chars_of(table));
    sql = joined(&sql, &chars_of(" (codigo, descricao) VALUES (?1, ?2)"));
    string_of(&sql)
}

/// The numbered placeholders `?1, ?2, ...` for `columns` values.
pub open spec fn placeholders(columns: nat) -> Seq<char>
    decreases columns,
{
    if columns == 0 {
        Seq::empty()
    } else if columns == 1 {
        "?"@ + decimal_digits(1)
    } else {
        placeholders((columns - 1) as nat) + ", "@ + "?"@ + decimal_digits(columns)
    }
}

/// The statement that puts one row of `columns` values into `table`:
/// `INSERT INTO <table> VALUES (?1, ?2, ...)`.
pub open spec fn row_statement_text(table: Seq<char>, columns: nat) -> Seq<char> {
    "INSERT INTO "@ + table + " VALUES ("@ + placeholders(columns) + ")"@
}

/// The statement that puts one row of `columns` values into `table`.
pub fn row_statement(table: &str, columns: usize) -> (sql: String)
    ensures
        sql@ == row_statement_text(table@, columns as nat),
{
    let mut marks: Vec<char> = Vec::new();
    let mut i: usize = 0;
    while i < columns
        invariant
            i <= columns,
            marks@ == placeholders(i as nat),
        decreases columns - i,
    {
        let ghost before = marks@;
        if i > 0 {
            marks = joined(&marks, &chars_of(", "));
        }
        marks = joined(&marks, &chars_of("?"));
        i += 1;
        marks = joined(&marks, &format_u64(i as u64));
        proof {
            if i == 1 {
                assert(before + "?"@ == "?"@);
            }
        }
    }
    let mut sql = chars_of("INSERT INTO ");
    sql = joined(&sql, &chars_of(table));
    sql = joined(&sql, &chars_of(" VALUES ("));
    sql = joined(&sql, &marks);
    sql = joined(&sql, &chars_of(")"));
    string_of(&sql)
}

/// The values of one row of `columns` columns: the fields of `record` in
/// order, an empty text for each column that `record` does not reach, and
/// no field beyond the columns.
pub open spec fn row_values(record: Seq<Seq<char>>, columns: nat) -> Seq<Seq<char>> {
    Seq::new(
        columns,
        |i: int|
            if i < record.len() {
                record[i]
            } else {
                Seq::empty()
            },
    )
}

/// The values of one row of `columns` columns, taken from `record`.
pub fn padded_fields(record: &Vec<String>, columns: usize) -> (values: Vec<String>)
    ensures
        values.deep_view() == row_values(record.deep_view(), columns as nat),
{
    let mut values: Vec<String> = Vec::new();
    let mut i: usize = 0;
    while i < columns
        invariant
            i <= columns,
            values.len() == i,
            forall|k: int|
                0 <= k < i ==> (#[trigger] values@[k])@ == row_values(
                    record.deep_view(),
                    columns as nat,
                )[k],
        decreases columns - i,
    {
        let value = if i < record.len() {
            assert(record.deep_view()[i as int] == record@[i as int]@);
            record[i].clone()
        } else {
            String::new()
        };
        values.push(value);
        i += 1;
    }
    assert(values.deep_view() =~= row_values(record.deep_view(), columns as nat));
    values
}

} // verus!
