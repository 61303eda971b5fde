//! The statement builder of the `sql_builder` crate, as far as the table
//! model uses it: what a builder holds, how each call changes that, and the
//! text that comes out.

use vstd::prelude::*;
use sql_builder::{SqlBuilder, SqlName};
use crate::text::{joined, texts};

verus! {

/// `sql_builder::SqlBuilder`, a statement under construction. Nothing of its
/// inside is visible here; the names below say what it holds.
#[verifier::external_type_specification]
#[verifier::external_body]
pub struct ExSqlBuilder(sql_builder::SqlBuilder);

/// `anyhow::Error`, the error with which the builder refuses to render.
#[verifier::external_type_specification]
#[verifier::external_body]
pub struct ExBuildError(anyhow::Error);

/// The words that open the statement a builder stands for: `INSERT INTO`,
/// `DELETE FROM`, `UPDATE`, `SELECT` for a selection from a table, and
/// `SELECT VALUES` for a selection without one.
pub uninterp spec fn statement_keyword(b: SqlBuilder) -> Seq<char>;

/// The table a builder was made for.
pub uninterp spec fn statement_table(b: SqlBuilder) -> Seq<char>;

/// The fields given to a builder, in the order of the calls.
pub uninterp spec fn statement_fields(b: SqlBuilder) -> Seq<Seq<char>>;

/// The rows of values given to a builder, each as its parenthesized text;
/// none where the builder holds a query in place of rows.
pub uninterp spec fn statement_rows(b: SqlBuilder) -> Seq<Seq<char>>;

/// The conditions given to a builder, in the order of the calls.
pub uninterp spec fn statement_conditions(b: SqlBuilder) -> Seq<Seq<char>>;

/// Whether a builder holds nothing but its table, fields, rows of values and
/// conditions: no join, no `DISTINCT`, no assignment, no query to insert, no
/// `RETURNING`, no grouping, no union, no ordering, no limit and no offset.
pub uninterp spec fn statement_is_bare(b: SqlBuilder) -> bool;

/// A builder as it comes from one of the three constructors.
pub open spec fn fresh_statement(b: SqlBuilder, keyword: Seq<char>, table: Seq<char>) -> bool {
    &&& statement_keyword(b) == keyword
    &&& statement_table(b) == table
    &&& statement_fields(b) == Seq::<Seq<char>>::empty()
    &&& statement_rows(b) == Seq::<Seq<char>>::empty()
    &&& statement_conditions(b) == Seq::<Seq<char>>::empty()
    &&& statement_is_bare(b)
}

/// An identifier between backticks, each backtick inside it after a backslash.
pub open spec fn quoted_identifier(name: Seq<char>) -> Seq<char> {
    seq!['`'] + escaped_backticks(name) + seq!['`']
}

/// `name` with a backslash put before each backtick.
pub open spec fn escaped_backticks(name: Seq<char>) -> Seq<char>
    decreases name.len(),
{
    if name.len() == 0 {
        Seq::empty()
    } else if name.last() == '`' {
        escaped_backticks(name.drop_last()) + seq!['\\', '`']
    } else {
        escaped_backticks(name.drop_last()).push(name.last())
    }
}

/// One row of values as the builder keeps it.
pub open spec fn row_text(values: Seq<Seq<char>>) -> Seq<char> {
    "("@ + joined(values, ", "@) + ")"@
}

/// A comparison of a field with a value as the builder keeps it.
pub open spec fn equality_text(field: Seq<char>, value: Seq<char>) -> Seq<char> {
    field + " = "@ + value
}

/// The `WHERE` part of a statement: nothing without a condition, a single
/// condition bare, several each in parentheses with `AND` between them.
pub open spec fn where_text(conditions: Seq<Seq<char>>) -> Seq<char> {
    if conditions.len() == 0 {
        Seq::empty()
    } else if conditions.len() == 1 {
        " WHERE "@ + conditions[0]
    } else {
        " WHERE "@ + joined(conditions.map_values(|c: Seq<char>| "("@ + c + ")"@), " AND "@)
    }
}

/// The text of an `INSERT` statement.
pub open spec fn insert_text(table: Seq<char>, fields: Seq<Seq<char>>, rows: Seq<Seq<char>>) -> Seq<char> {
    "INSERT INTO "@ + table + " ("@ + joined(fields, ", "@) + ") VALUES "@ + joined(rows, ", "@) + ";"@
}

/// The list of projected fields of a `SELECT` statement: `*` when there is none.
pub open spec fn projection_text(fields: Seq<Seq<char>>) -> Seq<char> {
    if fields.len() == 0 {
        "*"@
    } else {
        joined(fields, ", "@)
    }
}

/// The text of a `SELECT` statement.
pub open spec fn select_text(table: Seq<char>, fields: Seq<Seq<char>>, conditions: Seq<Seq<char>>) -> Seq<char> {
    "SELECT "@ + projection_text(fields) + " FROM "@ + table + where_text(conditions) + ";"@
}

/// The text of a `DELETE` statement.
pub open spec fn delete_text(table: Seq<char>, conditions: Seq<Seq<char>>) -> Seq<char> {
    "DELETE FROM "@ + table + where_text(conditions) + ";"@
}

/// The text that a bare builder renders to, or `None` where it has no table
/// name, or is an insertion without a row of values.
pub open spec fn statement_text(b: SqlBuilder) -> Option<Seq<char>> {
    if statement_table(b).len() == 0 {
        None
    } else if statement_keyword(b) == "INSERT INTO"@ {
        if statement_rows(b).len() == 0 {
            None
        } else {
            Some(insert_text(statement_table(b), statement_fields(b), statement_rows(b)))
        }
    } else if statement_keyword(b) == "SELECT"@ {
        Some(select_text(statement_table(b), statement_fields(b), statement_conditions(b)))
    } else {
        Some(delete_text(statement_table(b), statement_conditions(b)))
    }
}

/// Whether a builder is a bare one of the three kinds modelled here.
pub open spec fn statement_is_known(b: SqlBuilder) -> bool {
    &&& statement_is_bare(b)
    &&& (statement_keyword(b) == "INSERT INTO"@ || statement_keyword(b) == "SELECT"@
        || statement_keyword(b) == "DELETE FROM"@)
}

/// `SqlName::new(name).baquoted()`, which the crate's `baname!` stands for:
/// the name between backticks, with `` \` `` for each backtick in it.
#[verifier::external_body]
pub(crate) fn baname(name: &str) -> (r: String)
    ensures
        r@ == quoted_identifier(name@),
{
    SqlName::new(name).baquoted()
}

/// `SqlBuilder::insert_into`: a builder of an insertion into `table`, with
/// nothing else set.
#[verifier::external_body]
pub(crate) fn insert_into(table: &str) -> (b: SqlBuilder)
    ensures
        fresh_statement(b, "INSERT INTO"@, table@),
{
    SqlBuilder::insert_into(table)
}

/// `SqlBuilder::select_from`: a builder of a selection from `table`, with
/// nothing else set.
#[verifier::external_body]
pub(crate) fn select_from(table: &str) -> (b: SqlBuilder)
    ensures
        fresh_statement(b, "SELECT"@, table@),
{
    SqlBuilder::select_from(table)
}

/// `SqlBuilder::delete_from`: a builder of a deletion from `table`, with
/// nothing else set.
#[verifier::external_body]
pub(crate) fn delete_from(table: &str) -> (b: SqlBuilder)
    ensures
        fresh_statement(b, "DELETE FROM"@, table@),
{
    SqlBuilder::delete_from(table)
}

/// `SqlBuilder::field`: appends one field and touches nothing else.
#[verifier::external_body]
pub(crate) fn add_field(b: &mut SqlBuilder, field: &str)
    ensures
        statement_fields(*final(b)) == statement_fields(*old(b)).push(field@),
        statement_keyword(*final(b)) == statement_keyword(*old(b)),
        statement_table(*final(b)) == statement_table(*old(b)),
        statement_rows(*final(b)) == statement_rows(*old(b)),
        statement_conditions(*final(b)) == statement_conditions(*old(b)),
        statement_is_bare(*final(b)) == statement_is_bare(*old(b)),
{
    b.field(field);
}

/// `SqlBuilder::values`: appends one row, kept as the values separated by
/// `", "` inside parentheses, and touches nothing else.
#[verifier::external_body]
pub(crate) fn add_values(b: &mut SqlBuilder, values: &Vec<String>)
    ensures
        statement_rows(*final(b)) == statement_rows(*old(b)).push(row_text(texts(values@))),
        statement_keyword(*final(b)) == statement_keyword(*old(b)),
        statement_table(*final(b)) == statement_table(*old(b)),
        statement_fields(*final(b)) == statement_fields(*old(b)),
        statement_conditions(*final(b)) == statement_conditions(*old(b)),
        statement_is_bare(*old(b)) ==> statement_is_bare(*final(b)),
{
    b.values(values);
}

/// `SqlBuilder::and_where_eq`: appends the condition `field = value` and
/// touches nothing else.
#[verifier::external_body]
pub(crate) fn and_where_eq(b: &mut SqlBuilder, field: &str, value: &str)
    ensures
        statement_conditions(*final(b)) == statement_conditions(*old(b)).push(
            equality_text(field@, value@),
        ),
        statement_keyword(*final(b)) == statement_keyword(*old(b)),
        statement_table(*final(b)) == statement_table(*old(b)),
        statement_fields(*final(b)) == statement_fields(*old(b)),
        statement_rows(*final(b)) == statement_rows(*old(b)),
        statement_is_bare(*final(b)) == statement_is_bare(*old(b)),
{
    b.and_where_eq(field, value);
}

/// `SqlBuilder::sql`: for a bare insertion, selection or deletion, the
/// statement's text ending in a semicolon; an error where the table name is
/// empty or an insertion has no row of values.
#[verifier::external_body]
pub(crate) fn sql(b: &SqlBuilder) -> (r: Result<String, anyhow::Error>)
    ensures
        statement_is_known(*b) ==> match r {
            Ok(text) => statement_text(*b) == Some(text@),
            Err(_) => statement_text(*b) is None,
        },
{
    b.sql()
}

} // verus!
