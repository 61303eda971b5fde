//! The model of one table: its columns, their partitions by key membership,
//! and the SQL text derived from them.

use vstd::prelude::*;
use vstd::string::*;
use crate::error::ModelError;
use crate::sql::{
    add_field, add_values, and_where_eq, baname, delete_from, delete_text, equality_text,
    insert_into, projection_text, quoted_identifier, row_text, select_from, select_text, sql,
    statement_conditions, statement_fields, statement_is_bare, statement_keyword, statement_rows,
    statement_table, where_text,
};
use crate::text::{join, joined, occurs_at, pop_char, rsplit_once, str_eq, texts};

verus! {

/// One column of a key, with the name and kind of the constraint that makes
/// it one.
#[derive(Debug)]
pub struct Key {
    pub column_name: String,
    pub constraint_name: String,
    pub constraint_type: String,
}

/// One column of a table. The three key fields hold the name of the
/// constraint that puts the column into that group, if any does.
#[derive(Debug)]
pub struct Column {
    pub name: String,
    pub data_type: String,
    pub is_nullable: bool,
    pub is_auto_increment: bool,
    pub primary_key: Option<String>,
    pub unique: Option<String>,
    pub foreign_key: Option<String>,
}

impl Clone for Key {
    fn clone(&self) -> (r: Self)
        ensures
            r == *self,
    {
        Key {
            column_name: self.column_name.clone(),
            constraint_name: self.constraint_name.clone(),
            constraint_type: self.constraint_type.clone(),
        }
    }
}

/// A copy of an optional constraint name.
fn clone_name(name: &Option<String>) -> (r: Option<String>)
    ensures
        r == *name,
{
    match name {
        Some(s) => Some(s.clone()),
        None => None,
    }
}

impl Clone for Column {
    fn clone(&self) -> (r: Self)
        ensures
            r == *self,
    {
        Column {
            name: self.name.clone(),
            data_type: self.data_type.clone(),
            is_nullable: self.is_nullable,
            is_auto_increment: self.is_auto_increment,
            primary_key: clone_name(&self.primary_key),
            unique: clone_name(&self.unique),
            foreign_key: clone_name(&self.foreign_key),
        }
    }
}

/// The groups into which a table's columns fall.
#[derive(Clone, Copy, Debug, PartialEq, Eq, Structural)]
pub enum Partition {
    PrimaryKey,
    ForeignKey,
    Unique,
    /// Every column that is no primary key.
    Ordinary,
}

/// Whether column `c` belongs to group `which`.
pub open spec fn belongs(c: Column, which: Partition) -> bool {
    match which {
        Partition::PrimaryKey => c.primary_key is Some,
        Partition::ForeignKey => c.foreign_key is Some,
        Partition::Unique => c.unique is Some,
        Partition::Ordinary => c.primary_key is None,
    }
}

/// Membership in group `which`, as a predicate on columns.
pub open spec fn member_of(which: Partition) -> spec_fn(Column) -> bool {
    |c: Column| belongs(c, which)
}

/// The columns of group `which`, in the order in which `columns` has them.
pub open spec fn partition(columns: Seq<Column>, which: Partition) -> Seq<Column> {
    columns.filter(member_of(which))
}

/// Whether `c` belongs to group `which`.
pub fn in_partition(c: &Column, which: Partition) -> (r: bool)
    ensures
        r == belongs(*c, which),
{
    match which {
        Partition::PrimaryKey => c.primary_key.is_some(),
        Partition::ForeignKey => c.foreign_key.is_some(),
        Partition::Unique => c.unique.is_some(),
        Partition::Ordinary => c.primary_key.is_none(),
    }
}

/// Copies of the columns of group `which`, in column order.
pub fn select_partition(columns: &Vec<Column>, which: Partition) -> (r: Vec<Column>)
    ensures
        r@ == partition(columns@, which),
{
    let mut out: Vec<Column> = Vec::new();
    let mut i: usize = 0;
    proof {
        reveal(Seq::filter);
        assert(columns@.take(0) =~= Seq::<Column>::empty());
    }
    while i < columns.len()
        invariant
            i <= columns.len(),
            out@ == partition(columns@.take(i as int), which),
        decreases columns.len() - i,
    {
        proof {
            assert(columns@.take(i + 1) =~= columns@.take(i as int).push(columns@[i as int]));
            columns@.take(i as int).lemma_filter_push(columns@[i as int], member_of(which));
        }
        if in_partition(&columns[i], which) {
            out.push(columns[i].clone());
        }
        i += 1;
    }
    proof {
        assert(columns@.take(columns.len() as int) =~= columns@);
    }
    out
}

/// Whether a column is named in the insert statement: every column is, but
/// an auto-increment primary key, whose value the database makes.
pub open spec fn inserted(c: Column) -> bool {
    !(c.primary_key is Some && c.is_auto_increment)
}

/// The quoted names of the inserted columns, in column order.
pub open spec fn insert_fields(columns: Seq<Column>) -> Seq<Seq<char>> {
    columns.filter(|c: Column| inserted(c)).map_values(|c: Column| quoted_identifier(c.name@))
}

/// `n` placeholders.
pub open spec fn placeholders(n: nat) -> Seq<Seq<char>> {
    Seq::new(n, |i: int| "?"@)
}

/// The insert statement up to, and without, its values clause.
pub open spec fn spec_insert_sql(name: Seq<char>, columns: Seq<Column>) -> Seq<char> {
    "INSERT INTO "@ + quoted_identifier(name) + " ("@ + joined(insert_fields(columns), ", "@)
        + ")"@
}

/// One placeholder for each inserted column, in parentheses.
pub open spec fn spec_insert_sql_values(columns: Seq<Column>) -> Seq<char> {
    row_text(placeholders(insert_fields(columns).len()))
}

/// How a column is projected in the select statement: a `binary(16)` column
/// and a `tinyint(1)` column under an alias that names the type to read it
/// as, any other column by its quoted name.
pub open spec fn projection(c: Column) -> Seq<char> {
    if c.data_type@ == "binary(16)"@ {
        "`"@ + c.name@ + "` as \""@ + c.name@ + ":Uuid\""@
    } else if c.data_type@ == "tinyint(1)"@ {
        "`"@ + c.name@ + "` as \""@ + c.name@ + ":bool\""@
    } else {
        quoted_identifier(c.name@)
    }
}

/// The projections of all columns, in column order.
pub open spec fn select_fields(columns: Seq<Column>) -> Seq<Seq<char>> {
    columns.map_values(|c: Column| projection(c))
}

/// The select statement, without a closing semicolon.
pub open spec fn spec_select_sql(name: Seq<char>, columns: Seq<Column>) -> Seq<char> {
    "SELECT "@ + projection_text(select_fields(columns)) + " FROM "@ + quoted_identifier(name)
}

/// One equality with a placeholder for each of `keys`, in their order.
pub open spec fn key_conditions(keys: Seq<Column>) -> Seq<Seq<char>> {
    keys.map_values(|c: Column| equality_text(quoted_identifier(c.name@), "?"@))
}

/// The delete statement by the key columns `keys`, without a closing
/// semicolon. Without a key column it has no `WHERE` part.
pub open spec fn spec_delete_sql(name: Seq<char>, keys: Seq<Column>) -> Seq<char> {
    "DELETE FROM "@ + quoted_identifier(name) + where_text(key_conditions(keys))
}

/// The equalities on `keys` with `AND` between them.
pub open spec fn spec_where(keys: Seq<Column>) -> Seq<char> {
    joined(key_conditions(keys), " AND "@)
}

/// An identifier is never empty once it is quoted.
proof fn lemma_quoted_is_not_empty(name: Seq<char>)
    ensures
        quoted_identifier(name).len() >= 2,
{
}

/// A list of placeholders joined by `", "` holds no `V`.
proof fn lemma_placeholders_hold_no_v(n: nat)
    ensures
        forall|k: int|
            0 <= k < joined(placeholders(n), ", "@).len() ==> joined(placeholders(n), ", "@)[k]
                != 'V',
    decreases n,
{
    reveal_strlit("?");
    reveal_strlit(", ");
    let all = joined(placeholders(n), ", "@);
    if n == 1 {
        assert(all == "?"@);
    } else if n >= 2 {
        lemma_placeholders_hold_no_v((n - 1) as nat);
        assert(placeholders(n).drop_last() =~= placeholders((n - 1) as nat));
        assert(placeholders(n).last() == "?"@);
        assert(all == joined(placeholders((n - 1) as nat), ", "@) + ", "@ + "?"@);
    }
}

/// Behind `a + pat`, the text `a + pat + b` holds `pat` nowhere, given that
/// `mark`, the second character of `pat`, occurs neither later in `pat` nor
/// in `b`.
proof fn lemma_no_later_occurrence(a: Seq<char>, pat: Seq<char>, b: Seq<char>, mark: char)
    requires
        pat.len() >= 2,
        pat[1] == mark,
        forall|k: int| 2 <= k < pat.len() ==> pat[k] != mark,
        forall|k: int| 0 <= k < b.len() ==> b[k] != mark,
    ensures
        forall|at: int| a.len() < at ==> !occurs_at(a + pat + b, pat, at),
{
    let s = a + pat + b;
    assert forall|at: int| a.len() < at implies !occurs_at(s, pat, at) by {
        if occurs_at(s, pat, at) {
            let found = s.subrange(at, at + pat.len());
            assert(found[1] == s[at + 1]);
            let k = at + 1 - a.len();
            if k < pat.len() {
                assert(s[at + 1] == pat[k]);
            } else {
                assert(s[at + 1] == b[k - pat.len()]);
            }
        }
    }
}

/// A text splits in one way only at the last place where `pat` stands in it.
proof fn lemma_last_split_is_unique(
    s: Seq<char>,
    pat: Seq<char>,
    head: Seq<char>,
    tail: Seq<char>,
    a: Seq<char>,
    b: Seq<char>,
)
    requires
        s == head + pat + tail,
        forall|at: int| head.len() < at ==> !occurs_at(s, pat, at),
        s == a + pat + b,
        forall|at: int| a.len() < at ==> !occurs_at(s, pat, at),
    ensures
        head == a,
{
    assert(s.subrange(a.len() as int, (a.len() + pat.len()) as int) =~= pat);
    assert(occurs_at(s, pat, a.len() as int));
    assert(s.subrange(head.len() as int, (head.len() + pat.len()) as int) =~= pat);
    assert(occurs_at(s, pat, head.len() as int));
    assert(head =~= s.subrange(0, head.len() as int));
    assert(a =~= s.subrange(0, a.len() as int));
}

/// The insert statement for table `name`: its text before the values clause,
/// and the placeholder list of one row.
pub fn insert_statement(name: &str, columns: &Vec<Column>) -> (r: Result<
    (String, String),
    ModelError,
>)
    ensures
        r matches Ok(pair) && pair.0@ == spec_insert_sql(name@, columns@) && pair.1@
            == spec_insert_sql_values(columns@),
{
    let table = baname(name);
    let mut builder = insert_into(table.as_str());
    let mut marks: Vec<String> = Vec::new();
    let mut i: usize = 0;
    proof {
        reveal(Seq::filter);
        assert(columns@.take(0) =~= Seq::<Column>::empty());
        assert(insert_fields(columns@.take(0)) =~= Seq::<Seq<char>>::empty());
        assert(texts(marks@) =~= placeholders(0));
    }
    while i < columns.len()
        invariant
            i <= columns.len(),
            statement_keyword(builder) == "INSERT INTO"@,
            statement_table(builder) == quoted_identifier(name@),
            statement_rows(builder) == Seq::<Seq<char>>::empty(),
            statement_is_bare(builder),
            statement_fields(builder) == insert_fields(columns@.take(i as int)),
            texts(marks@) == placeholders(statement_fields(builder).len()),
        decreases columns.len() - i,
    {
        let c = &columns[i];
        proof {
            let before = columns@.take(i as int);
            assert(columns@.take(i + 1) =~= before.push(*c));
            before.lemma_filter_push(*c, |c: Column| inserted(c));
            if inserted(*c) {
                assert(insert_fields(before.push(*c)) =~= insert_fields(before).push(
                    quoted_identifier(c.name@),
                ));
            }
        }
        if !(c.primary_key.is_some() && c.is_auto_increment) {
            let field = baname(c.name.as_str());
            add_field(&mut builder, field.as_str());
            let ghost earlier = marks@;
            marks.push(String::from_str("?"));
            proof {
                assert(texts(earlier).len() == earlier.len());
                assert forall|k: int| 0 <= k < marks@.len() implies texts(marks@)[k] == "?"@ by {
                    if k < earlier.len() {
                        assert(texts(earlier)[k] == "?"@);
                    }
                }
                assert(texts(marks@) =~= placeholders(earlier.len() + 1));
            }
        }
        i += 1;
    }
    let mut row = String::from_str("(");
    let list = join(&marks, ", ");
    row.append(list.as_str());
    row.append(")");
    add_values(&mut builder, &marks);
    proof {
        assert(columns@.take(columns.len() as int) =~= columns@);
        lemma_quoted_is_not_empty(name@);
    }
    match sql(&builder) {
        Ok(text) => {
            match rsplit_once(text.as_str(), " VALUES") {
                Some((head, tail)) => {
                    proof {
                        let n = insert_fields(columns@).len();
                        let a = spec_insert_sql(name@, columns@);
                        let b = " "@ + row@ + ";"@;
                        reveal_strlit(" VALUES");
                        reveal_strlit(") VALUES ");
                        reveal_strlit(")");
                        reveal_strlit("(");
                        reveal_strlit(" ");
                        reveal_strlit(";");
                        assert(statement_rows(builder) =~= seq![row@]);
                        assert(joined(seq![row@], ", "@) == row@);
                        assert(") VALUES "@ =~= ")"@ + " VALUES"@ + " "@);
                        assert(text@ =~= a + " VALUES"@ + b);
                        lemma_placeholders_hold_no_v(n);
                        lemma_no_later_occurrence(a, " VALUES"@, b, 'V');
                        lemma_last_split_is_unique(text@, " VALUES"@, head@, tail@, a, b);
                    }
                    Ok((head.to_owned(), row))
                },
                None => {
                    proof {
                        let a = spec_insert_sql(name@, columns@);
                        reveal_strlit(" VALUES");
                        reveal_strlit(") VALUES ");
                        reveal_strlit(")");
                        reveal_strlit(" ");
                        assert(statement_rows(builder) =~= seq![row@]);
                        assert(") VALUES "@ =~= ")"@ + " VALUES"@ + " "@);
                        assert(text@ =~= a + " VALUES"@ + (" "@ + row@ + ";"@));
                        assert(text@.subrange(a.len() as int, (a.len() + 7) as int) =~= " VALUES"@);
                        assert(occurs_at(text@, " VALUES"@, a.len() as int));
                    }
                    Err(ModelError::SynthesisFailure)
                },
            }
        },
        Err(_) => Err(ModelError::SynthesisFailure),
    }
}

/// The text under which column `c` is projected in the select statement.
pub fn projected(c: &Column) -> (r: String)
    ensures
        r@ == projection(*c),
{
    let name = c.name.as_str();
    if str_eq(c.data_type.as_str(), "binary(16)") {
        let mut out = String::from_str("`");
        out.append(name);
        out.append("` as \"");
        out.append(name);
        out.append(":Uuid\"");
        out
    } else if str_eq(c.data_type.as_str(), "tinyint(1)") {
        let mut out = String::from_str("`");
        out.append(name);
        out.append("` as \"");
        out.append(name);
        out.append(":bool\"");
        out
    } else {
        baname(name)
    }
}

/// The select statement for table `name`, without a closing semicolon.
pub fn select_statement(name: &str, columns: &Vec<Column>) -> (r: Result<String, ModelError>)
    ensures
        r matches Ok(text) && text@ == spec_select_sql(name@, columns@),
{
    let table = baname(name);
    let mut builder = select_from(table.as_str());
    let mut i: usize = 0;
    proof {
        assert(select_fields(columns@.take(0)) =~= Seq::<Seq<char>>::empty());
    }
    while i < columns.len()
        invariant
            i <= columns.len(),
            statement_keyword(builder) == "SELECT"@,
            statement_table(builder) == quoted_identifier(name@),
            statement_conditions(builder) == Seq::<Seq<char>>::empty(),
            statement_is_bare(builder),
            statement_fields(builder) == select_fields(columns@.take(i as int)),
        decreases columns.len() - i,
    {
        let field = projected(&columns[i]);
        add_field(&mut builder, field.as_str());
        proof {
            assert(select_fields(columns@.take(i + 1)) =~= select_fields(
                columns@.take(i as int),
            ).push(projection(columns@[i as int])));
        }
        i += 1;
    }
    proof {
        assert(columns@.take(columns.len() as int) =~= columns@);
        lemma_quoted_is_not_empty(name@);
        reveal_strlit("INSERT INTO");
        reveal_strlit("SELECT");
    }
    match sql(&builder) {
        Ok(text) => {
            let mut text = text;
            let ghost whole = text@;
            proof {
                reveal_strlit(";");
                assert(whole == select_text(quoted_identifier(name@), select_fields(columns@), Seq::empty()));
                assert(whole =~= spec_select_sql(name@, columns@) + ";"@);
            }
            let _ = pop_char(&mut text);
            proof {
                assert(text@ =~= spec_select_sql(name@, columns@));
            }
            Ok(text)
        },
        Err(_) => Err(ModelError::SynthesisFailure),
    }
}

/// The delete statement for table `name` by the key columns `keys`, without
/// a closing semicolon.
pub fn delete_statement(name: &str, keys: &Vec<Column>) -> (r: Result<String, ModelError>)
    ensures
        r matches Ok(text) && text@ == spec_delete_sql(name@, keys@),
{
    let table = baname(name);
    let mut builder = delete_from(table.as_str());
    let mut i: usize = 0;
    proof {
        assert(key_conditions(keys@.take(0)) =~= Seq::<Seq<char>>::empty());
    }
    while i < keys.len()
        invariant
            i <= keys.len(),
            statement_keyword(builder) == "DELETE FROM"@,
            statement_table(builder) == quoted_identifier(name@),
            statement_is_bare(builder),
            statement_conditions(builder) == key_conditions(keys@.take(i as int)),
        decreases keys.len() - i,
    {
        let field = baname(keys[i].name.as_str());
        and_where_eq(&mut builder, field.as_str(), "?");
        proof {
            assert(key_conditions(keys@.take(i + 1)) =~= key_conditions(
                keys@.take(i as int),
            ).push(equality_text(quoted_identifier(keys@[i as int].name@), "?"@)));
        }
        i += 1;
    }
    proof {
        assert(keys@.take(keys.len() as int) =~= keys@);
        lemma_quoted_is_not_empty(name@);
        reveal_strlit("INSERT INTO");
        reveal_strlit("SELECT");
        reveal_strlit("DELETE FROM");
        assert("DELETE FROM"@[0] != "INSERT INTO"@[0]);
    }
    match sql(&builder) {
        Ok(text) => {
            let mut text = text;
            let ghost whole = text@;
            proof {
                reveal_strlit(";");
                assert(whole == delete_text(quoted_identifier(name@), key_conditions(keys@)));
                assert(whole =~= spec_delete_sql(name@, keys@) + ";"@);
            }
            let _ = pop_char(&mut text);
            proof {
                assert(text@ =~= spec_delete_sql(name@, keys@));
            }
            Ok(text)
        },
        Err(_) => Err(ModelError::SynthesisFailure),
    }
}

/// The equalities on the key columns `keys`, with `AND` between them.
pub fn where_clause(keys: &Vec<Column>) -> (r: String)
    ensures
        r@ == spec_where(keys@),
{
    let mut conditions: Vec<String> = Vec::new();
    let mut i: usize = 0;
    proof {
        assert(texts(conditions@) =~= key_conditions(keys@.take(0)));
    }
    while i < keys.len()
        invariant
            i <= keys.len(),
            texts(conditions@) == key_conditions(keys@.take(i as int)),
        decreases keys.len() - i,
    {
        let mut condition = baname(keys[i].name.as_str());
        condition.append(" = ");
        condition.append("?");
        let ghost earlier = conditions@;
        conditions.push(condition);
        proof {
            assert(texts(conditions@) =~= texts(earlier).push(condition@));
            assert(key_conditions(keys@.take(i + 1)) =~= key_conditions(
                keys@.take(i as int),
            ).push(equality_text(quoted_identifier(keys@[i as int].name@), "?"@)));
        }
        i += 1;
    }
    proof {
        assert(keys@.take(keys.len() as int) =~= keys@);
    }
    join(&conditions, " AND ")
}

/// Whether the table's name and the names of all its columns can stand as
/// identifiers: none of them is empty.
pub open spec fn well_named(name: Seq<char>, columns: Seq<Column>) -> bool {
    &&& name.len() > 0
    &&& forall|i: int| 0 <= i < columns.len() ==> (#[trigger] columns[i]).name@.len() > 0
}

/// Whether `name` and every column name is non-empty.
pub fn check_names(name: &str, columns: &Vec<Column>) -> (r: bool)
    ensures
        r == well_named(name@, columns@),
{
    if name.is_empty() {
        return false;
    }
    let mut i: usize = 0;
    while i < columns.len()
        invariant
            i <= columns.len(),
            name@.len() > 0,
            forall|k: int| 0 <= k < i ==> (#[trigger] columns@[k]).name@.len() > 0,
        decreases columns.len() - i,
    {
        if columns[i].name.as_str().is_empty() {
            return false;
        }
        i += 1;
    }
    true
}

/// One table: its columns in ordinal order, the groups they fall into, and
/// the SQL text derived from them.
#[derive(Debug)]
pub struct Table {
    pub name: String,
    pub is_auto_increment: bool,
    pub insert_sql: String,
    pub insert_sql_values: String,
    pub select_sql: String,
    pub delete_sql: String,
    pub where_pk: String,
    pub where_fk: String,
    pub columns: Vec<Column>,
    pub primary_key_columns: Vec<Column>,
    pub foreign_key_columns: Vec<Column>,
    pub unique_columns: Vec<Column>,
    pub ordinary_columns: Vec<Column>,
}

impl Table {
    /// Everything derived in a table is what its name and columns determine.
    /// Both where-clauses are built from the primary key columns.
    pub open spec fn wf(&self) -> bool {
        let keys = partition(self.columns@, Partition::PrimaryKey);
        &&& well_named(self.name@, self.columns@)
        &&& self.columns@.len() > 0
        &&& self.primary_key_columns@ == keys
        &&& self.foreign_key_columns@ == partition(self.columns@, Partition::ForeignKey)
        &&& self.unique_columns@ == partition(self.columns@, Partition::Unique)
        &&& self.ordinary_columns@ == partition(self.columns@, Partition::Ordinary)
        &&& self.insert_sql@ == spec_insert_sql(self.name@, self.columns@)
        &&& self.insert_sql_values@ == spec_insert_sql_values(self.columns@)
        &&& self.select_sql@ == spec_select_sql(self.name@, self.columns@)
        &&& self.delete_sql@ == spec_delete_sql(self.name@, keys)
        &&& self.where_pk@ == spec_where(keys)
        &&& self.where_fk@ == spec_where(keys)
    }

    /// Builds the model of table `name` from its classified columns, all or
    /// nothing: an empty table or column name is refused, and so is a table
    /// without columns.
    pub fn new(name: String, is_auto_increment: bool, columns: Vec<Column>) -> (r: Result<
        Table,
        ModelError,
    >)
        ensures
            match r {
                Ok(t) => {
                    &&& t.name == name
                    &&& t.is_auto_increment == is_auto_increment
                    &&& t.columns == columns
                    &&& t.wf()
                },
                Err(ModelError::MalformedIdentifier) => !well_named(name@, columns@),
                Err(ModelError::SynthesisFailure) => well_named(name@, columns@) && columns@.len()
                    == 0,
                Err(ModelError::SchemaInconsistency(_)) => false,
            },
    {
        if !check_names(name.as_str(), &columns) {
            return Err(ModelError::MalformedIdentifier);
        }
        if columns.len() == 0 {
            return Err(ModelError::SynthesisFailure);
        }
        let ordinary_columns = select_partition(&columns, Partition::Ordinary);
        let primary_key_columns = select_partition(&columns, Partition::PrimaryKey);
        let foreign_key_columns = select_partition(&columns, Partition::ForeignKey);
        let unique_columns = select_partition(&columns, Partition::Unique);
        let (insert_sql, insert_sql_values) = match insert_statement(name.as_str(), &columns) {
            Ok(pair) => pair,
            Err(e) => {
                return Err(e);
            },
        };
        let select_sql = match select_statement(name.as_str(), &columns) {
            Ok(text) => text,
            Err(e) => {
                return Err(e);
            },
        };
        let delete_sql = match delete_statement(name.as_str(), &primary_key_columns) {
            Ok(text) => text,
            Err(e) => {
                return Err(e);
            },
        };
        let where_pk = where_clause(&primary_key_columns);
        let where_fk = where_clause(&primary_key_columns);
        Ok(
            Table {
                name,
                is_auto_increment,
                insert_sql,
                insert_sql_values,
                select_sql,
                delete_sql,
                where_pk,
                where_fk,
                columns,
                primary_key_columns,
                foreign_key_columns,
                unique_columns,
                ordinary_columns,
            },
        )
    }
}

/// The primary key columns and the ordinary columns split the columns in
/// two: every column is in exactly one of the two groups, and the two groups
/// together hold as many columns as there are.
pub proof fn lemma_primary_and_ordinary_split(columns: Seq<Column>)
    ensures
        forall|c: Column| belongs(c, Partition::PrimaryKey) != belongs(c, Partition::Ordinary),
        partition(columns, Partition::PrimaryKey).len() + partition(
            columns,
            Partition::Ordinary,
        ).len() == columns.len(),
        partition(columns, Partition::PrimaryKey).to_multiset().add(
            partition(columns, Partition::Ordinary).to_multiset(),
        ) == columns.to_multiset(),
    decreases columns.len(),
{
    broadcast use vstd::seq_lib::group_to_multiset_ensures;

    reveal(Seq::filter);
    if columns.len() > 0 {
        let rest = columns.drop_last();
        let c = columns.last();
        lemma_primary_and_ordinary_split(rest);
        assert(columns =~= rest.push(c));
        rest.lemma_filter_push(c, member_of(Partition::PrimaryKey));
        rest.lemma_filter_push(c, member_of(Partition::Ordinary));
        assert(partition(columns, Partition::PrimaryKey).to_multiset().add(
            partition(columns, Partition::Ordinary).to_multiset(),
        ) =~= columns.to_multiset());
    } else {
        assert(partition(columns, Partition::PrimaryKey).to_multiset().add(
            partition(columns, Partition::Ordinary).to_multiset(),
        ) =~= columns.to_multiset());
    }
}

/// In a table, the primary key columns and the ordinary columns together are
/// as many as the columns, and no column is in both groups.
pub proof fn lemma_table_columns_split(t: Table)
    requires
        t.wf(),
    ensures
        t.primary_key_columns@.len() + t.ordinary_columns@.len() == t.columns@.len(),
        t.primary_key_columns@.to_multiset().add(t.ordinary_columns@.to_multiset())
            == t.columns@.to_multiset(),
        forall|i: int|
            0 <= i < t.primary_key_columns@.len() ==> !belongs(
                #[trigger] t.primary_key_columns@[i],
                Partition::Ordinary,
            ),
        forall|i: int|
            0 <= i < t.ordinary_columns@.len() ==> !belongs(
                #[trigger] t.ordinary_columns@[i],
                Partition::PrimaryKey,
            ),
{
    broadcast use vstd::seq_lib::group_filter_ensures;

    lemma_primary_and_ordinary_split(t.columns@);
    assert forall|i: int| 0 <= i < t.primary_key_columns@.len() implies !belongs(
        #[trigger] t.primary_key_columns@[i],
        Partition::Ordinary,
    ) by {
        t.columns@.lemma_filter_pred(member_of(Partition::PrimaryKey), i);
    }
    assert forall|i: int| 0 <= i < t.ordinary_columns@.len() implies !belongs(
        #[trigger] t.ordinary_columns@[i],
        Partition::PrimaryKey,
    ) by {
        t.columns@.lemma_filter_pred(member_of(Partition::Ordinary), i);
    }
}

/// Filtering keeps the order: of two items that pass, the one that comes
/// first in the result comes first in the unfiltered list too.
pub proof fn lemma_filter_keeps_order<A>(s: Seq<A>, pred: spec_fn(A) -> bool, a: int, b: int)
    requires
        0 <= a < b < s.filter(pred).len(),
    ensures
        exists|i: int, j: int|
            0 <= i < j < s.len() && s[i] == s.filter(pred)[a] && s[j] == s.filter(pred)[b],
    decreases s.len(),
{
    reveal(Seq::filter);
    let kept = s.filter(pred);
    let rest = s.drop_last();
    if pred(s.last()) && b == kept.len() - 1 {
        assert(rest.filter(pred)[a] == kept[a]);
        assert(rest.filter(pred).contains(kept[a]));
        rest.lemma_filter_contains_rev(pred, kept[a]);
        let i = choose|i: int| 0 <= i < rest.len() && rest[i] == kept[a];
        assert(0 <= i < s.len() - 1 < s.len() && s[i] == kept[a] && s[s.len() - 1] == kept[b]);
    } else {
        lemma_filter_keeps_order(rest, pred, a, b);
        let (i, j) = choose|i: int, j: int|
            0 <= i < j < rest.len() && rest[i] == rest.filter(pred)[a] && rest[j] == rest.filter(
                pred,
            )[b];
        assert(0 <= i < j < s.len() && s[i] == kept[a] && s[j] == kept[b]);
    }
}

/// Each group of a table's columns keeps the order of the columns.
pub proof fn lemma_partition_keeps_order(columns: Seq<Column>, which: Partition, a: int, b: int)
    requires
        0 <= a < b < partition(columns, which).len(),
    ensures
        exists|i: int, j: int|
            0 <= i < j < columns.len() && columns[i] == partition(columns, which)[a] && columns[j]
                == partition(columns, which)[b],
{
    lemma_filter_keeps_order(columns, member_of(which), a, b);
}

/// The items that the derived statements are made of follow the columns:
/// the select statement has one projection for each column, at the column's
/// place; the insert statement names the inserted columns, and the where
/// clause compares the given key columns, each list in the order of its
/// columns.
pub proof fn lemma_fields_follow_columns(columns: Seq<Column>, keys: Seq<Column>)
    ensures
        select_fields(columns).len() == columns.len(),
        forall|i: int|
            0 <= i < columns.len() ==> #[trigger] select_fields(columns)[i] == projection(
                columns[i],
            ),
        insert_fields(columns).len() == columns.filter(|c: Column| inserted(c)).len(),
        forall|i: int|
            0 <= i < insert_fields(columns).len() ==> #[trigger] insert_fields(columns)[i]
                == quoted_identifier(columns.filter(|c: Column| inserted(c))[i].name@),
        key_conditions(keys).len() == keys.len(),
        forall|i: int|
            0 <= i < keys.len() ==> #[trigger] key_conditions(keys)[i] == equality_text(
                quoted_identifier(keys[i].name@),
                "?"@,
            ),
{
}

/// How often the character `c` stands in `s`.
pub open spec fn occurrences(s: Seq<char>, c: char) -> nat
    decreases s.len(),
{
    if s.len() == 0 {
        0
    } else {
        occurrences(s.drop_last(), c) + if s.last() == c {
            1nat
        } else {
            0nat
        }
    }
}

/// A character stands in a concatenation as often as in its two parts
/// together.
proof fn lemma_occurrences_add(a: Seq<char>, b: Seq<char>, c: char)
    ensures
        occurrences(a + b, c) == occurrences(a, c) + occurrences(b, c),
    decreases b.len(),
{
    if b.len() == 0 {
        assert(a + b =~= a);
    } else {
        assert((a + b).drop_last() =~= a + b.drop_last());
        lemma_occurrences_add(a, b.drop_last(), c);
    }
}

/// A list of `n` placeholders holds `n` question marks.
proof fn lemma_placeholders_counted(n: nat)
    ensures
        occurrences(joined(placeholders(n), ", "@), '?') == n,
    decreases n,
{
    reveal_strlit("?");
    reveal_strlit(", ");
    reveal_with_fuel(occurrences, 3);
    assert("?"@.drop_last() =~= Seq::<char>::empty());
    assert(", "@.drop_last().drop_last() =~= Seq::<char>::empty());
    assert(occurrences("?"@, '?') == 1);
    assert(occurrences(", "@, '?') == 0);
    if n == 1 {
        assert(joined(placeholders(n), ", "@) == "?"@);
    } else if n >= 2 {
        let earlier = joined(placeholders((n - 1) as nat), ", "@);
        lemma_placeholders_counted((n - 1) as nat);
        assert(placeholders(n).drop_last() =~= placeholders((n - 1) as nat));
        assert(placeholders(n).last() == "?"@);
        lemma_occurrences_add(earlier, ", "@, '?');
        lemma_occurrences_add(earlier + ", "@, "?"@, '?');
    }
}

/// The placeholder list of the insert statement holds one question mark for
/// each column that is not an auto-increment primary key.
pub proof fn lemma_one_placeholder_per_inserted_column(columns: Seq<Column>)
    ensures
        occurrences(spec_insert_sql_values(columns), '?') == columns.filter(
            |c: Column| inserted(c),
        ).len(),
{
    let n = insert_fields(columns).len();
    let list = joined(placeholders(n), ", "@);
    reveal_strlit("(");
    reveal_strlit(")");
    reveal_with_fuel(occurrences, 2);
    assert("("@.drop_last() =~= Seq::<char>::empty());
    assert(")"@.drop_last() =~= Seq::<char>::empty());
    lemma_placeholders_counted(n);
    lemma_occurrences_add("("@, list, '?');
    lemma_occurrences_add("("@ + list, ")"@, '?');
}

} // verus!
