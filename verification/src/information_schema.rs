//! The key classifier: resolves the rows of the schema catalog into keys and
//! marks each column with the constraints it takes part in.

use vstd::prelude::*;
use vstd::string::*;
use crate::error::ModelError;
use crate::table::{Column, Key, Table};
use crate::text::str_eq;

verus! {

/// One table of the schema, as the catalog lists it.
#[derive(Debug)]
pub struct TableRow {
    pub table_name: String,
    pub auto_increment: Option<bool>,
}

/// One column of a table, as the catalog lists it.
#[derive(Debug)]
pub struct ColumnRow {
    pub column_name: String,
    pub column_type: String,
    pub is_nullable: String,
    pub extra: String,
}

/// The definition of one constraint: its name and its kind.
#[derive(Debug)]
pub struct TableConstraint {
    pub constraint_name: String,
    pub constraint_type: String,
}

/// One column's part in one constraint.
#[derive(Debug)]
pub struct KeyColumnUsage {
    pub column_name: String,
    pub constraint_name: String,
    pub ordinal_position: u32,
}

/// The column that a catalog row describes, not yet part of any key.
pub open spec fn column_of(row: ColumnRow) -> Column {
    Column {
        name: row.column_name,
        data_type: row.column_type,
        is_nullable: row.is_nullable@ == "YES"@,
        is_auto_increment: row.extra@ == "auto_increment"@,
        primary_key: None,
        unique: None,
        foreign_key: None,
    }
}

/// Turns catalog rows into columns, in the order of the rows.
pub fn load_table_columns(rows: &Vec<ColumnRow>) -> (r: Vec<Column>)
    ensures
        r@ == rows@.map_values(|row: ColumnRow| column_of(row)),
{
    let mut out: Vec<Column> = Vec::new();
    let mut i: usize = 0;
    while i < rows.len()
        invariant
            i <= rows.len(),
            out@ == rows@.take(i as int).map_values(|row: ColumnRow| column_of(row)),
        decreases rows.len() - i,
    {
        let row = &rows[i];
        out.push(
            Column {
                name: row.column_name.clone(),
                data_type: row.column_type.clone(),
                is_nullable: str_eq(row.is_nullable.as_str(), "YES"),
                is_auto_increment: str_eq(row.extra.as_str(), "auto_increment"),
                primary_key: None,
                unique: None,
                foreign_key: None,
            },
        );
        proof {
            assert(rows@.take(i + 1).map_values(|row: ColumnRow| column_of(row)) =~= rows@.take(
                i as int,
            ).map_values(|row: ColumnRow| column_of(row)).push(column_of(rows@[i as int])));
        }
        i += 1;
    }
    proof {
        assert(rows@.take(rows.len() as int) =~= rows@);
    }
    out
}

/// The first of `constraints` that is named `name`.
pub open spec fn find_constraint(constraints: Seq<TableConstraint>, name: Seq<char>) -> Option<
    TableConstraint,
>
    decreases constraints.len(),
{
    if constraints.len() == 0 {
        None
    } else if constraints.first().constraint_name@ == name {
        Some(constraints.first())
    } else {
        find_constraint(constraints.drop_first(), name)
    }
}

/// The keys that the usage rows resolve to, one for each row and in the
/// order of the rows, each with the kind of the constraint of its name; or
/// the name of the first row's constraint that no constraint row defines.
pub open spec fn resolved_keys(
    usage: Seq<KeyColumnUsage>,
    constraints: Seq<TableConstraint>,
) -> Result<Seq<Key>, String>
    decreases usage.len(),
{
    if usage.len() == 0 {
        Ok(Seq::empty())
    } else {
        match resolved_keys(usage.drop_last(), constraints) {
            Err(name) => Err(name),
            Ok(keys) => match find_constraint(constraints, usage.last().constraint_name@) {
                None => Err(usage.last().constraint_name),
                Some(c) => Ok(
                    keys.push(
                        Key {
                            column_name: usage.last().column_name,
                            constraint_name: usage.last().constraint_name,
                            constraint_type: c.constraint_type,
                        },
                    ),
                ),
            },
        }
    }
}

/// The kind of the first constraint named `name`, if there is one.
pub fn constraint_type_of(constraints: &Vec<TableConstraint>, name: &str) -> (r: Option<String>)
    ensures
        match find_constraint(constraints@, name@) {
            Some(c) => r == Some(c.constraint_type),
            None => r is None,
        },
{
    let mut j: usize = 0;
    proof {
        assert(constraints@.skip(0) =~= constraints@);
    }
    while j < constraints.len()
        invariant
            j <= constraints.len(),
            find_constraint(constraints@, name@) == find_constraint(
                constraints@.skip(j as int),
                name@,
            ),
        decreases constraints.len() - j,
    {
        if str_eq(constraints[j].constraint_name.as_str(), name) {
            return Some(constraints[j].constraint_type.clone());
        }
        proof {
            assert(constraints@.skip(j as int).drop_first() =~= constraints@.skip(j + 1));
        }
        j += 1;
    }
    None
}

/// Joins the usage rows to the constraint rows by constraint name. Fails on
/// the first usage row whose constraint no constraint row defines, and names
/// that constraint.
pub fn get_keys(usage: &Vec<KeyColumnUsage>, constraints: &Vec<TableConstraint>) -> (r: Result<
    Vec<Key>,
    ModelError,
>)
    ensures
        match r {
            Ok(keys) => resolved_keys(usage@, constraints@) == Ok::<Seq<Key>, String>(keys@),
            Err(ModelError::SchemaInconsistency(name)) => resolved_keys(usage@, constraints@)
                == Err::<Seq<Key>, String>(name),
            Err(_) => false,
        },
{
    let mut keys: Vec<Key> = Vec::new();
    let mut i: usize = 0;
    proof {
        assert(usage@.take(0) =~= Seq::<KeyColumnUsage>::empty());
    }
    while i < usage.len()
        invariant
            i <= usage.len(),
            resolved_keys(usage@.take(i as int), constraints@) == Ok::<Seq<Key>, String>(keys@),
        decreases usage.len() - i,
    {
        let row = &usage[i];
        proof {
            assert(usage@.take(i + 1).drop_last() =~= usage@.take(i as int));
            assert(usage@.take(i + 1).last() == *row);
        }
        match constraint_type_of(constraints, row.constraint_name.as_str()) {
            Some(constraint_type) => {
                keys.push(
                    Key {
                        column_name: row.column_name.clone(),
                        constraint_name: row.constraint_name.clone(),
                        constraint_type,
                    },
                );
            },
            None => {
                proof {
                    lemma_failure_stays(usage@, constraints@, i + 1);
                }
                return Err(ModelError::SchemaInconsistency(row.constraint_name.clone()));
            },
        }
        i += 1;
    }
    proof {
        assert(usage@.take(usage.len() as int) =~= usage@);
    }
    Ok(keys)
}

/// Once a prefix of the usage rows fails to resolve, all rows fail, on the
/// same constraint.
proof fn lemma_failure_stays(usage: Seq<KeyColumnUsage>, constraints: Seq<TableConstraint>, n: int)
    requires
        0 <= n <= usage.len(),
        resolved_keys(usage.take(n), constraints) is Err,
    ensures
        resolved_keys(usage, constraints) == resolved_keys(usage.take(n), constraints),
    decreases usage.len() - n,
{
    if n < usage.len() {
        assert(usage.take(n + 1).drop_last() =~= usage.take(n));
        lemma_failure_stays(usage, constraints, n + 1);
    } else {
        assert(usage.take(n) =~= usage);
    }
}

/// The position of the first of `columns` that is named `name`.
pub open spec fn find_column(columns: Seq<Column>, name: Seq<char>) -> Option<int>
    decreases columns.len(),
{
    if columns.len() == 0 {
        None
    } else {
        match find_column(columns.drop_last(), name) {
            Some(i) => Some(i),
            None => if columns.last().name@ == name {
                Some(columns.len() - 1)
            } else {
                None
            },
        }
    }
}

/// Column `c` after key `k` was noted on it: the field of the key's kind
/// holds the constraint's name, and a key of any other kind than the three
/// changes nothing.
pub open spec fn marked(c: Column, k: Key) -> Column {
    Column {
        primary_key: if k.constraint_type@ == "PRIMARY KEY"@ {
            Some(k.constraint_name)
        } else {
            c.primary_key
        },
        foreign_key: if k.constraint_type@ == "FOREIGN KEY"@ {
            Some(k.constraint_name)
        } else {
            c.foreign_key
        },
        unique: if k.constraint_type@ == "UNIQUE"@ {
            Some(k.constraint_name)
        } else {
            c.unique
        },
        ..c
    }
}

/// The columns after key `k` was noted on the first column of its name;
/// unchanged where no column has that name.
pub open spec fn with_key(columns: Seq<Column>, k: Key) -> Seq<Column> {
    match find_column(columns, k.column_name@) {
        Some(i) => columns.update(i, marked(columns[i], k)),
        None => columns,
    }
}

/// The columns after each of `keys` was noted, in the order of `keys`.
pub open spec fn with_keys(columns: Seq<Column>, keys: Seq<Key>) -> Seq<Column>
    decreases keys.len(),
{
    if keys.len() == 0 {
        columns
    } else {
        with_key(with_keys(columns, keys.drop_last()), keys.last())
    }
}

/// What is found among the first `n` columns is found among all of them.
proof fn lemma_found_stays(columns: Seq<Column>, name: Seq<char>, n: int)
    requires
        0 <= n <= columns.len(),
        find_column(columns.take(n), name) is Some,
    ensures
        find_column(columns, name) == find_column(columns.take(n), name),
    decreases columns.len() - n,
{
    if n < columns.len() {
        assert(columns.take(n + 1).drop_last() =~= columns.take(n));
        lemma_found_stays(columns, name, n + 1);
    } else {
        assert(columns.take(n) =~= columns);
    }
}

/// Notes key `key` on the first column of its name.
pub fn apply_key(columns: &mut Vec<Column>, key: &Key)
    ensures
        final(columns)@ == with_key(old(columns)@, *key),
{
    let mut i: usize = 0;
    proof {
        assert(columns@.take(0) =~= Seq::<Column>::empty());
    }
    while i < columns.len()
        invariant
            i <= columns.len(),
            columns@ == old(columns)@,
            find_column(columns@.take(i as int), key.column_name@) is None,
        decreases columns.len() - i,
    {
        proof {
            assert(columns@.take(i + 1).drop_last() =~= columns@.take(i as int));
        }
        if str_eq(columns[i].name.as_str(), key.column_name.as_str()) {
            let mut c = columns[i].clone();
            proof {
                reveal_strlit("PRIMARY KEY");
                reveal_strlit("FOREIGN KEY");
                reveal_strlit("UNIQUE");
                assert("PRIMARY KEY"@[0] != "FOREIGN KEY"@[0]);
                lemma_found_stays(columns@, key.column_name@, i + 1);
            }
            if str_eq(key.constraint_type.as_str(), "PRIMARY KEY") {
                c.primary_key = Some(key.constraint_name.clone());
            } else if str_eq(key.constraint_type.as_str(), "FOREIGN KEY") {
                c.foreign_key = Some(key.constraint_name.clone());
            } else if str_eq(key.constraint_type.as_str(), "UNIQUE") {
                c.unique = Some(key.constraint_name.clone());
            }
            columns.set(i, c);
            return;
        }
        i += 1;
    }
    proof {
        assert(columns@.take(columns.len() as int) =~= columns@);
    }
}

/// Notes each of `keys` on the columns, in the order of `keys`.
pub fn apply_keys(columns: &mut Vec<Column>, keys: &Vec<Key>)
    ensures
        final(columns)@ == with_keys(old(columns)@, keys@),
{
    let mut i: usize = 0;
    proof {
        assert(keys@.take(0) =~= Seq::<Key>::empty());
    }
    while i < keys.len()
        invariant
            i <= keys.len(),
            columns@ == with_keys(old(columns)@, keys@.take(i as int)),
        decreases keys.len() - i,
    {
        proof {
            assert(keys@.take(i + 1).drop_last() =~= keys@.take(i as int));
        }
        apply_key(columns, &keys[i]);
        i += 1;
    }
    proof {
        assert(keys@.take(keys.len() as int) =~= keys@);
    }
}

/// The classified columns of a table: its column rows with the keys noted
/// that its usage rows resolve to, or the name of the constraint that is not
/// defined.
pub open spec fn classified_columns(
    rows: Seq<ColumnRow>,
    usage: Seq<KeyColumnUsage>,
    constraints: Seq<TableConstraint>,
) -> Result<Seq<Column>, String> {
    match resolved_keys(usage, constraints) {
        Ok(keys) => Ok(with_keys(rows.map_values(|row: ColumnRow| column_of(row)), keys)),
        Err(name) => Err(name),
    }
}

/// Builds the model of one table from its catalog rows: resolves the keys,
/// notes them on the columns and derives the table from those. A table
/// without an auto-increment flag counts as having none.
pub fn build_table(
    table: &TableRow,
    rows: &Vec<ColumnRow>,
    usage: &Vec<KeyColumnUsage>,
    constraints: &Vec<TableConstraint>,
) -> (r: Result<Table, ModelError>)
    ensures
        match classified_columns(rows@, usage@, constraints@) {
            Err(name) => r matches Err(ModelError::SchemaInconsistency(n)) && n == name,
            Ok(columns) => match r {
                Ok(t) => {
                    &&& t.name == table.table_name
                    &&& t.is_auto_increment == (table.auto_increment == Some(true))
                    &&& t.columns@ == columns
                    &&& t.wf()
                },
                Err(ModelError::MalformedIdentifier) => !crate::table::well_named(
                    table.table_name@,
                    columns,
                ),
                Err(ModelError::SynthesisFailure) => crate::table::well_named(
                    table.table_name@,
                    columns,
                ) && columns.len() == 0,
                Err(ModelError::SchemaInconsistency(_)) => false,
            },
        },
{
    let keys = match get_keys(usage, constraints) {
        Ok(keys) => keys,
        Err(e) => {
            return Err(e);
        },
    };
    let mut columns = load_table_columns(rows);
    apply_keys(&mut columns, &keys);
    let is_auto_increment = match table.auto_increment {
        Some(flag) => flag,
        None => false,
    };
    Table::new(table.table_name.clone(), is_auto_increment, columns)
}

/// Whether two lists of columns have the same names at the same places.
spec fn same_names(a: Seq<Column>, b: Seq<Column>) -> bool {
    &&& a.len() == b.len()
    &&& forall|i: int| 0 <= i < a.len() ==> (#[trigger] a[i]).name@ == b[i].name@
}

/// A column that is found lies in the list and has the name looked for.
proof fn lemma_found_is_named(columns: Seq<Column>, name: Seq<char>)
    ensures
        find_column(columns, name) matches Some(i) ==> 0 <= i < columns.len()
            && columns[i].name@ == name,
    decreases columns.len(),
{
    if columns.len() > 0 {
        lemma_found_is_named(columns.drop_last(), name);
    }
}

/// Which column is found depends on the columns' names alone.
proof fn lemma_found_by_names(a: Seq<Column>, b: Seq<Column>, name: Seq<char>)
    requires
        same_names(a, b),
    ensures
        find_column(a, name) == find_column(b, name),
    decreases a.len(),
{
    if a.len() > 0 {
        assert(same_names(a.drop_last(), b.drop_last())) by {
            assert forall|i: int| 0 <= i < a.drop_last().len() implies (
            #[trigger] a.drop_last()[i]).name@ == b.drop_last()[i].name@ by {
                assert(a[i].name@ == b[i].name@);
            }
        }
        lemma_found_by_names(a.drop_last(), b.drop_last(), name);
        assert(a.last().name@ == b.last().name@);
    }
}

/// What becomes of the column `c` at place `i` of `base` when `keys` are
/// noted on `base`.
spec fn noted(c: Column, base: Seq<Column>, i: int, keys: Seq<Key>) -> Column
    decreases keys.len(),
{
    if keys.len() == 0 {
        c
    } else {
        let earlier = noted(c, base, i, keys.drop_last());
        if find_column(base, keys.last().column_name@) == Some(i) {
            marked(earlier, keys.last())
        } else {
            earlier
        }
    }
}

/// The constraint name that `keys` leave in the field of kind `kind` of the
/// column at place `i` of `base`: that of the last key of that kind which
/// falls on the column, if there is one.
spec fn decided(base: Seq<Column>, i: int, keys: Seq<Key>, kind: Seq<char>) -> Option<String>
    decreases keys.len(),
{
    if keys.len() == 0 {
        None
    } else if find_column(base, keys.last().column_name@) == Some(i)
        && keys.last().constraint_type@ == kind {
        Some(keys.last().constraint_name)
    } else {
        decided(base, i, keys.drop_last(), kind)
    }
}

/// `later` where there is one, else `earlier`.
spec fn replaced(earlier: Option<String>, later: Option<String>) -> Option<String> {
    if later is Some {
        later
    } else {
        earlier
    }
}

/// Noting keys on a column sets each key field to what the keys decide for
/// it and leaves the rest of the column alone.
proof fn lemma_noted_by_field(c: Column, base: Seq<Column>, i: int, keys: Seq<Key>)
    ensures
        noted(c, base, i, keys) == (Column {
            primary_key: replaced(c.primary_key, decided(base, i, keys, "PRIMARY KEY"@)),
            foreign_key: replaced(c.foreign_key, decided(base, i, keys, "FOREIGN KEY"@)),
            unique: replaced(c.unique, decided(base, i, keys, "UNIQUE"@)),
            ..c
        }),
    decreases keys.len(),
{
    if keys.len() > 0 {
        lemma_noted_by_field(c, base, i, keys.drop_last());
    }
}

/// Noting keys on a list of columns keeps the names and notes the keys on
/// each column by itself.
proof fn lemma_with_keys_pointwise(columns: Seq<Column>, keys: Seq<Key>)
    ensures
        same_names(with_keys(columns, keys), columns),
        forall|i: int|
            0 <= i < columns.len() ==> #[trigger] with_keys(columns, keys)[i] == noted(
                columns[i],
                columns,
                i,
                keys,
            ),
    decreases keys.len(),
{
    if keys.len() > 0 {
        let earlier = with_keys(columns, keys.drop_last());
        let k = keys.last();
        lemma_with_keys_pointwise(columns, keys.drop_last());
        lemma_found_by_names(earlier, columns, k.column_name@);
        lemma_found_is_named(earlier, k.column_name@);
        let later = with_key(earlier, k);
        assert(same_names(later, columns)) by {
            assert forall|i: int| 0 <= i < later.len() implies (#[trigger] later[i]).name@
                == columns[i].name@ by {
                assert(earlier[i].name@ == columns[i].name@);
            }
        }
        assert forall|i: int| 0 <= i < columns.len() implies #[trigger] later[i] == noted(
            columns[i],
            columns,
            i,
            keys,
        ) by {
            assert(earlier[i] == noted(columns[i], columns, i, keys.drop_last()));
        }
    }
}

/// What keys do to a column depends on the names of the list it stands in
/// alone.
proof fn lemma_noted_by_names(c: Column, a: Seq<Column>, b: Seq<Column>, i: int, keys: Seq<Key>)
    requires
        same_names(a, b),
    ensures
        noted(c, a, i, keys) == noted(c, b, i, keys),
    decreases keys.len(),
{
    if keys.len() > 0 {
        lemma_noted_by_names(c, a, b, i, keys.drop_last());
        lemma_found_by_names(a, b, keys.last().column_name@);
    }
}

/// Classification is idempotent: noting the same keys once more on columns
/// that already carry them changes nothing.
pub proof fn lemma_classification_is_idempotent(columns: Seq<Column>, keys: Seq<Key>)
    ensures
        with_keys(with_keys(columns, keys), keys) == with_keys(columns, keys),
{
    let once = with_keys(columns, keys);
    let twice = with_keys(once, keys);
    lemma_with_keys_pointwise(columns, keys);
    lemma_with_keys_pointwise(once, keys);
    assert forall|i: int| 0 <= i < once.len() implies twice[i] == once[i] by {
        assert(once[i] == noted(columns[i], columns, i, keys));
        assert(twice[i] == noted(once[i], once, i, keys));
        lemma_noted_by_names(once[i], once, columns, i, keys);
        lemma_noted_by_field(columns[i], columns, i, keys);
        lemma_noted_by_field(once[i], columns, i, keys);
    }
    assert(twice =~= once);
}

} // verus!
