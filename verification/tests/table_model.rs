use schemagen::error::ModelError;
use schemagen::table::{
    check_names, delete_statement, in_partition, insert_statement, projected, select_partition,
    select_statement, where_clause, Column, Partition, Table,
};
use schemagen::text::join;

fn column(name: &str, data_type: &str) -> Column {
    Column {
        name: name.to_string(),
        data_type: data_type.to_string(),
        is_nullable: false,
        is_auto_increment: false,
        primary_key: None,
        unique: None,
        foreign_key: None,
    }
}

fn primary(name: &str, data_type: &str) -> Column {
    let mut c = column(name, data_type);
    c.primary_key = Some("PRIMARY".to_string());
    c
}

fn names(columns: &[Column]) -> Vec<String> {
    columns.iter().map(|c| c.name.clone()).collect()
}

fn users() -> Table {
    let id = primary("id", "binary(16)");
    let mut email = column("email", "varchar(255)");
    email.unique = Some("users_email_uq".to_string());
    let mut age = column("age", "tinyint unsigned");
    age.is_nullable = true;
    Table::new("users".to_string(), false, vec![id, email, age]).unwrap()
}

fn posts() -> Table {
    let mut id = primary("id", "int");
    id.is_auto_increment = true;
    let mut user_id = column("user_id", "binary(16)");
    user_id.foreign_key = Some("posts_user_fk".to_string());
    let title = column("title", "varchar(255)");
    let published = column("published", "tinyint(1)");
    Table::new("posts".to_string(), true, vec![id, user_id, title, published]).unwrap()
}

#[test]
fn users_insert_names_every_column() {
    let t = users();
    assert_eq!(t.insert_sql, "INSERT INTO `users` (`id`, `email`, `age`)");
    assert_eq!(t.insert_sql_values, "(?, ?, ?)");
    assert_eq!(t.insert_sql_values.matches('?').count(), 3);
}

#[test]
fn users_select_reads_the_id_as_uuid() {
    let t = users();
    assert_eq!(t.select_sql, "SELECT `id` as \"id:Uuid\", `email`, `age` FROM `users`");
}

#[test]
fn users_where_and_delete_go_by_the_primary_key() {
    let t = users();
    assert_eq!(t.where_pk, "`id` = ?");
    assert_eq!(t.where_fk, "`id` = ?");
    assert_eq!(t.delete_sql, "DELETE FROM `users` WHERE `id` = ?");
}

#[test]
fn users_partitions() {
    let t = users();
    assert_eq!(t.name, "users");
    assert!(!t.is_auto_increment);
    assert_eq!(names(&t.columns), vec!["id", "email", "age"]);
    assert_eq!(names(&t.primary_key_columns), vec!["id"]);
    assert_eq!(names(&t.ordinary_columns), vec!["email", "age"]);
    assert_eq!(names(&t.unique_columns), vec!["email"]);
    assert!(t.foreign_key_columns.is_empty());
}

#[test]
fn posts_insert_leaves_out_the_auto_increment_key() {
    let t = posts();
    assert_eq!(t.insert_sql, "INSERT INTO `posts` (`user_id`, `title`, `published`)");
    assert_eq!(t.insert_sql_values, "(?, ?, ?)");
    assert_eq!(t.insert_sql_values.matches('?').count(), t.columns.len() - 1);
    assert!(t.is_auto_increment);
}

#[test]
fn posts_select_keeps_the_key_and_marks_uuid_and_bool() {
    let t = posts();
    assert_eq!(
        t.select_sql,
        "SELECT `id`, `user_id` as \"user_id:Uuid\", `title`, `published` as \"published:bool\" FROM `posts`"
    );
}

#[test]
fn posts_where_fk_is_built_from_the_primary_key() {
    let t = posts();
    assert_eq!(names(&t.foreign_key_columns), vec!["user_id"]);
    assert_eq!(t.where_fk, "`id` = ?");
    assert_eq!(t.where_pk, "`id` = ?");
}

#[test]
fn auto_increment_column_that_is_no_key_is_inserted() {
    let mut counter = column("counter", "int");
    counter.is_auto_increment = true;
    let t = Table::new("t".to_string(), true, vec![counter, column("x", "int")]).unwrap();
    assert_eq!(t.insert_sql, "INSERT INTO `t` (`counter`, `x`)");
    assert_eq!(t.insert_sql_values, "(?, ?)");
}

#[test]
fn composite_key() {
    let t = Table::new(
        "memberships".to_string(),
        false,
        vec![primary("user_id", "int"), primary("group_id", "int"), column("role", "text")],
    )
    .unwrap();
    assert_eq!(t.where_pk, "`user_id` = ? AND `group_id` = ?");
    assert_eq!(
        t.delete_sql,
        "DELETE FROM `memberships` WHERE (`user_id` = ?) AND (`group_id` = ?)"
    );
    assert_eq!(names(&t.primary_key_columns), vec!["user_id", "group_id"]);
    assert_eq!(names(&t.ordinary_columns), vec!["role"]);
}

#[test]
fn table_without_primary_key_has_an_empty_where() {
    let t = Table::new("log".to_string(), false, vec![column("line", "text")]).unwrap();
    assert_eq!(t.where_pk, "");
    assert_eq!(t.where_fk, "");
    assert_eq!(t.delete_sql, "DELETE FROM `log`");
    assert!(t.primary_key_columns.is_empty());
}

#[test]
fn table_of_one_auto_increment_key_inserts_nothing() {
    let mut id = primary("id", "int");
    id.is_auto_increment = true;
    let t = Table::new("seq".to_string(), true, vec![id]).unwrap();
    assert_eq!(t.insert_sql, "INSERT INTO `seq` ()");
    assert_eq!(t.insert_sql_values, "()");
    assert_eq!(t.select_sql, "SELECT `id` FROM `seq`");
}

#[test]
fn names_are_quoted_and_backticks_escaped() {
    let t = Table::new("or`der".to_string(), false, vec![primary("se`lect", "int")]).unwrap();
    assert_eq!(t.insert_sql, "INSERT INTO `or\\`der` (`se\\`lect`)");
    assert_eq!(t.select_sql, "SELECT `se\\`lect` FROM `or\\`der`");
    assert_eq!(t.where_pk, "`se\\`lect` = ?");
    assert_eq!(t.delete_sql, "DELETE FROM `or\\`der` WHERE `se\\`lect` = ?");
}

#[test]
fn insert_is_cut_at_the_values_clause_only() {
    let t = Table::new("a VALUES b".to_string(), false, vec![column("c VALUES d", "int")])
        .unwrap();
    assert_eq!(t.insert_sql, "INSERT INTO `a VALUES b` (`c VALUES d`)");
    assert_eq!(t.insert_sql_values, "(?)");
}

#[test]
fn empty_table_name_is_malformed() {
    let r = Table::new(String::new(), false, vec![column("a", "int")]);
    assert!(matches!(r, Err(ModelError::MalformedIdentifier)));
}

#[test]
fn empty_column_name_is_malformed() {
    let r = Table::new("t".to_string(), false, vec![column("a", "int"), column("", "int")]);
    assert!(matches!(r, Err(ModelError::MalformedIdentifier)));
    assert!(!check_names("t", &vec![column("", "int")]));
    assert!(check_names("t", &vec![column("a", "int")]));
    assert!(!check_names("", &vec![]));
}

#[test]
fn table_without_columns_is_a_synthesis_failure() {
    let r = Table::new("t".to_string(), false, vec![]);
    assert!(matches!(r, Err(ModelError::SynthesisFailure)));
}

#[test]
fn error_messages() {
    assert_eq!(
        ModelError::SchemaInconsistency("fk_1".to_string()).message(),
        "no constraint row defines fk_1"
    );
    assert_eq!(ModelError::MalformedIdentifier.message(), "a table or column name is empty");
    assert_eq!(
        ModelError::SynthesisFailure.message(),
        "a table without columns has no statements"
    );
}

#[test]
fn primary_and_ordinary_columns_split_the_columns() {
    let mut both = primary("a", "int");
    both.foreign_key = Some("fk".to_string());
    both.unique = Some("uq".to_string());
    let mut other = column("b", "int");
    other.foreign_key = Some("fk2".to_string());
    let columns = vec![both, other, column("c", "int"), primary("d", "int")];
    let t = Table::new("t".to_string(), false, columns).unwrap();
    assert_eq!(t.primary_key_columns.len() + t.ordinary_columns.len(), t.columns.len());
    assert_eq!(names(&t.primary_key_columns), vec!["a", "d"]);
    assert_eq!(names(&t.ordinary_columns), vec!["b", "c"]);
    assert_eq!(names(&t.foreign_key_columns), vec!["a", "b"]);
    assert_eq!(names(&t.unique_columns), vec!["a"]);
}

#[test]
fn partitions_keep_every_field_of_a_column() {
    let mut c = primary("id", "binary(16)");
    c.is_nullable = true;
    c.is_auto_increment = true;
    c.unique = Some("u".to_string());
    let picked = select_partition(&vec![c, column("x", "int")], Partition::PrimaryKey);
    assert_eq!(picked.len(), 1);
    assert_eq!(picked[0].name, "id");
    assert_eq!(picked[0].data_type, "binary(16)");
    assert!(picked[0].is_nullable);
    assert!(picked[0].is_auto_increment);
    assert_eq!(picked[0].primary_key.as_deref(), Some("PRIMARY"));
    assert_eq!(picked[0].unique.as_deref(), Some("u"));
    assert_eq!(picked[0].foreign_key, None);
}

#[test]
fn membership_in_each_group() {
    let c = primary("id", "int");
    assert!(in_partition(&c, Partition::PrimaryKey));
    assert!(!in_partition(&c, Partition::Ordinary));
    assert!(!in_partition(&c, Partition::ForeignKey));
    assert!(!in_partition(&c, Partition::Unique));
    assert!(in_partition(&column("x", "int"), Partition::Ordinary));
}

#[test]
fn projection_goes_by_the_exact_type() {
    assert_eq!(projected(&column("id", "binary(16)")), "`id` as \"id:Uuid\"");
    assert_eq!(projected(&column("ok", "tinyint(1)")), "`ok` as \"ok:bool\"");
    assert_eq!(projected(&column("ok", "tinyint(1) unsigned")), "`ok`");
    assert_eq!(projected(&column("n", "int")), "`n`");
}

#[test]
fn statements_one_by_one() {
    let columns = vec![primary("id", "int"), column("v", "text")];
    let (insert, values) = insert_statement("t", &columns).unwrap();
    assert_eq!(insert, "INSERT INTO `t` (`id`, `v`)");
    assert_eq!(values, "(?, ?)");
    assert_eq!(select_statement("t", &columns).unwrap(), "SELECT `id`, `v` FROM `t`");
    assert_eq!(select_statement("t", &vec![]).unwrap(), "SELECT * FROM `t`");
    let keys = vec![primary("id", "int")];
    assert_eq!(delete_statement("t", &keys).unwrap(), "DELETE FROM `t` WHERE `id` = ?");
    assert_eq!(where_clause(&keys), "`id` = ?");
    assert_eq!(where_clause(&vec![]), "");
}

#[test]
fn join_puts_the_separator_between_neighbours() {
    assert_eq!(join(&vec![], ", "), "");
    assert_eq!(join(&vec!["a".to_string()], ", "), "a");
    assert_eq!(join(&vec!["a".to_string(), "b".to_string(), "c".to_string()], " AND "), "a AND b AND c");
}
