use schemagen::cli::{bool_true, default_template_directory, is_excluded_table, Config};
use schemagen::error::ModelError;
use schemagen::filters::{as_snake_case, as_upper_camel_case};
use schemagen::information_schema::{
    apply_key, apply_keys, build_table, constraint_type_of, get_keys, load_table_columns,
    ColumnRow, KeyColumnUsage, TableConstraint, TableRow,
};
use schemagen::table::{Column, Key};

fn usage(column: &str, constraint: &str, position: u32) -> KeyColumnUsage {
    KeyColumnUsage {
        column_name: column.to_string(),
        constraint_name: constraint.to_string(),
        ordinal_position: position,
    }
}

fn constraint(name: &str, kind: &str) -> TableConstraint {
    TableConstraint { constraint_name: name.to_string(), constraint_type: kind.to_string() }
}

fn row(name: &str, column_type: &str, is_nullable: &str, extra: &str) -> ColumnRow {
    ColumnRow {
        column_name: name.to_string(),
        column_type: column_type.to_string(),
        is_nullable: is_nullable.to_string(),
        extra: extra.to_string(),
    }
}

fn key(column: &str, constraint: &str, kind: &str) -> Key {
    Key {
        column_name: column.to_string(),
        constraint_name: constraint.to_string(),
        constraint_type: kind.to_string(),
    }
}

fn plain(name: &str) -> Column {
    Column {
        name: name.to_string(),
        data_type: "int".to_string(),
        is_nullable: false,
        is_auto_increment: false,
        primary_key: None,
        unique: None,
        foreign_key: None,
    }
}

fn marks(c: &Column) -> (Option<&str>, Option<&str>, Option<&str>) {
    (c.primary_key.as_deref(), c.foreign_key.as_deref(), c.unique.as_deref())
}

#[test]
fn keys_take_the_kind_of_their_constraint() {
    let keys = get_keys(
        &vec![usage("id", "PRIMARY", 1), usage("user_id", "posts_user_fk", 1)],
        &vec![constraint("posts_user_fk", "FOREIGN KEY"), constraint("PRIMARY", "PRIMARY KEY")],
    )
    .unwrap();
    assert_eq!(keys.len(), 2);
    assert_eq!(keys[0].column_name, "id");
    assert_eq!(keys[0].constraint_name, "PRIMARY");
    assert_eq!(keys[0].constraint_type, "PRIMARY KEY");
    assert_eq!(keys[1].column_name, "user_id");
    assert_eq!(keys[1].constraint_name, "posts_user_fk");
    assert_eq!(keys[1].constraint_type, "FOREIGN KEY");
}

#[test]
fn composite_constraint_gives_one_key_per_column() {
    let keys = get_keys(
        &vec![usage("a", "PRIMARY", 1), usage("b", "PRIMARY", 2)],
        &vec![constraint("PRIMARY", "PRIMARY KEY")],
    )
    .unwrap();
    assert_eq!(keys.len(), 2);
    assert_eq!(keys[0].column_name, "a");
    assert_eq!(keys[1].column_name, "b");
    assert_eq!(keys[1].constraint_type, "PRIMARY KEY");
}

#[test]
fn undefined_constraint_is_named_in_the_error() {
    let r = get_keys(
        &vec![usage("id", "PRIMARY", 1), usage("x", "ghost_fk", 1), usage("y", "other", 1)],
        &vec![constraint("PRIMARY", "PRIMARY KEY")],
    );
    match r {
        Err(ModelError::SchemaInconsistency(name)) => assert_eq!(name, "ghost_fk"),
        _ => panic!("an undefined constraint must be refused"),
    }
}

#[test]
fn no_usage_rows_give_no_keys() {
    assert!(get_keys(&vec![], &vec![]).unwrap().is_empty());
}

#[test]
fn the_first_constraint_of_a_name_decides() {
    let constraints = vec![constraint("c", "UNIQUE"), constraint("c", "PRIMARY KEY")];
    assert_eq!(constraint_type_of(&constraints, "c").as_deref(), Some("UNIQUE"));
    assert_eq!(constraint_type_of(&constraints, "d"), None);
    assert_eq!(constraint_type_of(&constraints, "C"), None);
}

#[test]
fn columns_come_from_rows_in_order() {
    let columns = load_table_columns(&vec![
        row("id", "int", "NO", "auto_increment"),
        row("note", "text", "YES", ""),
        row("at", "datetime", "yes", "on update CURRENT_TIMESTAMP"),
    ]);
    assert_eq!(columns.len(), 3);
    assert_eq!(columns[0].name, "id");
    assert_eq!(columns[0].data_type, "int");
    assert!(!columns[0].is_nullable);
    assert!(columns[0].is_auto_increment);
    assert_eq!(marks(&columns[0]), (None, None, None));
    assert_eq!(columns[1].name, "note");
    assert!(columns[1].is_nullable);
    assert!(!columns[1].is_auto_increment);
    assert!(!columns[2].is_nullable);
    assert!(!columns[2].is_auto_increment);
}

#[test]
fn each_kind_of_key_sets_its_own_field() {
    let mut columns = vec![plain("a"), plain("b"), plain("c")];
    apply_keys(
        &mut columns,
        &vec![
            key("a", "PRIMARY", "PRIMARY KEY"),
            key("b", "fk_b", "FOREIGN KEY"),
            key("c", "uq_c", "UNIQUE"),
        ],
    );
    assert_eq!(marks(&columns[0]), (Some("PRIMARY"), None, None));
    assert_eq!(marks(&columns[1]), (None, Some("fk_b"), None));
    assert_eq!(marks(&columns[2]), (None, None, Some("uq_c")));
}

#[test]
fn a_column_can_be_in_several_keys() {
    let mut columns = vec![plain("a")];
    apply_keys(
        &mut columns,
        &vec![
            key("a", "PRIMARY", "PRIMARY KEY"),
            key("a", "uq_a", "UNIQUE"),
            key("a", "fk_1", "FOREIGN KEY"),
            key("a", "fk_2", "FOREIGN KEY"),
        ],
    );
    assert_eq!(marks(&columns[0]), (Some("PRIMARY"), Some("fk_2"), Some("uq_a")));
    assert_eq!(columns[0].name, "a");
    assert_eq!(columns[0].data_type, "int");
}

#[test]
fn other_kinds_of_constraint_are_ignored() {
    let mut columns = vec![plain("a")];
    apply_key(&mut columns, &key("a", "chk", "CHECK"));
    apply_key(&mut columns, &key("a", "pk", "primary key"));
    assert_eq!(marks(&columns[0]), (None, None, None));
}

#[test]
fn a_key_on_an_unknown_column_changes_nothing() {
    let mut columns = vec![plain("a")];
    apply_key(&mut columns, &key("z", "PRIMARY", "PRIMARY KEY"));
    assert_eq!(marks(&columns[0]), (None, None, None));
}

#[test]
fn a_key_falls_on_the_first_column_of_its_name() {
    let mut columns = vec![plain("a"), plain("b"), plain("b")];
    apply_key(&mut columns, &key("b", "PRIMARY", "PRIMARY KEY"));
    assert_eq!(marks(&columns[0]), (None, None, None));
    assert_eq!(marks(&columns[1]), (Some("PRIMARY"), None, None));
    assert_eq!(marks(&columns[2]), (None, None, None));
}

#[test]
fn classifying_twice_changes_nothing() {
    let keys = vec![
        key("id", "PRIMARY", "PRIMARY KEY"),
        key("owner", "fk_a", "FOREIGN KEY"),
        key("owner", "fk_b", "FOREIGN KEY"),
        key("id", "uq", "UNIQUE"),
    ];
    let mut once = vec![plain("id"), plain("owner")];
    apply_keys(&mut once, &keys);
    let mut twice = vec![plain("id"), plain("owner")];
    apply_keys(&mut twice, &keys);
    apply_keys(&mut twice, &keys);
    assert_eq!(once.len(), twice.len());
    for (a, b) in once.iter().zip(twice.iter()) {
        assert_eq!(a.name, b.name);
        assert_eq!(marks(a), marks(b));
    }
    assert_eq!(marks(&once[0]), (Some("PRIMARY"), None, Some("uq")));
    assert_eq!(marks(&once[1]), (None, Some("fk_b"), None));
}

#[test]
fn a_table_is_built_from_its_rows() {
    let t = build_table(
        &TableRow { table_name: "posts".to_string(), auto_increment: Some(true) },
        &vec![row("id", "int", "NO", "auto_increment"), row("user_id", "binary(16)", "NO", "")],
        &vec![usage("id", "PRIMARY", 1), usage("user_id", "posts_user_fk", 1)],
        &vec![constraint("PRIMARY", "PRIMARY KEY"), constraint("posts_user_fk", "FOREIGN KEY")],
    )
    .unwrap();
    assert_eq!(t.name, "posts");
    assert!(t.is_auto_increment);
    assert_eq!(t.insert_sql, "INSERT INTO `posts` (`user_id`)");
    assert_eq!(t.insert_sql_values, "(?)");
    assert_eq!(t.select_sql, "SELECT `id`, `user_id` as \"user_id:Uuid\" FROM `posts`");
    assert_eq!(t.where_pk, "`id` = ?");
    assert_eq!(t.foreign_key_columns.len(), 1);
    assert_eq!(t.foreign_key_columns[0].foreign_key.as_deref(), Some("posts_user_fk"));
}

#[test]
fn a_table_without_the_flag_is_not_auto_increment() {
    let t = build_table(
        &TableRow { table_name: "t".to_string(), auto_increment: None },
        &vec![row("a", "int", "NO", "")],
        &vec![],
        &vec![],
    )
    .unwrap();
    assert!(!t.is_auto_increment);
    let t = build_table(
        &TableRow { table_name: "t".to_string(), auto_increment: Some(false) },
        &vec![row("a", "int", "NO", "")],
        &vec![],
        &vec![],
    )
    .unwrap();
    assert!(!t.is_auto_increment);
}

#[test]
fn an_inconsistent_schema_builds_no_table() {
    let r = build_table(
        &TableRow { table_name: "t".to_string(), auto_increment: None },
        &vec![row("a", "int", "NO", "")],
        &vec![usage("a", "missing", 1)],
        &vec![],
    );
    match r {
        Err(ModelError::SchemaInconsistency(name)) => assert_eq!(name, "missing"),
        _ => panic!("an undefined constraint must be refused"),
    }
}

#[test]
fn a_table_without_column_rows_builds_no_table() {
    let r = build_table(
        &TableRow { table_name: "t".to_string(), auto_increment: None },
        &vec![],
        &vec![],
        &vec![],
    );
    assert!(matches!(r, Err(ModelError::SynthesisFailure)));
}

#[test]
fn case_conversion() {
    assert_eq!(as_upper_camel_case("user_accounts"), "UserAccounts");
    assert_eq!(as_snake_case("UserAccounts"), "user_accounts");
    assert_eq!(as_snake_case("user_accounts"), "user_accounts");
}

#[test]
fn config_defaults() {
    assert!(bool_true());
    assert_eq!(default_template_directory(), "templates");
    let config = Config::with_output("out".to_string());
    assert_eq!(config.output, "out");
    assert_eq!(config.template_directory, "templates");
    assert!(config.render_folder);
    assert!(config.templates.is_empty());
    assert!(config.dotenv.is_none());
    assert!(config.database_url.is_none());
}

#[test]
fn only_the_migration_table_is_excluded() {
    assert!(is_excluded_table("_sqlx_migrations"));
    assert!(!is_excluded_table("sqlx_migrations"));
    assert!(!is_excluded_table("users"));
}
