use schemagen::filters::{
    classify, default_value_expression, is_bool, is_datetime, is_i16, is_i32, is_i8, is_string,
    is_u16, is_u32, is_u8, is_uuid, repeat, target_type_name, to_rust_initialize, to_rust_type,
    SemanticType,
};

#[test]
fn classify_follows_the_rules_in_order() {
    assert_eq!(classify("tinyint(1)"), SemanticType::Bool);
    assert_eq!(classify("tinyint"), SemanticType::Int8);
    assert_eq!(classify("tinyint unsigned"), SemanticType::UInt8);
    assert_eq!(classify("binary(16)"), SemanticType::Uuid);
    assert_eq!(classify("varchar(255)"), SemanticType::Text);
    assert_eq!(classify("decimal(10,2)"), SemanticType::Unrecognized);
}

#[test]
fn classify_covers_every_kind() {
    assert_eq!(classify("datetime"), SemanticType::DateTime);
    assert_eq!(classify("char(3)"), SemanticType::Text);
    assert_eq!(classify("text"), SemanticType::Text);
    assert_eq!(classify("tinyint(4)"), SemanticType::Int8);
    assert_eq!(classify("smallint"), SemanticType::Int16);
    assert_eq!(classify("smallint unsigned"), SemanticType::UInt16);
    assert_eq!(classify("int"), SemanticType::Int32);
    assert_eq!(classify("int unsigned"), SemanticType::UInt32);
    assert_eq!(classify("int(11)"), SemanticType::Int32);
}

#[test]
fn classify_is_exact_where_the_rule_is_exact() {
    assert_eq!(classify("binary(16) "), SemanticType::Unrecognized);
    assert_eq!(classify("datetime(6)"), SemanticType::Unrecognized);
    assert_eq!(classify(""), SemanticType::Unrecognized);
}

#[test]
fn wider_integers_are_matched_by_prefix_only() {
    assert_eq!(classify("integer"), SemanticType::Int32);
    assert_eq!(classify("bigint"), SemanticType::Unrecognized);
    assert_eq!(classify("mediumint"), SemanticType::Unrecognized);
}

#[test]
fn tinyint_one_unsigned_is_a_bool() {
    assert_eq!(classify("tinyint(1) unsigned"), SemanticType::Bool);
    assert!(is_bool("tinyint(1) unsigned"));
    assert!(is_u8("tinyint(1) unsigned"));
}

#[test]
fn predicates_on_their_own() {
    assert!(is_uuid("binary(16)"));
    assert!(!is_uuid("binary(8)"));
    assert!(is_datetime("datetime"));
    assert!(!is_datetime("date"));
    assert!(is_string("varchar(10)"));
    assert!(is_string("character"));
    assert!(!is_string("tinytext"));
    assert!(is_i8("tinyint(1)"));
    assert!(!is_i8("tinyint unsigned"));
    assert!(is_i16("smallint(6)"));
    assert!(is_u16("smallint(6) unsigned"));
    assert!(!is_u16("smallint(6)"));
    assert!(is_i32("int"));
    assert!(!is_i32("int unsigned"));
    assert!(is_u32("int unsigned"));
    assert!(!is_u32("unsigned"));
}

#[test]
fn type_names() {
    assert_eq!(to_rust_type("binary(16)", false), "uuid::Uuid");
    assert_eq!(to_rust_type("datetime", false), "chrono::NaiveDateTime");
    assert_eq!(to_rust_type("varchar(255)", false), "String");
    assert_eq!(to_rust_type("tinyint(1)", false), "bool");
    assert_eq!(to_rust_type("tinyint", false), "i8");
    assert_eq!(to_rust_type("tinyint unsigned", false), "u8");
    assert_eq!(to_rust_type("smallint", false), "i16");
    assert_eq!(to_rust_type("smallint unsigned", false), "u16");
    assert_eq!(to_rust_type("int", false), "i32");
    assert_eq!(to_rust_type("int unsigned", false), "u32");
}

#[test]
fn nullable_type_names_are_optional() {
    assert_eq!(to_rust_type("binary(16)", true), "Option<uuid::Uuid>");
    assert_eq!(to_rust_type("int unsigned", true), "Option<u32>");
    assert_eq!(to_rust_type("decimal(10,2)", true), "Option<decimal(10,2)>");
}

#[test]
fn unrecognized_type_passes_through() {
    assert_eq!(to_rust_type("decimal(10,2)", false), "decimal(10,2)");
    assert_eq!(to_rust_initialize("decimal(10,2)", false), "decimal(10,2)");
    assert_eq!(target_type_name(SemanticType::Unrecognized, "json", false), "json");
}

#[test]
fn initializers() {
    assert_eq!(to_rust_initialize("binary(16)", false), "uuid::Uuid::new_v4()");
    assert_eq!(to_rust_initialize("datetime", false), "chrono::Utc::now().naive_utc()");
    assert_eq!(to_rust_initialize("tinyint", false), "0");
    assert_eq!(to_rust_initialize("tinyint unsigned", false), "0");
    assert_eq!(to_rust_initialize("smallint", false), "0");
    assert_eq!(to_rust_initialize("smallint unsigned", false), "0");
    assert_eq!(to_rust_initialize("int", false), "0");
    assert_eq!(to_rust_initialize("int unsigned", false), "0");
    assert_eq!(to_rust_initialize("tinyint(1)", false), "0");
    assert_eq!(to_rust_initialize("varchar(255)", false), "varchar(255)");
}

#[test]
fn nullable_initializers_are_present_values() {
    assert_eq!(to_rust_initialize("binary(16)", true), "Some(uuid::Uuid::new_v4())");
    assert_eq!(to_rust_initialize("int", true), "Some(0)");
    assert_eq!(to_rust_initialize("point", true), "Some(point)");
    assert_eq!(default_value_expression(SemanticType::DateTime, "datetime", true), "Some(chrono::Utc::now().naive_utc())");
}

#[test]
fn repeat_gives_count_copies() {
    assert_eq!(repeat("?", 3), vec!["?".to_string(), "?".to_string(), "?".to_string()]);
    assert!(repeat("x", 0).is_empty());
}
