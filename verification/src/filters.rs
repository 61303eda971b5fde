//! The type mapper: from a raw column type to the name of the type that holds
//! it in generated code, and to an expression that initializes such a value.

use vstd::prelude::*;
use vstd::string::*;
use convert_case::{Case, Casing};
use crate::text::{str_eq, starts_with, ends_with};

verus! {

/// What a raw column type stands for.
#[derive(Clone, Copy, Debug, PartialEq, Eq, Structural)]
pub enum SemanticType {
    Uuid,
    DateTime,
    Text,
    Bool,
    Int8,
    UInt8,
    Int16,
    UInt16,
    Int32,
    UInt32,
    /// No rule covers the raw type; it is passed through as it is.
    Unrecognized,
}

pub open spec fn spec_is_uuid(value: Seq<char>) -> bool {
    value == "binary(16)"@
}

pub open spec fn spec_is_datetime(value: Seq<char>) -> bool {
    value == "datetime"@
}

pub open spec fn spec_is_string(value: Seq<char>) -> bool {
    "varchar"@.is_prefix_of(value) || "char"@.is_prefix_of(value) || "text"@.is_prefix_of(value)
}

pub open spec fn spec_is_bool(value: Seq<char>) -> bool {
    "tinyint(1)"@.is_prefix_of(value)
}

pub open spec fn spec_is_unsigned(value: Seq<char>) -> bool {
    "unsigned"@.is_suffix_of(value)
}

pub open spec fn spec_is_i8(value: Seq<char>) -> bool {
    "tinyint"@.is_prefix_of(value) && !spec_is_unsigned(value)
}

pub open spec fn spec_is_u8(value: Seq<char>) -> bool {
    "tinyint"@.is_prefix_of(value) && spec_is_unsigned(value)
}

pub open spec fn spec_is_i16(value: Seq<char>) -> bool {
    "smallint"@.is_prefix_of(value) && !spec_is_unsigned(value)
}

pub open spec fn spec_is_u16(value: Seq<char>) -> bool {
    "smallint"@.is_prefix_of(value) && spec_is_unsigned(value)
}

pub open spec fn spec_is_i32(value: Seq<char>) -> bool {
    "int"@.is_prefix_of(value) && !spec_is_unsigned(value)
}

pub open spec fn spec_is_u32(value: Seq<char>) -> bool {
    "int"@.is_prefix_of(value) && spec_is_unsigned(value)
}

/// The classification rules in their order of precedence: the first rule that
/// matches decides.
pub open spec fn spec_classify(value: Seq<char>) -> SemanticType {
    if spec_is_uuid(value) {
        SemanticType::Uuid
    } else if spec_is_datetime(value) {
        SemanticType::DateTime
    } else if spec_is_string(value) {
        SemanticType::Text
    } else if spec_is_bool(value) {
        SemanticType::Bool
    } else if spec_is_i8(value) {
        SemanticType::Int8
    } else if spec_is_u8(value) {
        SemanticType::UInt8
    } else if spec_is_i16(value) {
        SemanticType::Int16
    } else if spec_is_u16(value) {
        SemanticType::UInt16
    } else if spec_is_i32(value) {
        SemanticType::Int32
    } else if spec_is_u32(value) {
        SemanticType::UInt32
    } else {
        SemanticType::Unrecognized
    }
}

/// The name of the type that holds a non-null value of the column.
pub open spec fn spec_base_type_name(kind: SemanticType, raw: Seq<char>) -> Seq<char> {
    match kind {
        SemanticType::Uuid => "uuid::Uuid"@,
        SemanticType::DateTime => "chrono::NaiveDateTime"@,
        SemanticType::Text => "String"@,
        SemanticType::Bool => "bool"@,
        SemanticType::Int8 => "i8"@,
        SemanticType::UInt8 => "u8"@,
        SemanticType::Int16 => "i16"@,
        SemanticType::UInt16 => "u16"@,
        SemanticType::Int32 => "i32"@,
        SemanticType::UInt32 => "u32"@,
        SemanticType::Unrecognized => raw,
    }
}

/// The type name of a column: the base name, inside `Option<..>` when the
/// column is nullable.
pub open spec fn spec_target_type_name(
    kind: SemanticType,
    raw: Seq<char>,
    is_nullable: bool,
) -> Seq<char> {
    if is_nullable {
        "Option<"@ + spec_base_type_name(kind, raw) + ">"@
    } else {
        spec_base_type_name(kind, raw)
    }
}

/// The expression that makes a present value of the column's type: a fresh
/// random UUID, the current UTC time, zero for every integer kind (a
/// `tinyint(1)` is an integer here), and the raw type itself for text and for
/// what no rule covers.
pub open spec fn spec_base_initializer(kind: SemanticType, raw: Seq<char>) -> Seq<char> {
    match kind {
        SemanticType::Uuid => "uuid::Uuid::new_v4()"@,
        SemanticType::DateTime => "chrono::Utc::now().naive_utc()"@,
        SemanticType::Text => raw,
        SemanticType::Unrecognized => raw,
        _ => "0"@,
    }
}

/// The initializer of a column: the base expression, inside `Some(..)` when
/// the column is nullable.
pub open spec fn spec_default_value_expression(
    kind: SemanticType,
    raw: Seq<char>,
    is_nullable: bool,
) -> Seq<char> {
    if is_nullable {
        "Some("@ + spec_base_initializer(kind, raw) + ")"@
    } else {
        spec_base_initializer(kind, raw)
    }
}

pub fn is_uuid(value: &str) -> (r: bool)
    ensures
        r == spec_is_uuid(value@),
{
    str_eq(value, "binary(16)")
}

pub fn is_datetime(value: &str) -> (r: bool)
    ensures
        r == spec_is_datetime(value@),
{
    str_eq(value, "datetime")
}

pub fn is_string(value: &str) -> (r: bool)
    ensures
        r == spec_is_string(value@),
{
    starts_with(value, "varchar") || starts_with(value, "char") || starts_with(value, "text")
}

pub fn is_bool(value: &str) -> (r: bool)
    ensures
        r == spec_is_bool(value@),
{
    starts_with(value, "tinyint(1)")
}

pub fn is_i8(value: &str) -> (r: bool)
    ensures
        r == spec_is_i8(value@),
{
    starts_with(value, "tinyint") && !ends_with(value, "unsigned")
}

pub fn is_u8(value: &str) -> (r: bool)
    ensures
        r == spec_is_u8(value@),
{
    starts_with(value, "tinyint") && ends_with(value, "unsigned")
}

pub fn is_i16(value: &str) -> (r: bool)
    ensures
        r == spec_is_i16(value@),
{
    starts_with(value, "smallint") && !ends_with(value, "unsigned")
}

pub fn is_u16(value: &str) -> (r: bool)
    ensures
        r == spec_is_u16(value@),
{
    starts_with(value, "smallint") && ends_with(value, "unsigned")
}

pub fn is_i32(value: &str) -> (r: bool)
    ensures
        r == spec_is_i32(value@),
{
    starts_with(value, "int") && !ends_with(value, "unsigned")
}

pub fn is_u32(value: &str) -> (r: bool)
    ensures
        r == spec_is_u32(value@),
{
    starts_with(value, "int") && ends_with(value, "unsigned")
}

/// Classifies a raw column type.
pub fn classify(value: &str) -> (r: SemanticType)
    ensures
        r == spec_classify(value@),
{
    if is_uuid(value) {
        SemanticType::Uuid
    } else if is_datetime(value) {
        SemanticType::DateTime
    } else if is_string(value) {
        SemanticType::Text
    } else if is_bool(value) {
        SemanticType::Bool
    } else if is_i8(value) {
        SemanticType::Int8
    } else if is_u8(value) {
        SemanticType::UInt8
    } else if is_i16(value) {
        SemanticType::Int16
    } else if is_u16(value) {
        SemanticType::UInt16
    } else if is_i32(value) {
        SemanticType::Int32
    } else if is_u32(value) {
        SemanticType::UInt32
    } else {
        SemanticType::Unrecognized
    }
}

/// Puts `inner` between `open` and `close`.
fn wrapped(open: &str, inner: String, close: &str) -> (r: String)
    ensures
        r@ == open@ + inner@ + close@,
{
    let mut out = String::from_str(open);
    out.append(inner.as_str());
    out.append(close);
    out
}

/// Renders the type name of a column of kind `kind` whose raw type is `raw`.
pub fn target_type_name(kind: SemanticType, raw: &str, is_nullable: bool) -> (r: String)
    ensures
        r@ == spec_target_type_name(kind, raw@, is_nullable),
{
    let base = match kind {
        SemanticType::Uuid => String::from_str("uuid::Uuid"),
        SemanticType::DateTime => String::from_str("chrono::NaiveDateTime"),
        SemanticType::Text => String::from_str("String"),
        SemanticType::Bool => String::from_str("bool"),
        SemanticType::Int8 => String::from_str("i8"),
        SemanticType::UInt8 => String::from_str("u8"),
        SemanticType::Int16 => String::from_str("i16"),
        SemanticType::UInt16 => String::from_str("u16"),
        SemanticType::Int32 => String::from_str("i32"),
        SemanticType::UInt32 => String::from_str("u32"),
        SemanticType::Unrecognized => String::from_str(raw),
    };
    if is_nullable {
        wrapped("Option<", base, ">")
    } else {
        base
    }
}

/// Renders the initializer of a column of kind `kind` whose raw type is `raw`.
pub fn default_value_expression(kind: SemanticType, raw: &str, is_nullable: bool) -> (r: String)
    ensures
        r@ == spec_default_value_expression(kind, raw@, is_nullable),
{
    let base = match kind {
        SemanticType::Uuid => String::from_str("uuid::Uuid::new_v4()"),
        SemanticType::DateTime => String::from_str("chrono::Utc::now().naive_utc()"),
        SemanticType::Text => String::from_str(raw),
        SemanticType::Unrecognized => String::from_str(raw),
        _ => String::from_str("0"),
    };
    if is_nullable {
        wrapped("Some(", base, ")")
    } else {
        base
    }
}

/// The type name for a raw column type.
pub fn to_rust_type(value: &str, is_nullable: bool) -> (r: String)
    ensures
        r@ == spec_target_type_name(spec_classify(value@), value@, is_nullable),
{
    target_type_name(classify(value), value, is_nullable)
}

/// The initializer for a raw column type.
pub fn to_rust_initialize(value: &str, is_nullable: bool) -> (r: String)
    ensures
        r@ == spec_default_value_expression(spec_classify(value@), value@, is_nullable),
{
    default_value_expression(classify(value), value, is_nullable)
}

/// `count` copies of `value`.
pub fn repeat(value: &str, count: usize) -> (r: Vec<String>)
    ensures
        r@.len() == count,
        forall|i: int| 0 <= i < count ==> (#[trigger] r@[i])@ == value@,
{
    let mut out: Vec<String> = Vec::new();
    let mut i: usize = 0;
    while i < count
        invariant
            i <= count,
            out@.len() == i,
            forall|k: int| 0 <= k < i ==> (#[trigger] out@[k])@ == value@,
        decreases count - i,
    {
        out.push(String::from_str(value));
        i += 1;
    }
    out
}

/// What `convert_case` makes of a text in upper camel case.
pub uninterp spec fn upper_camel_case_of(value: Seq<char>) -> Seq<char>;

/// What `convert_case` makes of a text in snake case.
pub uninterp spec fn snake_case_of(value: Seq<char>) -> Seq<char>;

/// `Casing::to_case` with `Case::UpperCamel`: the result is determined by
/// the text alone.
#[verifier::external_body]
fn to_upper_camel_case(value: &str) -> (r: String)
    ensures
        r@ == upper_camel_case_of(value@),
{
    value.to_case(Case::UpperCamel)
}

/// `Casing::to_case` with `Case::Snake`: the result is determined by the
/// text alone.
#[verifier::external_body]
fn to_snake_case(value: &str) -> (r: String)
    ensures
        r@ == snake_case_of(value@),
{
    value.to_case(Case::Snake)
}

/// The text in upper camel case, as a type name is written.
pub fn as_upper_camel_case(value: &str) -> (r: String)
    ensures
        r@ == upper_camel_case_of(value@),
{
    to_upper_camel_case(value)
}

/// The text in snake case, as a field or module name is written.
pub fn as_snake_case(value: &str) -> (r: String)
    ensures
        r@ == snake_case_of(value@),
{
    to_snake_case(value)
}

/// What a filter says when it is used without an argument that it needs.
pub open spec fn spec_missing_argument(filter: Seq<char>, argument: Seq<char>) -> Seq<char> {
    "Filter `"@ + filter + "` expected an arg called `"@ + argument + "`"@
}

/// The complaint of filter `filter` about its missing argument `argument`.
pub fn missing_argument(filter: &str, argument: &str) -> (r: String)
    ensures
        r@ == spec_missing_argument(filter@, argument@),
{
    let mut out = String::from_str("Filter `");
    out.append(filter);
    out.append("` expected an arg called `");
    out.append(argument);
    out.append("`");
    out
}

} // verus!
