//! Turns relational schema metadata into a normalized table model and derives
//! the parameterized SQL text and target-language type names for each table.

pub mod text;
pub mod filters;
pub mod sql;
pub mod error;
pub mod table;
pub mod information_schema;
pub mod cli;
