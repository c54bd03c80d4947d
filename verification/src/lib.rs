//! Generates Rust row types for ClickHouse tables: a struct with a field per
//! column, enum types for enum columns, and serde helper modules for columns
//! read as optional through a sentinel value.
use vstd::prelude::*;

pub mod case;
pub mod codegen;
pub mod laws;
pub mod options;
pub mod parse;
pub mod order;
pub mod schema;
pub mod sort;
pub mod text;

pub use codegen::{generate, generate_with_names, ColumnNames, GenerateError};
pub use options::{Options, OptionError, Override, Temporal, Type};
pub use schema::{Column, SqlType, Table};

verus! {

} // verus!
