//! Import X (Twitter) archives into DuckDB and search them.

pub mod archive;
pub mod cli;
pub mod import;
pub mod import_laws;
pub mod json;
pub mod mcp;
pub mod number;
pub mod output;
pub mod query;
pub mod search;
pub mod search_laws;
pub mod staging;
pub mod table;
pub mod text;
