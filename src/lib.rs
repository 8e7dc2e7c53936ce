//! Streaming conversion of map-feature XML records into grouped SQL insert
//! statements, one output per table.

pub mod argument;
pub mod dispatcher;
pub mod error;
pub mod interner;
pub mod models;
pub mod number;
pub mod pipeline;
pub mod schema;
pub mod sql_file;
pub mod text;
pub mod value;
