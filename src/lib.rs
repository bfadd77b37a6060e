//! Dumps database tables as a replayable SQL script: for each table its DDL,
//! repaired where statements lack their terminator, then one `INSERT` per
//! row with each value written as a literal of its column's type.
pub mod config;
pub mod ddl;
pub mod hex;
pub mod script;
pub mod text;
pub mod value;
