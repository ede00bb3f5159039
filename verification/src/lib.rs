//! Recording of workload patterns: option handling, naming of result
//! columns, decoding of job messages and of server replies, and the text of
//! the SQL statements that store the records.

pub mod error;
pub mod text;
pub mod address;
pub mod options;
pub mod arguments;
pub mod support;
pub mod worker;
pub mod command;
pub mod server;
pub mod system;
pub mod database;
pub mod experiment;
pub mod jobs;
