//! Mail merge: one personalised message per recipient of a table.

pub mod config;
pub mod driver;
pub mod message;
pub mod render;
pub mod table;
pub mod text;
