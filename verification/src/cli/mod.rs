//! The logic of the `krabka` operator CLI.

pub mod admin;
pub mod connection;
pub mod output;
pub mod process;
pub mod property_map;
pub mod report;
