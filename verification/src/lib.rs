//! Verified core of the Krabka operator tools: the admin UI's sessions,
//! routes, page rendering and request gating, and the CLI's connection
//! configuration parsing and command checks.

pub mod text;
pub mod permissions;
pub mod session;
pub mod auth;
pub mod dto;
pub mod error;
pub mod views;
pub mod server;
pub mod cli;
