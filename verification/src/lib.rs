//! An embeddable interactive shell toolkit, built around a named concurrent
//! task pool: shell commands launch background work under a human-chosen
//! name, query it, cancel it, and block on its completion.

pub mod commands;
pub mod environment;
pub mod error;
pub mod host;
pub mod readline;
pub mod table;
pub mod taskpool;
