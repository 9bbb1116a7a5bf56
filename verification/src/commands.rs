//! The built-in shell commands. Each command owns the decision and
//! rendering logic of its namesake; the printing, sleeping and shell
//! plumbing around them live with the embedding front-end.

pub mod env;
pub mod exit;
pub mod get;
pub mod help;
pub mod set;
pub mod sleep;
pub mod task;
pub mod unset;
