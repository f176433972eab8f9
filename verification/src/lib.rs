//! Sessions of sandboxed code execution: the registry that maps users to
//! live sandboxes, the plan by which a sandbox is started, the line protocol
//! that is spoken with it, and the staging of the code that it runs.
//!
//! The library decides and computes; it touches neither files nor processes.
//! Whoever drives it performs the actions that it asks for and reports how
//! they ended.

pub mod cli;
pub mod control;
pub mod error;
pub mod flow;
pub mod launch;
pub mod protocol;
pub mod registry;
pub mod service;
pub mod store;
pub mod text;
