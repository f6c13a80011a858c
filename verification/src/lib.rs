//! Verified core of a small functions-as-a-service gateway: routing of
//! invocations, the deploy and invoke workflows, and their error replies.
pub mod text;
pub mod reply;
pub mod records;
pub mod containers;
pub mod invoke;
pub mod deploy;
pub mod binaries;
pub mod config;
pub mod demo;
pub mod cli;
