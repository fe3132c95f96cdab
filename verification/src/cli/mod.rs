//! The command line: what a line asks for, and what each command does.

pub mod commands;
pub mod handler;
pub mod laws;
pub mod shell;
