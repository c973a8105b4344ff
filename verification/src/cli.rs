//! The decisions behind the command-line commands: which model a command
//! edits, what is created when it is missing, and the checks that span models.
//! Reading and writing the model file, and printing, are left to the caller.

pub mod args;
pub mod report;
pub mod listing;
pub mod commands;
