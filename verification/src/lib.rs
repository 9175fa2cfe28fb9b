//! Core of `ggit`: parsing of `git status` output, the decisions behind
//! scanning, pulling and registry maintenance, and the rows of the tables
//! that the command line prints.

pub mod text;
pub mod db;
pub mod status;
pub mod scan;
pub mod output;
pub mod paths;
pub mod git;
pub mod cli;
pub mod error;
pub mod commands;
