//! Checks over the submodules of a git repository: parsing `.gitmodules`,
//! comparing recorded commits with remote and local ones, and the status
//! lines the command-line tool prints for each submodule.
pub mod strings;
pub mod text;
mod git;
pub mod submodule;
pub mod commands;
