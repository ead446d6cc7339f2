//! Naming rules for file and directory names, with their specifications.
pub mod text;
pub mod path;
pub mod rules;
pub mod namefix;
pub mod lint;
pub mod process_dirs;
pub mod collect_cli_dirs;
