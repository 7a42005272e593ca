//! Keeps a target directory in step with a package directory through a farm of
//! symbolic links.
//!
//! The library holds the decisions: which links a package implies, what each
//! link needs given what is found on disk and in the store of managed paths,
//! which stale entries to retire. It never touches the disk itself. A caller
//! looks at the disk, hands the library what it saw as plain values, carries
//! out the operations the library answers with and reports how they went.

pub mod cli;
pub mod command;
pub mod config;
pub mod fs;
pub mod link;
pub mod model;
pub mod options;
pub mod paths;
pub mod plan;
pub mod plans;
pub mod process;
pub mod store;
pub mod zombies;
