//! Planning and sequencing for a project's fix-up tasks.
//!
//! The crate decides; its caller acts. It says which command line runs which
//! task, which steps a task is made of, what to ask for next given how the last
//! request went, and which files of a directory tree a formatter is handed.
//! Reading directories, changing directory and starting programs are left to
//! the caller, which reports back what happened.

pub mod paths;
pub mod walk;
pub mod tree;
pub mod fixup;
pub mod runner;
pub mod dispatch;
