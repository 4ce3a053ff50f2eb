//! Pipeline-execution and job-control engine for a small command-line shell.
//!
//! The library holds the logic of the shell: splitting an input line into
//! pipeline stages and redirections, deciding how each stage's standard
//! streams and process group are wired, and tracking the lifecycle of
//! foreground, background, and stopped jobs.  Process creation, signals and
//! terminal control themselves are left to the program around the library.

pub mod bytes;
pub mod control;
pub mod parse;
pub mod jobs;
pub mod plan;
