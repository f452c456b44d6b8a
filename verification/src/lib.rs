//! Core of a resumable batch file-conversion runner.
//!
//! A batch is a named set of jobs, one for each file found under a source
//! directory. Each job converts its file with the command that the rule of
//! the file's extension plans, and is settled once, as done or as failed. The
//! batch is stored between runs, so that a later run takes up only what is
//! still pending.
//!
//! The library holds the decisions: fingerprints of file contents, the walk
//! over a directory tree, the rule table, command planning, and the job
//! records with their status transitions. It touches neither the file system
//! nor any process. Its driver lists directories, reads files, runs commands
//! and stores the batch, and hands what it observed to the library:
//!
//! - [`scanner::TreeScan`] asks for one directory listing at a time and
//!   collects the regular files of the tree;
//! - [`batch_job::BatchJob::init`] makes the jobs from the files found;
//! - [`batch_job::BatchJob::run`] is one step of a run: it takes the event
//!   that answers the previous action and gives the next action.
//!
//! [`invariants`] states what every step of a run keeps and that a run
//! attempts every pending job; [`tree`] states what a scan finds of a tree.

pub mod batch_job;
pub mod engine;
pub mod fingerprint;
pub mod invariants;
pub mod paths;
pub mod planner;
pub mod rules;
pub mod scanner;
pub mod text;
pub mod tree;
