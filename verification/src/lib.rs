//! Running benchmarks on a remote machine, one at a time.
//!
//! The library holds what is decided: the queue of jobs and its order, the
//! steps of running one job, how the end of a job is told from its log or
//! from the remote status table, and the commands that are sent. Connections,
//! files and the database are the business of the program around it.

pub mod catalog;
pub mod clock;
pub mod commands;
pub mod config;
pub mod db;
pub mod job;
pub mod lines;
pub mod numbers;
pub mod ordering;
pub mod paths;
pub mod project;
pub mod protocol;
pub mod python_deps;
pub mod queue_laws;
pub mod queue_order;
pub mod queue_service;
pub mod queue_spec;
pub mod server_db;
pub mod ssh;
pub mod state;
pub mod text;
pub mod wrapper;
