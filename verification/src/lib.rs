//! Verified core of a process toolkit: identifiers, command building,
//! output handling, signal bookkeeping, process registries and trees.

pub mod signal;
pub mod text;
pub mod id;
pub mod error;
pub mod output;
pub mod stream;
pub mod tree;
pub mod shell;
pub mod command;
pub mod cache_key;
pub mod registry_types;
pub mod output_cache;
pub mod lifecycle;
pub mod shutdown;
pub mod children;
pub mod system_macro;
pub mod spawn;
pub mod prelog;
pub mod blocking_capture;
pub mod capture_pipes;
pub mod exec_flow;
pub mod child_signals;
pub mod prepared;
pub mod supervision;
pub mod derive_plans;
pub mod macro_syntax;
pub mod cached_runs;
pub mod job_threads;
