//! A job orchestrator for generated source files: the status state machine,
//! the dependency scheduler, the response parsers, the edit engine and the
//! per-job workflow, each with its contract.

pub mod chars;
pub mod commands;
pub mod config;
pub mod dependency;
pub mod engine;
pub mod error;
pub mod error_type;
pub mod file_cache;
pub mod fix;
pub mod job;
pub mod jobs;
pub mod language;
pub mod parser;
pub mod prompts;
pub mod runner;
pub mod scaffold;
pub mod seqs;
pub mod status;
pub mod store;
pub mod stream;
pub mod templates;
pub mod text;
