//! Verified core of the sqlite-graphrag enrichment and research commands.
use vstd::prelude::*;

pub mod backlog;
pub mod backoff;
pub mod body_enrich;
pub mod cleanup;
pub mod codex;
pub mod codex_events;
pub mod config;
pub mod decompose;
pub mod description;
pub mod drain;
pub mod entity_type;
pub mod evidence_path;
pub mod errors;
pub mod graph_ops;
pub mod json;
pub mod memory_ops;
pub mod operations;
pub mod predicates;
pub mod prompts;
pub mod queue;
pub mod queue_rows;
pub mod research;
pub mod text;
pub mod type_policy;
pub mod type_validation;

verus! {
} // verus!
