// A structural codebase scanner: per-file symbol extraction with heuristic
// per-language patterns, a write-once dependency graph of containment and
// cross-file import edges, and exact summary tables.  File walking, service
// calls and document rendering live outside this crate's verified core.

pub mod analyzer;
pub mod config;
pub mod dependency_graph;
pub mod file_discovery;
pub mod llm;
pub mod patterns;
pub mod regexes;
pub mod reporter;
pub mod simple_parser;
pub mod strutil;
