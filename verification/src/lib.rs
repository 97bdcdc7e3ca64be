//! Analysis core of a code ingestion worker: language parsers, symbol
//! resolution, dependency graph construction, the auxiliary analyzers and
//! the write plan for the graph store, each with a machine-checked
//! contract.
//!
//! The library reads no file and talks to no service. Whoever runs a job
//! reads the repository and hands its texts in; the library returns the
//! graph and the ordered statements that store it, and says how the
//! transaction that runs them goes.

pub mod text;
pub mod views;
pub mod name_map;
pub mod patterns;
pub mod json;
pub mod syntax;
pub mod parsers;
pub mod symbol_table;
pub mod graph_builder;
pub mod graph_laws;
pub mod git_analyzer;
pub mod boundary_detector;
pub mod dependency_metadata;
pub mod manifests;
pub mod communication_detector;
pub mod neo4j_storage;
pub mod storage_nodes;
pub mod storage_edges;
pub mod storage_laws;
pub mod transaction;
pub mod pipeline;
