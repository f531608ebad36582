//! Teleological Developmental Graph: the decision logic of a self-structuring
//! memory graph for AI agents, with its contracts proved by Verus.
//!
//! Persistence, network and floating-point computation live around this
//! library; what stands here is the logic that decides: the circuit breaker
//! and write lock that guard writes, identifiers, size limits and query
//! statements of the store, the event journal and what replay does, the
//! configuration layout, the holonic typology, the epistemic validation
//! gates, the integrity audit and anomaly registry, graph hygiene, the
//! digestion cascade and node grammar, the edge contracts and emission walk
//! of the flow engine, path search and connectivity, context packs, the LLM
//! request bodies, reply parsing and fallback order, and output truncation.

pub mod archetypes;
pub mod audit;
pub mod circuit_breaker;
pub mod clustering;
mod clock;
pub mod config;
pub mod context;
pub mod digestion;
pub mod emission;
pub mod error;
pub mod flow;
pub mod grammar;
pub mod graph;
pub mod holon;
pub mod integrity;
pub mod journal;
pub mod json;
pub mod knowledge;
pub mod llm;
pub mod lock;
pub mod output;
pub mod retrieval;
pub mod search;
pub mod store;
pub mod text;
pub mod timestamp;
pub mod type_validation;
pub mod validation;
