//! A verified match engine for two-player Schnapsen: card rules, trick
//! resolution, scoring, an event journal, and the decision logic of the
//! per-match orchestrator.

pub mod cards;
pub mod engine;
pub mod errors;
pub mod event_chain;
pub mod events;
pub mod ext;
pub mod games;
pub mod journal;
pub mod models;
pub mod orchestrator;
pub mod performer;
pub mod player;
pub mod translator;
