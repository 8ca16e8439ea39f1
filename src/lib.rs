//! Decision core of a coverage-guided mutation fuzzer: coverage bookkeeping,
//! input mutation, run classification, corpus upkeep and the session loop.

pub mod coverage;
pub mod mutate;
pub mod driver;
pub mod corpus;
pub mod evaluate;
pub mod engine;
