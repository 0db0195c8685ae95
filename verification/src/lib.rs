//! Grammatical evolution: grammar-driven mapping from integer genomes to
//! symbolic phenotypes, boolean expression evaluation, and the evolutionary
//! operators and generational loop built on top of them.

pub mod boolean_eval;
pub mod evolutionary_ops;
pub mod genome;
pub mod grammar;
pub mod population_mgmt;
pub mod rng;
