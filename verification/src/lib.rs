//! Mutation-testing support: the arithmetic sample crates the mutation runner
//! is exercised on, and the verified logic of the runner itself.

pub mod integration_covered;
pub mod under_tested;
pub mod unit_first;
pub mod well_tested;
pub mod span;
pub mod text;
pub mod manifest;
pub mod listing;
pub mod shard;
pub mod sources;
pub mod replay;
pub mod mutant;
pub mod report;
pub mod expect;
pub mod path;
pub mod supervise;
