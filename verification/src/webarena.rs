//! Tasks for an agent, and how its runs are scored.
pub mod judge;
pub mod laws;
pub mod task;
pub mod trajectory;
pub mod urlmap;
pub mod config;
pub mod tools;
pub mod llm;
pub mod agent;
pub mod summary;
