//! What the command line asks for, and what it prints.
pub mod board;
pub mod command;
pub mod laws;
pub mod request;
pub mod rows;
pub mod scrape;
pub mod dashboard;
