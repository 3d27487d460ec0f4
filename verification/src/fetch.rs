//! HTTP requests: what is sent, what comes back, and when to go on.
pub mod blocklist;
pub mod client;
pub mod cookies;
pub mod decode;
pub mod headers;
pub mod jar;
pub mod laws;
pub mod steps;
