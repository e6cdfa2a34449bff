//! Small building blocks shared by the crates of a GUI framework: logging and
//! unwrapping extensions for results and futures, deferred calls, fluent
//! builders, measurements, sanitized paths, and the rules of an HTTP client.

pub mod reqwest_client;
pub mod utils;
