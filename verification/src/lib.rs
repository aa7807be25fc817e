//! Flowbit's decision logic.
pub mod classes;
pub mod functions;
pub mod json;
pub mod laws;
pub mod numbers;
pub mod paths;
pub mod platform;
pub mod text;
