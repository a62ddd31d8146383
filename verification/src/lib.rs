//! Detection core for Broken Object Level Authorization (BOLA/IDOR) probes
//! against HTTP APIs: a parameter risk classifier, an identifier mutator,
//! and a verdict engine that inspects responses for leaked victim data.

pub mod classifier;
pub mod json;
pub mod jwt;
pub mod models;
pub mod mutator;
pub mod response_analysis;
pub mod scanner;
pub mod text;
pub mod verdict;
