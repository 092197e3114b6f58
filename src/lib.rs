//! Dependency-stack analysis: registry metadata in, severity-ranked findings out.

pub mod analyzer;
pub mod cli;
pub mod metadata;
pub mod parser;
pub mod pipeline;
pub mod report;
pub mod text;
