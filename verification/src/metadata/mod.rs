//! Metadata resolution and album aggregation.

pub mod catalog;
pub mod cover;
pub mod paths;
pub mod resolver;
pub mod scanner;
