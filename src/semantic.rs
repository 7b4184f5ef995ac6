//! Semantic analysis: scopes, name resolution and type checking.
pub mod analyzer;
pub mod rules;
pub mod scope;
