//! Angular ESLint rules.
pub mod rules;
pub mod scan;
pub mod metadata;
