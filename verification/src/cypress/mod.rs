//! Cypress rules.
pub mod rules;
pub mod ast;
pub mod contains;
pub mod calls;
pub mod checks;
pub mod scanner;
pub mod scan;
pub mod walk;
pub mod oxc;
pub mod laws;
