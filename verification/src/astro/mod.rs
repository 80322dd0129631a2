//! Astro rules.
pub mod rules;
pub mod lexical;
pub mod tags;
pub mod template;
pub mod source;
pub mod report;
pub mod scan;
pub mod laws;
