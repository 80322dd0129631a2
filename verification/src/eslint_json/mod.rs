//! JSON rules.
pub mod rules;
pub mod options;
pub mod numbers;
pub mod utf16;
pub mod natural;
pub mod sort;
pub mod facts;
pub mod checks;
pub mod values;
pub mod sort_keys;
pub mod parser;
pub mod reading;
pub mod scan;
pub mod laws;
