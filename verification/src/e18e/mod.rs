//! e18e rules.
pub mod rules;
pub mod dependencies;
pub mod ast;
pub mod source;
pub mod syntax;
pub mod shapes;
pub mod strings;
pub mod array_rules;
pub mod spread_rules;
pub mod call_rules;
pub mod operator_rules;
pub mod walk;
pub mod scanner;
pub mod scan;
pub mod laws;
pub mod oxc;
