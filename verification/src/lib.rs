use vstd::prelude::*;

pub mod text;
pub mod lines;
pub mod outside;
pub mod oxc_nodes;
pub mod comments;
pub mod duration;
pub mod profiler;
pub mod angular;
pub mod astro;
pub mod cypress;
pub mod e18e;
pub mod eslint_json;
