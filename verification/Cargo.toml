[package]
name = "oxlint_plugins"
version = "0.1.0"
edition = "2021"
publish = false

[dependencies]
regex = "=1.13.1"
smallvec = "=1.16.4"
compact_str = "=0.10.0"
oxc_allocator = "=0.143.0"
oxc_parser = "=0.143.0"
oxc_span = "=0.143.0"
oxc_ast = "=0.143.0"
oxc_ast_visit = "=0.143.0"
oxc_semantic = "=0.143.0"
unicode-normalization = "=0.1.26"
