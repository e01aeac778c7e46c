[package]
name = "lint_rules"
version = "0.1.0"
edition = "2021"
publish = false

[dependencies]
oxc_allocator = "=0.15.0"
oxc_ast = "=0.15.0"
oxc_cfg = "=0.15.0"
oxc_codegen = "=0.15.0"
oxc_diagnostics = "=0.15.0"
oxc_semantic = "=0.15.0"
oxc_span = "=0.15.0"
rustc-hash = "=1.1.0"
serde_json = "=1.0.154"

[dev-dependencies]
oxc_parser = "=0.15.0"
