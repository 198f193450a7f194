[package]
name = "oxc_ex_nif"
version = "0.1.0"
edition = "2021"
publish = false

[dependencies]
oxc_allocator = "=0.120.0"
oxc_ast = { version = "=0.120.0", features = ["serialize"] }
oxc_codegen = "=0.120.0"
oxc_minifier = "=0.120.0"
oxc_parser = "=0.120.0"
# rolldown resolves modules with it, and does not build with later versions
oxc_resolver = "=11.19.1"
oxc_semantic = "=0.120.0"
oxc_sourcemap = "=6.1.1"
oxc_span = "=0.120.0"
oxc_transformer = "=0.120.0"
rayon = "=1.12.0"
rolldown = "=0.1.1"
rolldown_common = "=0.1.1"
rustler = { version = "=0.37.4", features = ["serde"] }
serde = { version = "=1.0.229", features = ["derive"] }
serde_json = "=1.0.154"
tempfile = "=3.27.0"
tokio = { version = "=1.54.1", features = ["full"] }
