[package]
name = "stylex_swc_plugin"
version = "0.1.0"
edition = "2021"
publish = false

[dependencies]
indexmap = "=2.14.2"
murmur2 = "=0.1.0"
node-resolve = "=2.2.0"
radix_fmt = "=1.0.0"
serde = { version = "=1.0.229", features = ["derive"] }
swc_core = { version = "=82.2.0", features = ["common", "ecma_ast", "ecma_visit"] }
swc_ecma_ast = "=29.0.2"
