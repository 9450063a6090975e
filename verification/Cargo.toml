[package]
name = "dojo_torii"
version = "0.1.0"
edition = "2021"
publish = false

[dependencies]
# cairo-lang-defs and cairo-lang-syntax ask for their sibling crates with a
# caret, and a later sibling does not build with them. The lines for
# cairo-lang-debug, -diagnostics, -filesystem, -parser, -proc-macros,
# -syntax-codegen and -utils hold the siblings to the same release; no source
# names them.
anyhow = "=1.0.104"
cairo-lang-debug = "=2.4.0"
cairo-lang-defs = "=2.4.0"
cairo-lang-diagnostics = "=2.4.0"
cairo-lang-filesystem = "=2.4.0"
cairo-lang-parser = "=2.4.0"
cairo-lang-proc-macros = "=2.4.0"
cairo-lang-syntax = "=2.4.0"
cairo-lang-syntax-codegen = "=2.4.0"
cairo-lang-utils = "=2.4.0"
camino = "=1.2.6"
directories = "=5.0.1"
futures = "=0.3.34"
hex = "=0.4.3"
lazy_static = "=1.5.1"
semver = "=1.0.28"
serde_json = "=1.0.154"
smol_str = "=0.2.2"
sqlx = { version = "=0.7.4", default-features = false, features = ["sqlite", "runtime-tokio"] }
starknet = "=0.7.0"
starknet-crypto = "=0.6.2"
thiserror = "=1.0.69"
tokio = { version = "=1.54.1", features = ["sync", "rt"] }
tokio-stream = "=0.1.19"
tonic = { version = "=0.10.2", default-features = false, features = ["codegen"] }
