[package]
name = "esfuse"
version = "0.1.0"
edition = "2021"
publish = false

[dependencies]
arca = "=0.15.0"
base64 = "=0.22.1"
fancy-regex = "=0.20.0"
hex = "=0.4.3"
lightningcss = { version = "1.0.0-alpha.40", default-features = false }
markdown = "*"
mdxjs = "*"
napi = { version = "*", default-features = false, features = ["napi4", "async", "serde-json"] }
napi-derive = "*"
parcel-resolver = "=0.1.1"
parcel_sourcemap = { version = "=2.1.1", features = ["json"] }
pnp = "=0.12.12"
serde = { version = "=1.0.229", features = ["derive"] }
serde_json = "=1.0.154"
serde_yaml = "=0.9.34"
sha1 = "=0.10.7"
swc = "*"
swc_common = "*"
swc_core = { version = "*", features = ["ecma_ast", "ecma_visit", "ecma_utils", "ecma_quote", "common"] }
thiserror = "=1.0.69"
tokio = { version = "=1.54.1", features = ["rt-multi-thread", "macros", "sync"] }
urlencoding = "=2.1.3"
