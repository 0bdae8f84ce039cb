[package]
name = "kg_extract"
version = "0.1.0"
edition = "2021"
publish = false

[dependencies]
anyhow = "1"
async-trait = "0.1"
chonkie = "0.1.1"
clap = { version = "4", features = ["derive"] }
futures = "0.3"
llms = "0.1.1"
md5 = "0.7.0"
regex = "1"
rmcp = { version = "1.8.0", features = ["server", "macros", "transport-io"] }
schemars = "1"
serde = { version = "1", features = ["derive"] }
serde_json = "1"
tokio = { version = "1", features = ["full"] }

[dev-dependencies]
nanoid = "0.4"
