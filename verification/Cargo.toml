[package]
name = "shelly"
version = "0.1.0"
edition = "2021"
publish = false

[dependencies]
uuid = { version = "1", features = ["v4"] }
serde_json = "1"
serde = { version = "1", features = ["derive"] }
tokio = { version = "1", features = ["full"] }
anyhow = "1"
clap = { version = "4", features = ["derive"] }
dirs = "*"
toml = "*"
shell-words = "1"
deno_core = "*"
deno_ast = { version = "*", features = ["transpiling"] }
