[package]
name = "github_sync"
version = "0.1.0"
edition = "2021"
publish = false

[dependencies]
anyhow = "*"
getopts = "*"
git2 = { version = "*", default-features = false }
rayon = "*"
reqwest = { version = "*", default-features = false, features = ["blocking", "json"] }
serde = { version = "*", features = ["derive"] }
serde_json = "*"
slog = "*"
slog-term = "*"
toml = "*"
