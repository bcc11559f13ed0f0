[package]
name = "gh_pr_lander"
version = "0.1.0"
edition = "2021"
publish = false

[dependencies]
regex = "*"
chrono = "*"
serde = { version = "*", features = ["derive"] }
toml = "*"
dotenvy = "*"
