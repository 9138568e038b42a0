[package]
name = "token_auth"
version = "0.1.0"
edition = "2021"
publish = false

[dependencies]
serde = { version = "1", features = ["derive"] }
thiserror = "1"
warp = "0.3"
tokio = { version = "1", features = ["macros", "rt-multi-thread"] }
