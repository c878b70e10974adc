[package]
name = "raknet"
version = "0.1.0"
edition = "2021"
publish = false

[dependencies]
bevy_app = { version = "*", default-features = false, features = ["std"] }
bevy_ecs = { version = "*", default-features = false, features = ["std"] }
facet = "*"
serde = { version = "1", features = ["derive"] }
tokio = { version = "1", features = ["macros", "net", "rt", "sync", "time"] }
tracing = "0.1"
