[package]
name = "lab_task"
version = "0.1.0"
edition = "2021"
publish = false

[dependencies]
chrono = "0.4"
regex = "1"
quick-xml = "0.37"
clap = { version = "4", features = ["derive"] }
cli-table = "0.4"
dialoguer = { version = "0.11", features = ["fuzzy-select"] }
zbus = { version = "5", default-features = false, features = ["tokio"] }
tokio = { version = "1", features = ["macros", "rt-multi-thread"] }
anyhow = "1"
serde = { version = "1", features = ["derive"] }
thiserror = "2"
which = "7"
