[package]
name = "agent_board"
version = "0.1.0"
edition = "2021"
publish = false

[dependencies]
uuid = { version = "*", features = ["v4"] }
names = "*"
chrono = "*"
clap = { version = "*", features = ["derive"] }
colored = "*"
tabled = "*"
dirs = "*"
serde = { version = "*", features = ["derive"] }
serde_json = "*"
