[package]
name = "dhbw_roomfinder"
version = "0.1.0"
edition = "2021"
publish = false

[dependencies]
chrono = { version = "0.4", features = ["serde"] }
clap = { version = "4", features = ["derive"] }
icalendar = "0.16"
rayon = "1"
reqwest = "0.12"
serde = { version = "1", features = ["derive"] }
serde_json = "1"
terminal_size = "0.4"
tokio = { version = "1", features = ["macros", "rt-multi-thread", "time"] }
