[package]
name = "modbus_tool"
version = "0.1.0"
edition = "2021"
publish = false

[dependencies]
anyhow = "1"
bytes = "1"
chrono = "0.4"
log = "0.4"
once_cell = "1"
parking_lot = "0.12"
serde = { version = "1", features = ["derive"] }
serialport = { version = "4", default-features = false }
thiserror = "1"
tokio = { version = "1", features = ["net", "time", "rt", "macros"] }
tracing = "0.1"
tracing-appender = "0.2"
tracing-subscriber = { version = "0.3", features = ["env-filter"] }
uuid = { version = "1", features = ["v4"] }
