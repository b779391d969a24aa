[package]
name = "dicemaiden_rs"
version = "0.1.0"
edition = "2021"
publish = false

[dependencies]
rand = "*"
getrandom = "*"
anyhow = "*"
dotenv = "*"
tokio = { version = "*", features = ["macros", "rt-multi-thread", "signal", "time", "sync"] }
tracing = "*"
tracing-subscriber = "*"
serenity = "*"
sysinfo = "*"
sqlx = { version = "*", default-features = false, features = ["sqlite", "runtime-tokio"] }
