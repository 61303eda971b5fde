[package]
name = "schemagen"
version = "0.1.0"
edition = "2021"
publish = false

[dependencies]
anyhow = "1"
clap = { version = "4", features = ["derive"] }
convert_case = "*"
dotenvy = "*"
serde = { version = "1", features = ["derive"] }
serde_json = "1"
serde_yaml = "*"
sql-builder = "3"
sqlx = { version = "*", default-features = false, features = ["mysql", "runtime-tokio", "derive"] }
tera = "1"
tokio = { version = "1", features = ["macros", "rt-multi-thread"] }
tracing = "*"
tracing-subscriber = { version = "*", features = ["env-filter"] }
