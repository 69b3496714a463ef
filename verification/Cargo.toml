[package]
name = "sql_report"
version = "0.1.0"
edition = "2021"
publish = false

[dependencies]
async-std = { version = "=1.13.2", features = ["attributes"] }
chromiumoxide = "0.7"
clap = { version = "=4.6.7", features = ["derive"] }
futures = "=0.3.34"
genpdf = { version = "=0.2.0", features = ["images"] }
rusqlite = { version = "=0.40.2", features = ["bundled"] }
serde = { version = "=1.0.229", features = ["derive"] }
sqlformat = "=0.2.6"
tera = "=1.20.1"
