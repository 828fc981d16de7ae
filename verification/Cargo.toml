[package]
name = "class_bot"
version = "0.1.0"
edition = "2021"
publish = false

[dependencies]
chrono = "=0.4.45"
serde = { version = "=1.0.229", features = ["derive"] }
teloxide = { version = "=0.12.2", default-features = false, features = ["ctrlc_handler", "rustls"] }
takecell = "=0.1.1"
sqlx = { version = "=0.7.4", default-features = false, features = ["runtime-tokio", "postgres", "chrono"] }
reqwest = { version = "=0.11.27", default-features = false, features = ["json", "rustls-tls"] }
tokio = { version = "=1.54.1", features = ["macros", "rt-multi-thread", "time", "sync"] }
eyre = "=0.6.14"
dotenv = "=0.15.0"
lazy_static = "=1.5.1"
log = "=0.4.35"
log4rs = { version = "=1.4.0", default-features = false, features = ["console_appender", "file_appender", "pattern_encoder"] }
dptree = "=0.3.0"
