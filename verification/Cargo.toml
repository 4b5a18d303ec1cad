[package]
name = "mediadir"
version = "0.1.0"
edition = "2021"
publish = false

[dependencies]
bcrypt = "*"
bytes = "1"
dotenv = "0.15"
futures = "0.3"
http = "1"
http-body-util = "0.1"
hyper = { version = "1", features = ["server", "http1"] }
hyper-util = { version = "0.1", features = ["tokio"] }
jsonwebtoken = "9"
mime = "0.3"
mongodb = "3"
multer = "3"
nanoid = "0.4"
serde = { version = "1", features = ["derive"] }
serde_json = "1"
tera = "1"
time = { version = "0.3", features = ["serde", "formatting", "parsing", "local-offset", "macros"] }
tokio = { version = "1", features = ["full"] }
tracing = "0.1"
tracing-subscriber = "0.3"
uuid = { version = "1", features = ["v4", "serde"] }
