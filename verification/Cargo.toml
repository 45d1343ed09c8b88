[package]
name = "shop"
version = "0.1.0"
edition = "2021"
publish = false

[dependencies]
sha2 = "0.10"
serde = { version = "1", features = ["derive"] }
rocket = { version = "0.5", features = ["secrets"] }
rocket_dyn_templates = { version = "0.1", features = ["tera"] }
diesel = { version = "2", features = ["sqlite", "r2d2"] }
libsqlite3-sys = { version = "*", features = ["bundled"] }
dotenv = "0.15"
locale = "0.2"
