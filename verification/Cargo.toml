[package]
name = "rs-sc"
version = "0.1.0"
edition = "2021"
publish = false

[dependencies]
base64 = "0.22"
image = { version = "0.25", default-features = false, features = ["png"] }
reqwest = { version = "0.12", default-features = false, features = ["json", "rustls-tls"] }
serde = { version = "1", features = ["derive"] }
serde_json = "1"
softbuffer = { version = "0.4", default-features = false, features = ["x11", "x11-dlopen"] }
thiserror = "1"
tokio = { version = "1", features = ["macros", "rt", "sync", "time"] }
winit = { version = "0.30", default-features = false, features = ["rwh_06", "x11"] }
