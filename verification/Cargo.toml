[package]
name = "wpc"
version = "0.1.0"
edition = "2021"
publish = false

[dependencies]
enquote = "1"
rand = "0.7"
chrono = "0.4"
clap = { version = "4", features = ["derive"] }
tokio = { version = "1", features = ["macros", "rt-multi-thread"] }
reqwest = { version = "0.11", default-features = false, features = ["rustls-tls"] }
serde = { version = "1", features = ["derive"] }
serde_json = "1"
image = { version = "0.24", default-features = false, features = ["jpeg", "png"] }
notify = "4"
dirs = "4"
env_logger = "0.9"
log = "0.4"
async-trait = "0.1"
strum_macros = "0.24"
gio = "0.15"
winapi = { version = "0.3", features = ["winuser"] }
winreg = "0.10"
