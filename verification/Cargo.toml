[package]
name = "facts"
version = "0.1.0"
edition = "2021"
publish = false

[dependencies]
app_dirs = "1.2"
crossbeam-channel = "0.5"
ctrlc = "3"
env_logger = "0.11"
log = "0.4"
nix = { version = "0.29", features = ["signal", "process"] }
paw = "1.0"
reqwest = { version = "0.12", features = ["blocking", "json", "cookies"] }
scraper = "*"
serde = { version = "1", features = ["derive"] }
serde_json = "1"
structopt = { version = "0.3", features = ["paw"] }
tar = "0.4"
xz2 = "0.1"

[dev-dependencies]
regex = "1"
