[package]
name = "judge"
version = "0.1.0"
edition = "2021"
publish = false

[dependencies]
rand = "=0.8.8"
cipher-crypt = "=0.18.0"
serde = { version = "=1.0.229", features = ["derive"] }
serde_json = "=1.0.154"
chrono = "=0.4.45"
scoreboard_db = { version = "=0.2.1", features = ["database"] }
cliclack = "=0.5.7"
log = "=0.4.35"
reqwest = { version = "=0.11.27", features = ["blocking", "json"] }
sha256 = "=1.6.0"
termimad = "=0.35.5"
whoami = "=1.6.1"
