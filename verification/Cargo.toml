[package]
name = "droplet_dns"
version = "0.1.0"
edition = "2021"
publish = false

[dependencies]
clokwerk = "*"
digitalocean = "*"
env_logger = "*"
envy = "*"
log = "*"
serde = { version = "1", features = ["derive"] }
