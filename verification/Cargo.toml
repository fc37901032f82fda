[package]
name = "wandering_inn_scraper"
version = "2.2.0"
edition = "2021"
publish = false

[dependencies]
regex = "=1.13.1"
ammonia = "=4.2.4"
argon2 = "=0.6.0"
rand = "=0.10.3"
hex = "=0.4.3"
color-name = "=1.2.0"
percent-encoding = "=2.3.2"
serde = { version = "=1.0.229", features = ["derive"] }
serde_json = "=1.0.154"
rusqlite = { version = "=0.41.1", features = ["bundled"] }
tokio = { version = "=1.54.1", features = ["full"] }
axum = "=0.8.9"
maud = { version = "=0.27.0", features = ["axum"] }
clap = { version = "=4.6.7", features = ["derive"] }
reqwest = { version = "=0.13.5", features = ["cookies"] }
soup = "=0.5.1"
html5ever = "=0.22.5"
epub-builder = "=0.8.3"
image = "=0.24.9"
imageproc = "=0.23.1"
rusttype = "=0.9.3"
thiserror = "=2.0.21"
async-trait = "=0.1.92"
