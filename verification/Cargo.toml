[package]
name = "meili_core"
version = "0.1.0"
edition = "2021"
publish = false
rust-version = "1.95"

[dependencies]
actix-web = { version = "4", default-features = false, features = ["macros"] }
anyhow = "1"
bstr = "1"
charabia = { version = "=0.9.9", default-features = false }
chrono = "0.4"
deserr = { version = "0.6", features = ["actix-web"] }
fst = "=0.4.7"
futures = "0.3"
grenad = "=0.4.7"
heed = "0.20"
http = "1"
kstring = "=2.0.0"
liquid = "0.26"
lru = "=0.12.5"
lz4_flex = "=0.11.6"
mime = "0.3"
obkv = "=0.2.2"
once_cell = "1"
rayon = "1"
redis = "0.25"
roaring = "=0.10.12"
serde = { version = "1", features = ["derive"] }
serde_json = { version = "=1.0.154", features = ["preserve_order"] }
smallvec = "1"
tempfile = "3"
thiserror = "1"
tokio = { version = "1", features = ["fs", "rt-multi-thread", "time", "sync", "io-util"] }
tracing = "0.1"
uuid = { version = "1", features = ["v4"] }
walkdir = "2"
