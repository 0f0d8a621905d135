[package]
name = "sl_map_tools"
version = "0.1.0"
edition = "2021"
publish = false

[dependencies]
sl-types = { version = "=0.11.0", features = ["chumsky"] }
chumsky = "=0.13.0"
time = { version = "=0.3.55", features = ["macros", "parsing"] }
bytesize = "=2.7.0"
hex_color = "=3.0.0"
ttf-parser = "=0.25.1"
serde = { version = "=1.0.229", features = ["derive"] }
serde_json = "=1.0.154"
thiserror = "=2.0.21"
clap = { version = "=4.6.7", features = ["derive"] }
image = { version = "=0.25.10", default-features = false, features = ["png", "jpeg"] }
imageproc = { version = "=0.27.0", default-features = false }
ab_glyph = "=0.2.32"
tokio = { version = "=1.54.1", features = ["rt-multi-thread", "macros", "sync", "time"] }
reqwest = { version = "=0.13.5", default-features = false }
url = "=2.5.8"
http = "=1.5.0"
http-cache-semantics = "=3.0.0"
redb = "=4.4.0"
lru = "=0.19.0"
ratelimit = "=2.0.0"
indicatif = "=0.18.6"
tracing = "=0.1.44"
tracing-subscriber = { version = "=0.3.23", features = ["env-filter"] }
tracing-appender = "=0.2.5"
fs-err = "=3.3.2"
log-panics = "=2.1.0"
