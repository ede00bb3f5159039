[package]
name = "recorder"
version = "0.1.0"
edition = "2021"
publish = false

[dependencies]
hiredis = "=0.3.1"
mcpat = { version = "=0.9.0", features = ["caching"] }
sqlite = "=0.37.4"
sql = "=0.4.3"
log = "=0.4.35"
term = "=1.2.1"
