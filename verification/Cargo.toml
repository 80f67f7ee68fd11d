[package]
name = "codspeed"
version = "0.1.0"
edition = "2021"
publish = false

[dependencies]
addr2line = "*"
async-compression = { version = "0.4", features = ["tokio", "gzip"] }
caps = "0.5"
clap = { version = "4", features = ["derive", "env"] }
console = "0.15"
crc32fast = "1"
debugid = "0.8"
git2 = { version = "*", default-features = false }
linux-perf-data = "*"
linux-perf-event-reader = "*"
log = "0.4"
nix = { version = "*", features = ["fs", "user", "feature"] }
object = "*"
reqwest = { version = "0.12", default-features = false, features = ["json", "stream", "rustls-tls"] }
reqwest-middleware = "0.4"
reqwest-retry = "0.7"
semver = "1"
serde = { version = "1", features = ["derive"] }
serde_json = "1"
serde_yaml = "0.9"
sha256 = "1"
shellexpand = "3"
sysinfo = "0.33"
tempfile = "3"
tokio = { version = "1", features = ["full"] }
tokio-tar = "0.3"
url = "2"
uuid = { version = "1", features = ["v4"] }
which = "*"
xattr = "1"
