[package]
name = "risdb"
version = "0.1.0"
edition = "2021"
publish = false

[dependencies]
ansi-to-tui = { version = "6", default-features = false }
async-trait = "0.1"
clap = { version = "4", default-features = false, features = ["derive", "std", "help", "usage", "error-context"] }
color-eyre = { version = "0.6", default-features = false }
crossterm = { version = "0.28", default-features = false, features = ["events"] }
env_logger = { version = "0.11", default-features = false }
futures = { version = "0.3", default-features = false, features = ["std"] }
http-body-util = "0.1"
hyper = { version = "1", features = ["client", "http1", "http2", "server"] }
hyper-rustls = { version = "0.27", default-features = false, features = ["http1", "http2", "ring", "tls12"] }
hyper-util = { version = "0.1", features = ["client", "client-legacy", "http1", "http2", "server", "server-auto", "service", "tokio"] }
pingora = { version = "0.3", default-features = false, features = ["lb", "proxy", "openssl"] }
pingora-core = { version = "0.3", default-features = false }
pingora-load-balancing = { version = "0.3", default-features = false }
pingora-proxy = { version = "0.3", default-features = false }
prost = "0.13"
rand = "0.8"
ratatui = { version = "0.28", default-features = false, features = ["crossterm"] }
rustls = { version = "0.23", default-features = false, features = ["ring", "std", "tls12"] }
rustls-pemfile = "2"
rustls-pki-types = "1"
structopt = { version = "0.3", default-features = false }
tokio = { version = "1", features = ["io-util", "macros", "net", "process", "rt-multi-thread", "sync", "time"] }
tokio-rustls = { version = "0.26", default-features = false, features = ["ring", "tls12"] }
tokio-util = "0.7"
tonic = "0.12"
tower = { version = "0.5", default-features = false, features = ["util"] }
tracing = "0.1"
tracing-subscriber = { version = "0.3", default-features = false, features = ["fmt", "std"] }
uuid = { version = "1", features = ["v4"] }
