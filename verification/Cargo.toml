[package]
name = "locally_euclidean"
version = "0.1.0"
edition = "2021"
publish = false

[dependencies]
assert-impl = "=0.1.3"
async-trait = "0.1"
axum = "=0.8.9"
axum-tracing-opentelemetry = "=0.42.1"
camino = "=1.2.6"
chrono = "=0.4.45"
clap = { version = "4", features = ["derive"] }
config = { version = "0.15", default-features = false, features = ["toml"] }
futures-core = "0.3"
http-body-util = "0.1"
httpdate = "=1.0.3"
humantime = "=2.4.0"
nix = { version = "=0.30.1", features = ["fs"] }
pin-project = "1"
rustix = { version = "1", features = ["fs"] }
serde = { version = "1", features = ["derive"] }
sqlx = { version = "0.8", default-features = false, features = ["runtime-tokio", "postgres", "chrono", "uuid", "migrate"] }
thiserror = "2"
tmp-postgrust = { version = "=0.11.2", features = ["tokio-process"] }
tokio = { version = "1", features = ["full"] }
tokio-stream = "0.1"
tokio-util = { version = "0.7", features = ["io", "rt"] }
tower = "0.5"
tower-http = { version = "0.6", features = ["cors"] }
tracing = "0.1"
xattr = "1"
