[package]
name = "bench_clients"
version = "0.1.0"
edition = "2021"
publish = false

[dependencies]
alloy-chains = "=0.2.39"
alloy-primitives = "=1.7.3"
alloy-provider = { version = "=1.8.3", default-features = false, features = ["reqwest"] }
alloy-rpc-types-eth = "=1.8.3"
async-trait = "=0.1.92"
eyre = "=0.6.14"
hex = "=0.4.3"
nix = { version = "=0.29.0", features = ["signal", "process"] }
rand = "=0.8.8"
serde_json = "=1.0.154"
tokio = { version = "=1.54.1", features = ["io-util", "process", "rt", "time", "macros"] }
tracing = "=0.1.44"
url = "=2.5.8"
