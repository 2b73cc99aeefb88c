[package]
name = "rex_sim"
version = "0.1.0"
edition = "2021"
publish = false

[dependencies]
alloy-consensus = { version = "=2.0.5", default-features = false, features = ["std"] }
alloy-primitives = { version = "=1.7.3", default-features = false, features = ["std"] }
alloy-provider = { version = "=2.0.5", default-features = false }
alloy-rpc-types = { version = "=2.0.5", default-features = false, features = ["eth"] }
alloy-sol-types = { version = "=1.7.3", default-features = false, features = ["std"] }
alloy-transport = { version = "=2.0.5", default-features = false }
arc-swap = "=1.9.3"
crossbeam-channel = "=0.5.17"
hashbrown = "=0.17.1"
prost = { version = "=0.14.4", default-features = false, features = ["std"] }
revm-bytecode = { version = "=43.0.0", default-features = false, features = ["std"] }
revm-database-interface = { version = "=43.0.1", default-features = false, features = ["std"] }
revm-state = { version = "=43.0.1", default-features = false, features = ["std"] }
serde = { version = "=1.0.229", features = ["derive"] }
thiserror = "=2.0.21"
tokio = { version = "=1.54.1", features = ["macros", "rt-multi-thread", "sync", "time"] }
tokio-stream = "=0.1.19"
tonic = { version = "=0.14.9", default-features = false, features = ["channel", "codegen", "server"] }
tracing = "=0.1.44"
url = "=2.5.8"
