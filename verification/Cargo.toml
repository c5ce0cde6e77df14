[package]
name = "aoch"
version = "0.1.0"
edition = "2021"
publish = false

[dependencies]
backtrace = "=0.3.76"
cargo-edit = "=0.12.3"
chrono = "=0.4.45"
clap = { version = "=4.6.7", features = ["derive"] }
colored = "=3.1.1"
git2 = "*"
proc-macro2 = "=1.0.107"
ptree = { version = "=0.5.2", default-features = false }
quote = "=1.0.47"
reqwest = { version = "=0.11.27", features = ["blocking", "cookies"] }
syn = "=2.0.119"
thiserror = "=2.0.21"
toml_edit = "=0.19.15"
tracking-allocator = "=0.4.0"
