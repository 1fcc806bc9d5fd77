[package]
name = "jj_spr"
version = "0.1.0"
edition = "2021"
publish = false

[dependencies]
clap = { version = "=4.6.7", features = ["derive"] }
git2 = { version = "=0.20.4", default-features = false }
lazy-regex = "=3.6.2"
octocrab = "0.40"
reqwest = { version = "=0.12.28", features = ["json"] }
thiserror = "=2.0.21"
tokio = { version = "=1.54.1", features = ["full"] }
