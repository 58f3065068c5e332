[package]
name = "md_preview"
version = "0.1.0"
edition = "2021"
publish = false

[dependencies]
comrak = { version = "0.8", default-features = false }
crossbeam = "0.8"
futures = "0.3"
notify = "4.0"
structopt = "0.3"
tokio = { version = "1", features = ["fs", "macros", "rt-multi-thread"] }
warp = "0.3"
