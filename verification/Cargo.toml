[package]
name = "cronframe"
version = "0.1.3"
edition = "2021"
publish = false

[dependencies]
chrono = "0.4"
cron = "0.12"
uuid = { version = "1", features = ["v4"] }
home = "0.5"
toml = "0.8"
crossbeam-channel = "0.5"
log = "0.4"
log4rs = { version = "1", default-features = false, features = ["file_appender", "rolling_file_appender", "compound_policy", "size_trigger", "fixed_window_roller", "pattern_encoder"] }
rocket = "0.5"
rocket_dyn_templates = { version = "0.2", features = ["tera"] }
inventory = "0.3"
linkme = "0.3.26"
once_cell = "1"
clap = { version = "4", features = ["cargo"] }
colored = "2"
reqwest = { version = "0.12", default-features = false, features = ["blocking"] }
anyhow = "1"
rand = "0.8"
lazy_static = "1"
