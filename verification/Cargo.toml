[package]
name = "twig"
version = "0.1.0"
edition = "2021"
publish = false

[dependencies]
chrono = "0.4"
glob = "0.3"
serde = { version = "1", features = ["derive"] }
serde_json = "1"
toml = "0.8"
clap = { version = "4", features = ["derive"] }
directories = "5"
gethostname = "0.5"
hostname = "0.4"
local-ip-address = "*"
get_if_addrs = "0.5"
terminal_size = "0.4"
fs2 = "0.4"
libc = "0.2"
tokio = { version = "1", features = ["macros", "rt-multi-thread", "signal", "time", "sync"] }
futures = "0.3"
colored = "2"
battery = "0.7"
