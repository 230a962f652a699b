[package]
name = "workbench"
version = "0.1.0"
edition = "2021"
publish = false

[dependencies]
actix-web = { version = "4", default-features = false, features = ["macros"] }
diesel = { version = "1.4", default-features = false }
dirs = "=2.0.2"
env_logger = "=0.6.2"
heck = "=0.3.3"
lazy_static = "=1.5.1"
log = "=0.4.34"
pretty_env_logger = "=0.3.1"
proc-macro2 = "=1.0.107"
quote = "=1.0.47"
reqwest = { version = "=0.9.24", default-features = false }
rpassword = "=4.0.5"
serde = { version = "=1.0.229", features = ["derive"] }
serde_json = "=1.0.154"
structopt = "=0.3.26"
syn = { version = "=1.0.109", features = ["full"] }
syntect = { version = "=4.6.0", default-features = false, features = ["default-fancy"] }
toml = "=0.5.11"
url = "=1.7.2"
wasm-bindgen = "=0.2.129"
