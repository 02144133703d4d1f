[package]
name = "starbase_process"
version = "0.1.0"
edition = "2021"
publish = false

[dependencies]
regex = "=1.13.1"
rustc-hash = "=2.1.3"
starbase_shell = "=0.14.2"
starbase_styles = "=0.6.10"
libc = "=0.2.191"
serde = { version = "=1.0.229", features = ["derive"] }
thiserror = "=2.0.21"
tracing = "=0.1.44"
syn = { version = "=2.0.119", features = ["full"] }
quote = "=1.0.47"
proc-macro2 = "=1.0.107"
darling = "=0.21.3"
convert_case = "=0.12.0"
system_env = "=0.10.5"
