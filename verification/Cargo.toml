[package]
name = "cribo"
version = "0.1.0"
edition = "2021"
publish = false

[dependencies]
anyhow = "=1.0.104"
clap = { version = "=4.6.7", features = ["derive"] }
cow-utils = "=0.1.3"
env_logger = "=0.11.11"
etcetera = "=0.11.0"
indexmap = "=2.14.2"
log = "=0.4.35"
regex = "=1.13.1"
ruff_python_ast = "=0.0.10"
ruff_python_codegen = "=0.0.10"
ruff_python_parser = "=0.0.10"
ruff_python_stdlib = "=0.0.10"
ruff_text_size = "=0.0.10"
sha2 = "=0.10.9"
