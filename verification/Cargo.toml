[package]
name = "each"
version = "0.1.0"
edition = "2021"
publish = false

[dependencies]
atty = "0.2"
clap = "3"
csv = "1"
dialoguer = "0.10"
env_logger = "0.10"
exitcode = "1"
failure = "0.1"
handlebars = "4"
indexmap = "1"
jmespath = "0.3"
log = "0.4"
rayon = "1"
serde_json = { version = "1", features = ["preserve_order"] }
subprocess = "0.2"
