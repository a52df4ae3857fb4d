[package]
name = "clipboard_transforms"
version = "0.1.0"
edition = "2021"
publish = false

[dependencies]
serde_json = "1"
directories = "*"
env_logger = "*"
ksni = "0.2"
log = "0.4"
notify = "4"
open = "*"
structopt = "0.3"
x11-clipboard = "*"
