[package]
name = "wiki_extractor"
version = "0.1.0"
edition = "2021"
publish = false

[dependencies]
bzip2 = "*"
env_logger = "*"
log = "*"
parse_wiki_text = "*"
xml-rs = "*"

[dev-dependencies]
serde_json = "*"
