[package]
name = "gen_mandarin_anki"
version = "0.1.0"
edition = "2021"
publish = false

[dependencies]
again = "=0.1.2"
chinese_dictionary = "=2.1.8"
config = "=0.13.4"
csv = "=1.4.0"
futures = "=0.3.34"
genanki-rs = "=0.4.0"
itertools = "=0.12.1"
log = "=0.4.34"
pinyin-parser = "=0.1.9"
pinyin_zhuyin = "=0.2.0"
rand = "=0.8.8"
reqwest = { version = "=0.11.27", features = ["json"] }
rustyline = "=19.0.0"
serde = { version = "=1.0.229", features = ["derive"] }
serde_json = "=1.0.154"
simplelog = "=0.12.2"
tempfile = "=3.27.0"
tokio = { version = "=1.54.1", features = ["macros", "rt-multi-thread", "sync"] }
url-escape = "=0.1.2"
