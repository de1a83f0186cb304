[package]
name = "source_query_cacher"
version = "0.1.0"
edition = "2021"
publish = false

[dependencies]
bytes = "0.4"
fnv = "1.0"
lru_time_cache = "0.8"
rand = "0.6"
tokio = "0.1"
tokio-codec = "0.1"
futures = "0.1"
futures-retry = "0.3"
structopt = "0.2"
itertools = "0.8"
pretty_env_logger = "0.3"
log = "0.4"
