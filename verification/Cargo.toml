[package]
name = "yatima_core"
version = "0.1.0"
edition = "2021"
publish = false

[dependencies]
libipld = { version = "0.12.0", default-features = false, features = ["dag-cbor"] }
cid = { version = "0.7.0", default-features = false, features = ["std"] }
multihash = { version = "0.14.0", default-features = false, features = ["std", "multihash-impl", "blake2b", "sha2"] }
reqwest = { version = "0.11", default-features = false, features = ["json", "multipart"] }
serde_json = "1"
tokio = { version = "1", features = ["macros", "rt-multi-thread"] }
structopt = "0.3"
rustyline = "8"
wasm-bindgen-futures = "0.4"
log = "0.4"
