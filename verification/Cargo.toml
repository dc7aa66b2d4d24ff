[package]
name = "taior"
version = "0.1.0"
edition = "2021"
publish = false

[dependencies]
async-trait = "0.1"
blake3 = "1"
chacha20poly1305 = "0.10"
console_error_panic_hook = "0.1"
hex = "0.4"
hkdf = "0.12"
js-sys = "0.3"
quinn = { version = "0.11", default-features = false, features = ["runtime-tokio", "rustls"] }
rand = "0.8"
rand_core = { version = "0.6", features = ["getrandom"] }
rcgen = "0.13"
rustls = { version = "0.23", default-features = false, features = ["ring", "std"] }
serde = { version = "1", features = ["derive"] }
serde_json = "1"
sha2 = "0.10"
thiserror = "1"
tokio = { version = "1", features = ["net", "rt", "sync", "time"] }
wasm-bindgen = "0.2"
x25519-dalek = "2"
