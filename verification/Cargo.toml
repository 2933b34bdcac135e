[package]
name = "runiq"
version = "2.1.0"
edition = "2021"
publish = false

[dependencies]
bytelines = "=2.5.0"
bytesize = "=2.7.0"
clap = { version = "=4.6.7", features = ["derive"] }
cli-table = "=0.5.0"
fnv = "=1.0.7"
format_num = "=0.1.0"
growable-bloom-filter = "=2.1.1"
identity-hash = "=0.1.0"
strum = "=0.28.0"
strum_macros = "=0.28.0"
xxhash-rust = { version = "=0.8.19", features = ["xxh3", "xxh32", "xxh64"] }
