[package]
name = "fil_actor_hierarchical_sca"
version = "0.1.0"
edition = "2021"
publish = false

[dependencies]
anyhow = "1"
cid = "0.11"
fvm_ipld_amt = "0.7"
fvm_ipld_blockstore = "0.3"
fvm_ipld_encoding = "0.5"
fvm_ipld_hamt = "0.10"
fvm_shared = "4"
multihash-codetable = { version = "*", features = ["blake2b"] }
num-derive = "0.4"
num-traits = "0.2"
serde = { version = "1", features = ["derive"] }
