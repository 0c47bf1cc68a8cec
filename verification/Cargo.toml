[package]
name = "erl_aotc"
version = "0.1.0"
edition = "2021"
publish = false

[dependencies]
llvm-sys = { version = "=231.0.1", features = ["no-llvm-linking", "disable-alltargets-init"] }
