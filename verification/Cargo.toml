[package]
name = "ion_shell"
version = "1.0.0"
edition = "2021"
publish = false

[dependencies]
libc = "=0.2.191"
nix = { version = "=0.31.3", features = ["signal"] }
redox_syscall = "0.2"
regex = "=1.13.1"
