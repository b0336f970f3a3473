[package]
name = "compress_io"
version = "0.1.0"
edition = "2021"
publish = false

[dependencies]
libc = "0.2"
num_cpus = "1"
os_pipe = "1"
tokio = { version = "1", features = ["fs", "io-std", "io-util", "process", "rt", "rt-multi-thread"] }
tokio-pipe = "0.2"
