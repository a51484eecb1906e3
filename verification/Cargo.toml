[package]
name = "vllm_coldstart_probe"
version = "0.1.0"
edition = "2021"
publish = false

[dependencies]
anyhow = "1"
aya = "0.13"
aya-ebpf = "0.1"
aya-log = "0.2"
clap = { version = "4", features = ["derive"] }
env_logger = "0.11"
log = "0.4"
paste = "1"
serde_json = "1"
tokio = { version = "1", features = ["macros", "rt-multi-thread", "signal", "sync", "time"] }
