[package]
name = "cloudhv"
version = "0.1.0"
edition = "2021"
publish = false

[dependencies]
anyhow = "=1.0.104"
async-trait = "=0.1.92"
chrono = "=0.4.45"
env_logger = "=0.11.11"
libc = "=0.2.191"
log = "=0.4.35"
nix = { version = "=0.29.0", features = ["fs", "mount", "poll", "process", "sched"] }
protobuf = "3"
serde = { version = "=1.0.229", features = ["derive"] }
serde_json = "=1.0.154"
thiserror = "=2.0.21"
tokio = { version = "=1.54.1", features = ["full"] }
ttrpc = { version = "0.9", features = ["async"] }
uuid = { version = "=1.29.0", features = ["v4"] }
vhost = { version = "=0.16.0", features = ["vhost-user-backend"] }
vhost-user-backend = "=0.22.0"
virtiofsd = "=1.14.0"
vm-memory = { version = "=0.17.1", features = ["backend-mmap", "backend-atomic"] }

[dev-dependencies]
tempfile = "3"
