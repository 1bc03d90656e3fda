[package]
name = "telemetry_hub"
version = "0.1.0"
edition = "2021"
publish = false

[dependencies]
circular-buffer = "=1.2.1"
heapless = "=0.8.0"
serde = { version = "=1.0.229", default-features = false, features = ["derive"] }
serde-json-core = "=0.6.0"
embedded-io-async = "=0.6.1"
embassy-executor = { version = "=0.7.0", features = ["task-arena-size-20480"] }
embassy-net = { version = "=0.6.0", features = ["tcp", "udp", "dhcpv4", "medium-ethernet", "proto-ipv4"] }
embassy-time = "=0.4.0"
edge-dhcp = "=0.5.0"
edge-nal = "=0.5.0"
edge-nal-embassy = "=0.5.0"
esp-alloc = "=0.6.0"
esp-backtrace = { version = "=0.15.1", features = ["esp32c6", "panic-handler", "exception-handler", "println"] }
esp-hal = { version = "=0.23.1", features = ["esp32c6", "unstable"] }
esp-hal-embassy = { version = "=0.6.0", features = ["esp32c6"] }
esp-println = { version = "=0.13.1", features = ["esp32c6", "log"] }
esp-wifi = { version = "=0.12.0", features = ["esp32c6", "wifi"] }
log = "=0.4.34"
static_cell = "=2.1.1"
smoltcp = { version = "=0.12.0", default-features = false, features = ["proto-ipv4", "medium-ethernet", "socket-tcp"] }
ads1x1x = "=0.3.0"
nb = "=1.1.0"
