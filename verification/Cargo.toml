[package]
name = "control_surface"
version = "0.1.0"
edition = "2021"
publish = false

[dependencies]
embassy-executor = "=0.10.0"
embassy-sync = "=0.8.0"
embassy-time = "=0.5.1"
esp-alloc = "=0.11.0"
esp-bootloader-esp-idf = { version = "=0.6.0", features = ["esp32"] }
esp-hal = { version = "=1.2.2", features = ["esp32", "unstable"] }
esp-hal-embassy = { version = "=0.6.0", features = ["esp32"] }
esp-println = { version = "=0.18.0", features = ["esp32"] }
