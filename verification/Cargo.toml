[package]
name = "task_watchdog"
version = "0.1.0"
edition = "2021"
publish = false

[dependencies]
embassy-time = { version = "*", features = ["std"] }
embassy-sync = "*"
cortex-m = "*"
rp2040-hal = "*"
embassy-rp = { version = "*", features = ["rp2040"] }
embassy-nrf = { version = "*", features = ["nrf52840"] }
esp-hal = { version = "*", features = ["esp32", "unstable"] }
