[package]
name = "disco_display"
version = "0.1.0"
edition = "2021"
publish = false

[dependencies]
embedded-graphics = "0.8"
kolibri-embedded-gui = "*"
ft5336 = "*"
heapless = "*"
embedded-hal = "0.2"
embassy-stm32 = { version = "*", features = ["stm32f746ng", "unstable-pac", "time-driver-any"] }
embassy-executor = "*"
embassy-time = "*"
embassy-sync = "*"
defmt = "*"
defmt-rtt = "*"
panic-probe = "*"
