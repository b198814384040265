[package]
name = "esda_controller"
version = "0.1.0"
edition = "2021"
publish = false

[dependencies]
embassy-executor = { version = "0.5", features = ["task-arena-size-8192"] }
embassy-sync = "0.6"
embassy-time = "0.3"
esp-backtrace = { version = "0.13", features = ["esp32", "panic-handler", "exception-handler", "println"] }
esp-hal = { version = "0.19", features = ["esp32", "async"] }
esp-hal-embassy = { version = "0.2", features = ["esp32"] }
esp-println = { version = "0.10", features = ["esp32", "log"] }
esp-wifi = { version = "0.7", default-features = false, features = ["esp32", "esp-now"] }
nb = "1"
static_cell = "2"
