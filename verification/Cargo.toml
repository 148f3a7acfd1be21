[package]
name = "cyd_clock"
version = "0.1.0"
edition = "2021"
publish = false

[dependencies]
anyhow = "1"
chrono = "0.4"
chrono-tz = "0.8"
display-interface-spi = "0.4"
embedded-graphics = "0.8"
embedded-svc = "0.26"
esp-idf-hal = "0.42"
esp-idf-svc = "0.47"
esp-idf-sys = "0.33"
log = "0.4"
mipidsi = "0.7"
tinybmp = "0.5"
