[package]
name = "led_snake"
version = "0.1.0"
edition = "2021"
publish = false

[dependencies]
arrayvec = { version = "0.7", default-features = false }
cortex-m-rt = "*"
embedded-hal = "1"
lsm303agr = "1"
microbit-v2 = "*"
nrf52833-hal = "*"
panic-rtt-target = "*"
rtt-target = "*"
