[package]
name = "loadcell"
version = "0.1.0"
edition = "2021"
publish = false

[dependencies]
fugit = "=0.3.9"
ufmt = { version = "=0.2.0", features = ["std"] }
embedded-hal = "=0.2.7"
usb-device = "=0.3.2"
usbd-serial = "=0.2.2"
rp-pico = "=0.9.0"
cortex-m = "=0.7.10"
cortex-m-rt = "=0.7.7"
defmt = "=1.2.0"
defmt-rtt = "=1.3.1"
panic-probe = "=1.0.0"
