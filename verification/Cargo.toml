[package]
name = "hallkb"
version = "0.1.0"
edition = "2021"
publish = false

[dependencies]
analog-multiplexer = "=1.0.2"
cortex-m = "=0.7.9"
cortex-m-rt = "=0.7.7"
defmt-rtt = "=1.3.0"
nb = "=1.1.0"
panic-halt = "=1.0.0"
stm32f4xx-hal = { version = "=0.21.0", features = ["stm32f411", "usb_fs"] }
usb-device = "=0.3.2"
usbd-human-interface-device = "=0.5.1"
