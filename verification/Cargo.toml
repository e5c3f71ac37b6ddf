[package]
name = "openefi"
version = "0.1.0"
edition = "2021"
publish = false

[dependencies]
arrayvec = { version = "0.7", default-features = false }
cortex-m = "0.7"
cortex-m-rtic = "1.1"
embedded-hal = "0.2"
panic-halt = "0.2"
serde = { version = "1", default-features = false, features = ["derive"] }
serde-json-core = "0.5"
stm32f4xx-hal = { version = "0.15", features = ["stm32f407", "usb_fs"] }
usb-device = "0.2"
usbd-serial = "0.1"
usbd-webusb = "*"
w25q = "*"
