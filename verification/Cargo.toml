[package]
name = "stm32f4d"
version = "0.1.0"
edition = "2021"
publish = false

[dependencies]
debouncr = "*"
cortex-m = "*"
cortex-m-rt = "*"
cortex-m-rtic = "*"
stm32f4xx-hal = { version = "*", features = ["stm32f407"] }
