[package]
name = "actuator_node"
version = "0.1.0"
edition = "2021"
publish = false

[dependencies]
cortex-m = "=0.5.11"
cortex-m-rt = "=0.6.15"
cortex-m-semihosting = "=0.3.7"
embedded-hal = "=0.2.7"
panic-semihosting = "=0.5.6"
stm32f1xx-hal = { version = "=0.2.1", features = ["stm32f103"] }
w5500 = "=0.1.6"
