[package]
name = "kernel_console"
version = "0.1.0"
edition = "2021"
publish = false

[dependencies]
volatile = "0.2.6"
spin = "0.5.2"
lazy_static = { version = "1.0", features = ["spin_no_std"] }
uart_16550 = { version = "0.2.0", default-features = false }
x86_64 = { version = "0.14.2", default-features = false, features = ["instructions"] }
