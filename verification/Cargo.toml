[package]
name = "bigos"
version = "0.1.0"
edition = "2021"
publish = false

[dependencies]
x86_64 = { version = "=0.15.5", default-features = false, features = ["instructions"] }
acpi = { version = "=5.2.0", default-features = false }
limine = "=0.5.0"
spin = "=0.12.3"
lazy_static = "=1.5.1"
uart_16550 = "=0.9.0"
pc-keyboard = "=0.9.0"
