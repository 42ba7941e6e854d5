[package]
name = "kernel"
version = "0.1.0"
edition = "2021"
publish = false

[dependencies]
x86_64 = { version = "=0.15.5", default-features = false, features = ["instructions"] }
spin = "=0.9.9"
bootloader_api = "=0.11.17"
crossbeam-queue = { version = "=0.3.14", default-features = false, features = ["alloc"] }
linked_list_allocator = "=0.10.6"
smoltcp = { version = "=0.14.0", default-features = false, features = ["alloc", "medium-ethernet", "proto-ipv4", "socket-tcp", "socket-udp", "socket-raw", "socket-icmp"] }
uart_16550 = "=0.9.0"
pic8259 = "=0.11.0"
acpi = { version = "=5.2.0", default-features = false }
