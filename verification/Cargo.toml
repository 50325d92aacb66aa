[package]
name = "axvirt"
version = "0.1.0"
edition = "2021"
publish = false

[dependencies]
ax-errno = "=0.6.3"
ax-memory-addr = "=0.6.11"
axvm-types = "=0.5.13"
ax-kspin = "=0.3.17"
ax-cpu = "0.6"
ax-plat = "0.6"
ax-page-table-entry = "=0.8.12"
rdif-intc = "=0.14.3"
rdrive = "=0.20.1"
arm-gic-driver = { version = ">=0.17.0, <0.17.4", features = ["rdif"] }
