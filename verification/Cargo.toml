[package]
name = "rusty_clevo_fan"
version = "0.1.0"
edition = "2021"
publish = false

[dependencies]
cpuio = "=0.3.0"
libc = "=0.2.191"
ksni = "=0.1.3"
orbtk = "=0.3.1-alpha3"
