[package]
name = "schedhint"
version = "0.1.0"
edition = "2021"
publish = false

[dependencies]
libc = "=0.2.191"
aya-ebpf = "=0.1.1"
axerrno = "=0.2.2"
axlog = "=0.3.0-preview.3"
kbpf-basic = "=0.6.0"
