[package]
name = "uhyve"
version = "0.1.0"
edition = "2021"
publish = false

[dependencies]
byte-unit = "=4.0.19"
goblin = "=0.5.4"
hermit-entry = { version = "=0.1.3", features = ["loader"] }
kvm-bindings = "=0.14.2"
kvm-ioctls = "=0.25.1"
libc = "=0.2.191"
log = "=0.4.34"
nix = "=0.24.3"
raw-cpuid = "=10.7.0"
thiserror = "=1.0.69"
tun-tap = { version = "=0.1.4", default-features = false }
vmm-sys-util = "=0.15.0"
x86_64 = { version = "=0.14.13", default-features = false }
