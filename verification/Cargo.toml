[package]
name = "netcdf_merge"
version = "0.1.0"
edition = "2021"
publish = false

[dependencies]
libc = "0.2"
netcdf-reader = "*"
netcdf-sys = "*"
rocket = "0.5"
tokio = { version = "1", features = ["sync"] }
