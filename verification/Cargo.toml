[package]
name = "histo_integrate"
version = "0.1.0"
edition = "2021"
publish = false

[dependencies]
ndarray = "=0.15.6"
hdf5 = "=0.8.1"
pyo3 = "=0.30.1"
