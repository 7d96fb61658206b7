[package]
name = "executor"
version = "0.1.0"
edition = "2021"
publish = false

[dependencies]
async-task = "4"
crossbeam-deque = "0.8"
futures = "0.3"
num_cpus = "1"
tracing = "0.1"
