[package]
name = "particle_sandbox"
version = "0.1.0"
edition = "2021"
publish = false

[dependencies]
rapier2d = { version = "=0.22.0", features = ["enhanced-determinism"] }
nalgebra = "=0.33.3"
parking_lot = "=0.12.5"
tokio = { version = "=1.54.1", features = ["rt-multi-thread", "macros"] }
raylib = "=6.0.0"
