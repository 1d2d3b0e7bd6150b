[package]
name = "prodash"
version = "0.1.0"
edition = "2021"
publish = false

[dependencies]
unicode-width = "=0.2.2"
humantime = "=2.4.0"
bytesize = "=1.3.3"
compound_duration = "=1.2.1"
humansize = "=2.1.3"
ansi_term = "=0.12.1"
parking_lot = "=0.12.5"
ratatui = "=0.30.2"
tui-react = "=0.24.0"
crossterm = { version = "=0.29.0", features = ["event-stream"] }
futures-lite = "=2.6.1"
futures-core = "=0.3.34"
futures-timer = "=3.0.4"
jiff = "=0.2.38"
ctrlc = "=3.5.2"
log = "=0.4.34"
dashmap = "=6.2.1"
