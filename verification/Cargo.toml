[package]
name = "larris"
version = "0.1.0"
edition = "2021"
publish = false

[dependencies]
anyhow = "=1.0.104"
crossterm = "=0.29.0"
env_logger = "=0.11.11"
g-code = "=0.6.0"
gcode-nom = "=0.7.0"
image = { version = "=0.25.10", default-features = false, features = ["png"] }
lyon_geom = "=1.0.20"
ratatui = "=0.30.2"
ratatui-image = { version = "=11.1.0", default-features = false, features = ["crossterm"] }
resvg = { version = "=0.49.0", default-features = false }
rfd = { version = "=0.17.2", default-features = false, features = ["xdg-portal"] }
roxmltree = "=0.21.2"
serialport = { version = "=4.10.1", default-features = false }
tokio = { version = "=1.54.1", features = ["macros", "rt", "rt-multi-thread", "sync"] }
