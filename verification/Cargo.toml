[package]
name = "rooq"
version = "0.1.0"
edition = "2021"
publish = false

[dependencies]
infer = "=0.22.0"
encoding_rs = "=0.8.44"
chardetng = "=1.0.0"
zune-core = "=0.5.3"
zune-jpeg = "=0.5.15"
zune-png = "=0.5.2"
image = { version = "=0.25.10", default-features = false, features = ["gif"] }
eframe = { version = "=0.37.0", default-features = false, features = ["glow", "x11", "default_fonts"] }
egui = "=0.37.0"
egui_commonmark = "=0.26.0"
syntastica = "=0.6.1"
syntastica-parsers = { version = "=0.6.1", features = ["some"] }
syntastica-themes = "=0.6.1"
