[package]
name = "iboardbot"
version = "0.1.0"
edition = "2021"
publish = false

[dependencies]
actix-files = "*"
actix-web = { version = "4", default-features = false }
bufstream = "*"
docopt = "1"
log = "0.4"
regex = "1"
scheduled-executor = "*"
serde = "1"
serde_derive = "1"
serde_json = "1"
serial = "*"
simplelog = "*"
svg2polylines = "*"
