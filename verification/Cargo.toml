[package]
name = "migrate_wicked"
version = "0.1.0"
edition = "2021"
publish = false

[dependencies]
cidr = "*"
regex = "*"
macaddr = "*"
uuid = { version = "*", features = ["v4"] }
serde = { version = "*", features = ["derive"] }
serde_with = "*"
quick-xml = { version = "*", features = ["serialize"] }
strum = "*"
strum_macros = "*"
clap = { version = "*", features = ["derive"] }
anyhow = "*"
thiserror = "*"
dotenv = "*"
rust-ini = "*"
log = "*"
simplelog = "*"
zvariant = "*"
