[package]
name = "mackerel_plugin_ntp"
version = "0.1.0"
edition = "2021"
publish = false

[dependencies]
mackerel_plugin = "*"
