[package]
name = "bellman_vk_codegen"
version = "0.1.0"
edition = "2021"
publish = false

[dependencies]
bellman_ce = "0.7"
handlebars = "=6.4.4"
serde_json = "=1.0.154"
