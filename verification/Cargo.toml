[package]
name = "cargo_up"
version = "0.1.0"
edition = "2021"
publish = false

[dependencies]
semver = "=1.0.28"
ra_ap_text_edit = "=0.0.241"
ra_ap_syntax = "=0.0.241"
ra_ap_hir = "=0.0.241"
ra_ap_ide_db = "=0.0.241"
ra_ap_base_db = "=0.0.241"
ra_ap_paths = "=0.0.241"
ra_ap_project_model = "=0.0.241"
ra_ap_load-cargo = "=0.0.241"
ra_ap_vfs = "=0.0.241"
anyhow = "1"
thiserror = "1"
log = "0.4"
clap = { version = "3", features = ["derive", "cargo"] }
cargo_metadata = "0.12"
oclif = "0.3"
ureq = { version = "1", features = ["json"] }
serde = { version = "1", features = ["derive"] }
proc-macro2 = "1"
quote = "1"
syn = { version = "2", features = ["full"] }
