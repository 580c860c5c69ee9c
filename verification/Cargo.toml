[package]
name = "astro_core"
version = "0.1.0"
edition = "2021"
publish = false

[dependencies]
bevy = { version = "=0.7.0", default-features = false }
once_cell = "=1.21.4"
# Not called from any code of this crate. bevy 0.7 without its default
# features leaves nothing in the build that switches on the `full` feature
# of `syn`, which bevy's own derive crates need; this version does.
tracing-attributes = "=0.1.23"
