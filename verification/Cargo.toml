[package]
name = "journey"
version = "0.1.0"
edition = "2021"
publish = false

[dependencies]
rand = "0.8"
serde = { version = "1", features = ["derive"] }
serde_json = "1"
bincode = "1"
simdnoise = "3"
rayon = "1"
actix-web = "4"
reqwest = { version = "0.11", default-features = false, features = ["json"] }
tokio = { version = "1", features = ["macros", "rt-multi-thread"] }
once_cell = "1"
pancurses = "0.17"
sdl2 = { version = "0.35", features = ["image", "ttf", "mixer"] }
