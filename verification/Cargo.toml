[package]
name = "valorant_music_controller"
version = "0.1.0"
edition = "2021"
publish = false

[dependencies]
enigo = "*"
stoppable_thread = "*"
windows-volume-control = "*"
