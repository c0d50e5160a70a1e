[package]
name = "music_player"
version = "0.1.0"
edition = "2021"
publish = false

[dependencies]
serde = { version = "1.0.219", features = ["derive"] }
serde_json = "1.0.140"
gtk = "0.15"
gdk = "0.15"
gdk-pixbuf = "0.15"
glib = "0.15"
gstreamer = "0.23.7"
lofty = "0.22.4"
symphonia = { version = "0.5.4", features = ["mp3", "flac", "vorbis"] }
walkdir = "2"
fastrand = "2.3.0"
once_cell = "1.21.3"
