[package]
name = "sel"
version = "0.1.0"
edition = "2021"
publish = false

[dependencies]
mime_guess = "=2.0.5"
rsa = "=0.4.1"
pem = "=0.8.3"
rand_core = { version = "0.6", features = ["getrandom"] }
serde = { version = "=1.0.229", features = ["derive"] }
serde_json = "=1.0.154"
actix-web = "=3.3.3"
rust-embed = "=5.9.0"
gtk = "=0.15.5"
gdk = "=0.15.4"
gio = "=0.15.12"
glib = "=0.15.12"
webkit2gtk = "=0.18.2"
