[package]
name = "intersection_observer_bug"
version = "0.1.0"
edition = "2021"
publish = false

[dependencies]
actix-web = { version = "=4.18.1", default-features = false }
leptos = { version = "=0.6.15" }
leptos_actix = { version = "=0.6.15" }
leptos_meta = { version = "=0.6.15" }
leptos_router = { version = "=0.6.15" }
leptos-use = { version = "0.13" }
