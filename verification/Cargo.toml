[package]
name = "blitz_arena"
version = "0.1.0"
edition = "2021"
publish = false

[dependencies]
slab = "=0.4.12"
atomic_refcell = "=0.1.14"
html5ever = "=0.39.0"
markup5ever_rcdom = "=0.39.0"
string_cache = "=0.8.9"
fxhash = "=0.2.1"
euclid = "=0.22.14"
app_units = "=0.7.8"
selectors = "=0.32.0"
stylo = "=0.8.0"
stylo_traits = "=0.8.0"
stylo_dom = "=0.8.0"
taffy = "=0.15.0"
dioxus = { version = "=0.4.3", default-features = false, features = ["macro", "html"] }
dioxus-ssr = "=0.4.3"
vello = { version = "=0.11.0", default-features = false }
