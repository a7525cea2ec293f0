[package]
name = "inventory_dashboard"
version = "0.1.0"
edition = "2021"
publish = false

[dependencies]
axum = { version = "=0.7.9", features = ["ws"] }
tokio = { version = "=1.54.1", features = ["full"] }
redb = "=2.6.4"
serde = { version = "=1.0.229", features = ["derive"] }
serde_json = "=1.0.154"
utoipa = { version = "=4.2.3", features = ["axum_extras"] }
utoipa-swagger-ui = { version = "=7.1.0", features = ["axum", "vendored"] }
tower-http = { version = "=0.5.2", features = ["cors"] }
rust-embed = { version = "=8.13.0", features = ["interpolate-folder-path"] }
mime_guess = "=2.0.5"
leptos = { version = "=0.6.15", features = ["csr"] }
gloo-net = "=0.5.0"
wasm-bindgen = "=0.2.130"
wasm-bindgen-futures = "=0.4.80"
js-sys = "=0.3.107"
console_error_panic_hook = "=0.1.7"
web-sys = { version = "=0.3.107", features = ["Window", "Location", "Document", "Element", "HtmlAnchorElement", "HtmlInputElement", "MessageEvent", "WebSocket", "Blob", "BlobPropertyBag", "Url"] }
