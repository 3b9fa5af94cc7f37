[package]
name = "gameclient"
version = "0.1.0"
edition = "2021"
publish = false

[dependencies]
bevy = { version = "=0.15.3", default-features = false, features = ["bevy_asset", "bevy_color", "bevy_core_pipeline", "bevy_render", "bevy_sprite", "bevy_state", "bevy_text", "bevy_ui", "bevy_window", "png"] }
console_error_panic_hook = "=0.1.7"
idna_adapter = "=1.0.0"
image = { version = "=0.25.10", default-features = false, features = ["png"] }
js-sys = "=0.3.107"
reqwest = { version = "=0.12.28", default-features = false, features = ["json"] }
serde = { version = "=1.0.229", features = ["derive"] }
serde_json = "=1.0.154"
wasm-bindgen = "=0.2.130"
wasm-bindgen-futures = "=0.4.80"
web-sys = { version = "=0.3.107", features = ["AudioContext", "AudioDestinationNode", "AudioNode", "AudioParam", "BaseAudioContext", "Document", "Element", "GainNode", "HtmlAudioElement", "HtmlElement", "HtmlMediaElement", "Location", "OscillatorNode", "OscillatorType", "Response", "Storage", "Window", "console"] }
