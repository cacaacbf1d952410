[package]
name = "webland"
version = "0.1.0"
edition = "2021"
publish = false

[dependencies]
bincode = "=1.3.3"
miniz_oxide = { version = "=0.8.9", features = ["with-alloc"] }
png = "=0.17.16"
xcursor = "=0.3.11"
tokio = { version = "=1.54.1", features = ["rt-multi-thread", "net", "sync", "time", "macros", "process", "io-util", "signal"] }
tokio-tungstenite = "=0.30.0"
futures-util = { version = "=0.3.34", default-features = false, features = ["sink", "std"] }
tracing = "=0.1.44"
tracing-subscriber = { version = "=0.3.23", features = ["env-filter"] }
zbus = { version = "=4.4.0", default-features = false, features = ["tokio"] }
smithay = { version = "=0.7.0", default-features = false, features = ["wayland_frontend", "xwayland", "desktop", "renderer_gl", "backend_egl", "backend_gbm", "backend_winit"] }
ffmpeg-next = { version = "*", default-features = false, features = ["codec", "filter"] }
js-sys = "0.3"
wasm-bindgen = "0.2"
wasm-bindgen-futures = "0.4"
web-sys = { version = "0.3", features = ["AddEventListenerOptions", "BinaryType", "CanvasRenderingContext2d", "Clipboard", "ClipboardEvent", "CodecState", "DataTransfer", "Document", "DomRect", "DomTokenList", "Element", "EncodedVideoChunk", "EncodedVideoChunkInit", "EncodedVideoChunkType", "Event", "EventTarget", "HtmlAudioElement", "HtmlCanvasElement", "HtmlElement", "HtmlInputElement", "HtmlMediaElement", "ImageData", "KeyboardEvent", "Location", "MediaSource", "MessageEvent", "MouseEvent", "Navigator", "Node", "Performance", "PointerEvent", "PointerEventInit", "SourceBuffer", "TimeRanges", "Url", "VideoDecoder", "VideoDecoderConfig", "VideoDecoderInit", "VideoFrame", "WebSocket", "WheelEvent", "Window", "console"] }
