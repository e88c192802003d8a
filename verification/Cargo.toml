[package]
name = "opfs"
version = "0.1.0"
edition = "2021"
publish = false

[dependencies]
opendal-core = { version = "=0.57.0", default-features = false }
js-sys = "=0.3.107"
wasm-bindgen = "=0.2.130"
wasm-bindgen-futures = "=0.4.80"
web-sys = { version = "=0.3.107", features = ["Window", "Navigator", "StorageManager", "FileSystemHandle", "FileSystemDirectoryHandle", "FileSystemFileHandle", "FileSystemGetDirectoryOptions", "FileSystemGetFileOptions", "FileSystemRemoveOptions", "FileSystemWritableFileStream", "File", "Blob", "WriteParams", "WriteCommandType", "WritableStream", "console"] }
