[package]
name = "ableton_link"
version = "0.1.0"
edition = "2021"
publish = false

[dependencies]
bincode = "2"
chrono = "0.4"
libc = "0.2"
mach2 = "0.4"
socket2 = "0.5"
tracing = "0.1"
triple_buffer = "8"
winapi = { version = "0.3", features = ["winnt", "profileapi", "libloaderapi", "processthreadsapi", "ntdef", "minwindef"] }
