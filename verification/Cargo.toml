[package]
name = "process_memory_reader"
version = "0.1.0"
edition = "2021"
publish = false

[dependencies]
nix = { version = "=0.29.0", features = ["uio", "process", "signal"] }
winapi = { version = "0.3", features = ["handleapi", "memoryapi", "processthreadsapi", "psapi", "tlhelp32", "winnt", "minwindef", "impl-default"] }
libc = "0.2"
